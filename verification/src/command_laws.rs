//! What a command line means: which words choose the mode, which name a command, and
//! what the others are taken for.
use vstd::prelude::*;

use crate::portfolio::targets::{table, INVESTED};
use crate::run::{asked_tickers, chooses_mode, disarms, names_command, plain_words, Command};
use crate::text::{lower, upper};

verus! {

/// A word turns trading off exactly where it is `dry-run` or `dryrun`, in any case; these
/// and `execute` and `armed` are the words that choose the mode.
pub proof fn two_words_turn_trading_off(s: Seq<char>)
    ensures
        disarms(s) <==> lower(s) == "dry-run"@ || lower(s) == "dryrun"@,
        chooses_mode(s) <==> disarms(s) || lower(s) == "execute"@ || lower(s) == "armed"@,
        lower(s) == "execute"@ || lower(s) == "armed"@ ==> !disarms(s),
{
    reveal_strlit("dry-run");
    reveal_strlit("dryrun");
    reveal_strlit("execute");
    reveal_strlit("armed");
    assert("dry-run"@.len() == 7 && "dryrun"@.len() == 6 && "execute"@.len() == 7 && "armed"@.len() == 5);
    assert("dry-run"@[0] == 'd' && "execute"@[0] == 'e');
}

proof fn the_words_are_told_apart()
    ensures
        "config"@.len() == 6,
        "status"@.len() == 6,
        "positions"@.len() == 9,
        "build"@.len() == 5,
        "daily"@.len() == 5,
        "track"@.len() == 5,
        "rebalance"@.len() == 9,
        "review"@.len() == 6,
        "reconcile"@.len() == 9,
        "signals"@.len() == 7,
        "cancel"@.len() == 6,
        "notify"@.len() == 6,
        "test"@.len() == 4,
        "scheduler"@.len() == 9,
        "help"@.len() == 4,
        "--help"@.len() == 6,
        "-h"@.len() == 2,
        "status"@ != "config"@,
        "daily"@ != "build"@,
        "track"@ != "build"@,
        "track"@ != "daily"@,
        "rebalance"@ != "positions"@,
        "review"@ != "config"@,
        "review"@ != "status"@,
        "reconcile"@ != "positions"@,
        "reconcile"@ != "rebalance"@,
        "cancel"@ != "config"@,
        "cancel"@ != "status"@,
        "cancel"@ != "review"@,
        "notify"@ != "config"@,
        "notify"@ != "status"@,
        "notify"@ != "review"@,
        "notify"@ != "cancel"@,
        "scheduler"@ != "positions"@,
        "scheduler"@ != "rebalance"@,
        "scheduler"@ != "reconcile"@,
        "help"@ != "test"@,
        "--help"@ != "config"@,
        "--help"@ != "status"@,
        "--help"@ != "review"@,
        "--help"@ != "cancel"@,
        "--help"@ != "notify"@,
{
    reveal_strlit("config");
    reveal_strlit("status");
    reveal_strlit("positions");
    reveal_strlit("build");
    reveal_strlit("daily");
    reveal_strlit("track");
    reveal_strlit("rebalance");
    reveal_strlit("review");
    reveal_strlit("reconcile");
    reveal_strlit("signals");
    reveal_strlit("cancel");
    reveal_strlit("notify");
    reveal_strlit("test");
    reveal_strlit("scheduler");
    reveal_strlit("help");
    reveal_strlit("--help");
    reveal_strlit("-h");
    assert("status"@[0] != "config"@[0]);
    assert("daily"@[0] != "build"@[0]);
    assert("track"@[0] != "build"@[0]);
    assert("track"@[0] != "daily"@[0]);
    assert("rebalance"@[0] != "positions"@[0]);
    assert("review"@[0] != "config"@[0]);
    assert("review"@[0] != "status"@[0]);
    assert("reconcile"@[0] != "positions"@[0]);
    assert("reconcile"@[2] != "rebalance"@[2]);
    assert("cancel"@[1] != "config"@[1]);
    assert("cancel"@[0] != "status"@[0]);
    assert("cancel"@[0] != "review"@[0]);
    assert("notify"@[0] != "config"@[0]);
    assert("notify"@[0] != "status"@[0]);
    assert("notify"@[0] != "review"@[0]);
    assert("notify"@[0] != "cancel"@[0]);
    assert("scheduler"@[0] != "positions"@[0]);
    assert("scheduler"@[0] != "rebalance"@[0]);
    assert("scheduler"@[0] != "reconcile"@[0]);
    assert("help"@[0] != "test"@[0]);
    assert("--help"@[0] != "config"@[0]);
    assert("--help"@[0] != "status"@[0]);
    assert("--help"@[0] != "review"@[0]);
    assert("--help"@[0] != "cancel"@[0]);
    assert("--help"@[0] != "notify"@[0]);
}

/// Each word names its own command and no other.
pub proof fn each_word_names_its_command(c: Command)
    ensures
        names_command("config"@, c) <==> c is Config,
        names_command("status"@, c) <==> c is Status,
        names_command("positions"@, c) <==> c is Positions,
        names_command("build"@, c) <==> c is Build,
        names_command("daily"@, c) <==> c is Daily,
        names_command("track"@, c) <==> c is Daily,
        names_command("rebalance"@, c) <==> c is Daily,
        names_command("review"@, c) <==> c is Review,
        names_command("reconcile"@, c) <==> c is Reconcile,
        names_command("signals"@, c) <==> c is Signals,
        names_command("cancel"@, c) <==> c is Cancel,
        names_command("notify"@, c) <==> c is Notify,
        names_command("test"@, c) <==> c is Test,
        names_command("scheduler"@, c) <==> c is Scheduler,
        names_command("help"@, c) <==> c is Help,
        names_command("--help"@, c) <==> c is Help,
        names_command("-h"@, c) <==> c is Help,
{
    the_words_are_told_apart();
}

/// A word that names no command is reported as it stands.
pub proof fn a_strange_word_is_reported(word: Seq<char>, c: Command)
    requires
        word != "config"@,
        word != "status"@,
        word != "positions"@,
        word != "build"@,
        word != "daily"@,
        word != "track"@,
        word != "rebalance"@,
        word != "review"@,
        word != "reconcile"@,
        word != "signals"@,
        word != "cancel"@,
        word != "notify"@,
        word != "test"@,
        word != "scheduler"@,
        word != "help"@,
        word != "--help"@,
        word != "-h"@,
    ensures
        names_command(word, c) <==> (c matches Command::Unknown(s) && s@ == word),
{
}

/// The words that do not choose the mode are all kept, and no other is.
pub proof fn every_other_word_is_kept(args: Seq<Seq<char>>, n: int, w: Seq<char>)
    requires
        0 <= n <= args.len(),
    ensures
        plain_words(args, n).contains(w) <==> !chooses_mode(w) && exists|k: int| 0 <= k < n && #[trigger] args[k] == w,
    decreases n,
{
    if n > 0 {
        every_other_word_is_kept(args, n - 1, w);
        let (before, all) = (plain_words(args, n - 1), plain_words(args, n));
        if before.contains(w) {
            let k = choose|k: int| 0 <= k < before.len() && before[k] == w;
            assert(all[k] == w);
        }
        if args[n - 1] == w && !chooses_mode(w) {
            assert(all[all.len() - 1] == w);
        }
        if all.contains(w) {
            let k = choose|k: int| 0 <= k < all.len() && all[k] == w;
            if k < before.len() {
                assert(before[k] == w);
            } else {
                assert(args[n - 1] == w);
            }
        }
    }
}

/// The signals of the names that are asked for are shown, in upper case; of every line of
/// the book where none is.
pub proof fn the_asked_names_are_shown(args: Seq<Seq<char>>, k: int)
    ensures
        ({
            let words = plain_words(args, args.len() as int);
            let shown = asked_tickers(args);
            &&& words.len() > 0 ==> shown.len() == words.len() && (0 <= k < words.len() ==> shown[k] == upper(words[k]))
            &&& words.len() == 0 ==> shown.len() == INVESTED && (0 <= k < INVESTED ==> shown[k] == table()[k].ticker@)
        }),
{
}

} // verus!
