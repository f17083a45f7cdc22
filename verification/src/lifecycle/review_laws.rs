//! What a quarterly review points out.
use vstd::prelude::*;

use crate::fixed::percent;
use crate::lifecycle::review::{any_stopped, cluster_lines_text, stop_lines, stops_text};
use crate::portfolio::state::HoldingView;
use crate::text::{occurs, stands_at};

verus! {

/// What stands in a text stands in any longer one that begins with it.
pub proof fn still_said(a: Seq<char>, b: Seq<char>, part: Seq<char>)
    requires
        occurs(a, part),
    ensures
        occurs(a + b, part),
{
    let i = choose|i: int| stands_at(a, part, i);
    assert((a + b).subrange(i, i + part.len()) =~= a.subrange(i, i + part.len()));
    assert(stands_at(a + b, part, i));
}

/// A part in the middle of a text stands in it.
pub proof fn newly_said(a: Seq<char>, part: Seq<char>, c: Seq<char>)
    ensures
        occurs(a + (part + c), part),
{
    let text = a + (part + c);
    let i = a.len() as int;
    assert(text.subrange(i, i + part.len()) =~= part);
    assert(stands_at(text, part, i));
}

/// The line of a name that has lost at least as much as the stop, without its end.
pub open spec fn loss_of(h: HoldingView) -> Seq<char> {
    "- "@ + h.ticker + ": down "@ + percent(h.unrealized_plpc, 0, false) + "%"@
}

/// The line of a cluster over the cap, without its end.
pub open spec fn excess_of(x: (Seq<char>, int, int)) -> Seq<char> {
    "- "@ + x.0 + ": "@ + percent(x.1, 1, false) + "% (target "@ + percent(x.2, 1, false) + "%)"@ + " ⚠ OVER CAP"@
}

proof fn a_loss_is_said(holdings: Seq<HoldingView>, stop: int, n: int, k: int)
    requires
        0 <= k < n <= holdings.len(),
        holdings[k].unrealized_plpc <= -stop,
    ensures
        occurs(stop_lines(holdings, stop, n), loss_of(holdings[k])),
    decreases n,
{
    let before = stop_lines(holdings, stop, n - 1);
    let h = holdings[n - 1];
    let end = " — re-validate the thesis pillar before adding\n"@;
    let line = "- "@ + h.ticker + ": down "@ + percent(h.unrealized_plpc, 0, false)
        + "% — re-validate the thesis pillar before adding\n"@;
    if k < n - 1 {
        a_loss_is_said(holdings, stop, n - 1, k);
        still_said(before, line, loss_of(holdings[k]));
    } else {
        reveal_strlit("%");
        reveal_strlit(" — re-validate the thesis pillar before adding\n");
        reveal_strlit("% — re-validate the thesis pillar before adding\n");
        assert("% — re-validate the thesis pillar before adding\n"@ =~= "%"@ + end);
        assert(line =~= loss_of(h) + end);
        newly_said(before, loss_of(h), end);
    }
}

/// Every name that has lost at least as much as the stop is listed in the review, however
/// much it lost; where none has, it says so.
pub proof fn every_loss_beyond_the_stop_is_listed(holdings: Seq<HoldingView>, stop: int)
    ensures
        forall|k: int|
            0 <= k < holdings.len() && (#[trigger] holdings[k]).unrealized_plpc <= -stop ==> occurs(
                stops_text(holdings, stop),
                loss_of(holdings[k]),
            ),
        (forall|k: int| 0 <= k < holdings.len() ==> (#[trigger] holdings[k]).unrealized_plpc > -stop) ==> stops_text(
            holdings,
            stop,
        ) == "- none\n"@,
{
    assert forall|k: int| 0 <= k < holdings.len() && (#[trigger] holdings[k]).unrealized_plpc <= -stop implies occurs(
        stops_text(holdings, stop),
        loss_of(holdings[k]),
    ) by {
        assert(any_stopped(holdings, stop));
        a_loss_is_said(holdings, stop, holdings.len() as int, k);
    }
}

/// A cluster over the cap is called out in the review.
pub proof fn every_cluster_over_the_cap_is_called_out(shares: Seq<(Seq<char>, int, int)>, cap: int, n: int, k: int)
    requires
        0 <= k < n <= shares.len(),
        shares[k].1 > cap,
    ensures
        occurs(cluster_lines_text(shares, cap, n), excess_of(shares[k])),
    decreases n,
{
    let before = cluster_lines_text(shares, cap, n - 1);
    let x = shares[n - 1];
    let line = "- "@ + x.0 + ": "@ + percent(x.1, 1, false) + "% (target "@ + percent(x.2, 1, false) + "%)"@ + (if x.1 > cap {
        " ⚠ OVER CAP"@
    } else {
        ""@
    }) + "\n"@;
    if k < n - 1 {
        every_cluster_over_the_cap_is_called_out(shares, cap, n - 1, k);
        still_said(before, line, excess_of(shares[k]));
    } else {
        assert(line =~= excess_of(x) + "\n"@);
        newly_said(before, excess_of(x), "\n"@);
    }
}

} // verus!
