//! What the schedule owes: every session runs, every missed window is made up for, and
//! every quarter is reviewed.
use vstd::prelude::*;

use crate::calendar::{weekday, Ymd};
use crate::lifecycle::review::quarter_of;
use crate::scheduler::{
    answered, carried, daily_key, earlier, holiday_key, is_first_weekday, is_made_up_for, is_pending, is_quarter_start,
    is_run, on_weekday, quarter_key, reviewed, started, trimmed, Moment,
};
use crate::str_map::included;

verus! {

/// From Monday to Friday, in the first five minutes after ten.
pub open spec fn at_ten(now: Moment) -> bool {
    weekday(now.date@) <= 4 && now.hour == 10 && now.minute < 5
}

/// The cycle runs on every session in the window, on whatever weekday and date, unless
/// the day has run already or turned out to be a holiday; and at no other time.
pub proof fn every_session_runs(keys: Seq<Seq<char>>, now: Moment)
    ensures
        is_run(keys, now, Some(true)) <==> at_ten(now) && !keys.contains(daily_key(now.date@)) && !keys.contains(
            holiday_key(now.date@),
        ),
        is_pending(keys, now) <==> is_run(keys, now, Some(true)),
        !is_run(keys, now, Some(false)),
        !is_run(keys, now, None),
{
}

/// A run is remembered under its day, a holiday under its own key, and a failed lookup
/// leaves the day to be asked about again.
pub proof fn an_answer_is_remembered(keys: Seq<Seq<char>>, now: Moment)
    requires
        is_pending(keys, now),
    ensures
        answered(keys, now, Some(true)).contains(daily_key(now.date@)),
        answered(keys, now, Some(false)).contains(holiday_key(now.date@)),
        answered(keys, now, None) == keys,
        !is_pending(answered(keys, now, Some(true)), now),
        !is_pending(answered(keys, now, Some(false)), now),
        is_pending(answered(keys, now, None), now),
{
    let (a, b) = (included(keys, daily_key(now.date@)), included(keys, holiday_key(now.date@)));
    assert(a[a.len() - 1] == daily_key(now.date@));
    assert(b[b.len() - 1] == holiday_key(now.date@));
}

/// A start after ten on a session, however late in the day, makes up for the window
/// where this is asked for and the day has not run; then the day has run. A start in the
/// morning, at the weekend or without a confirmed session does nothing.
pub proof fn a_late_start_makes_up(keys: Seq<Seq<char>>, catchup: bool, now: Moment, session: Option<bool>)
    ensures
        is_made_up_for(keys, catchup, now, session) <==> catchup && session == Some(true) && weekday(now.date@) <= 4
            && now.hour >= 10 && !keys.contains(daily_key(now.date@)),
        is_made_up_for(keys, catchup, now, session) ==> started(keys, catchup, now, session).contains(
            daily_key(now.date@),
        ) && !is_run(started(keys, catchup, now, session), now, Some(true)),
        !catchup || session != Some(true) || weekday(now.date@) > 4 || now.hour < 10 ==> started(
            keys,
            catchup,
            now,
            session,
        ) == keys,
{
    let a = included(keys, daily_key(now.date@));
    if !keys.contains(daily_key(now.date@)) {
        assert(a[a.len() - 1] == daily_key(now.date@));
    }
}

/// A month belongs to the quarter that ends with the third month from its first: one to
/// three, four to six, seven to nine, ten to twelve.
pub proof fn a_quarter_has_three_months(month: int)
    requires
        1 <= month <= 12,
    ensures
        3 * (quarter_of(month) - 1) < month <= 3 * quarter_of(month),
        1 <= quarter_of(month) <= 4,
{
}

/// Every quarter is reviewed in the window of the first weekday of January, April, July
/// or October, and on no other day; then its key is used.
pub proof fn every_quarter_is_reviewed(keys: Seq<Seq<char>>, now: Moment)
    ensures
        is_quarter_start(now.date@) <==> (now.date@.month == 1 || now.date@.month == 4 || now.date@.month == 7
            || now.date@.month == 10) && weekday(now.date@) <= 4 && forall|k: int|
            1 <= k < now.date@.day ==> weekday(#[trigger] earlier(now.date@, k)) > 4,
        at_ten(now) && is_quarter_start(now.date@) ==> reviewed(keys, now).contains(quarter_key(now.date@)),
        !(at_ten(now) && is_quarter_start(now.date@)) ==> reviewed(keys, now) == keys,
{
    let d = now.date@;
    if is_first_weekday(d) {
        assert forall|k: int| 1 <= k < d.day implies weekday(#[trigger] earlier(d, k)) > 4 by {
            assert(!on_weekday(earlier(d, k)));
        }
    }
    if weekday(d) <= 4 && forall|k: int| 1 <= k < d.day ==> weekday(#[trigger] earlier(d, k)) > 4 {
        assert forall|k: int| 1 <= k < d.day implies !on_weekday(#[trigger] earlier(d, k)) by {
            assert(weekday(earlier(d, k)) > 4);
        }
    }
    let a = included(keys, quarter_key(d));
    if !keys.contains(quarter_key(d)) {
        assert(a[a.len() - 1] == quarter_key(d));
    }
}

/// A trim forgets nothing while there are four hundred keys or fewer; past that it keeps
/// of the keys those of the day and of its quarter, and at most these.
pub proof fn a_trim_forgets_other_days(keys: Seq<Seq<char>>, d: Ymd, k: Seq<char>)
    ensures
        keys.len() <= 400 ==> trimmed(keys, d) == keys,
        keys.len() > 400 ==> (trimmed(keys, d).contains(k) <==> keys.contains(k) && (k == daily_key(d) || k == holiday_key(d)
            || k == quarter_key(d))),
{
    let none = Seq::<Seq<char>>::empty();
    let one = carried(none, keys, daily_key(d));
    let two = carried(one, keys, holiday_key(d));
    carried_contains(none, keys, daily_key(d), k);
    carried_contains(one, keys, holiday_key(d), k);
    carried_contains(two, keys, quarter_key(d), k);
}

proof fn carried_contains(out: Seq<Seq<char>>, keys: Seq<Seq<char>>, own: Seq<char>, k: Seq<char>)
    ensures
        carried(out, keys, own).contains(k) <==> out.contains(k) || (k == own && keys.contains(own)),
{
    let t = carried(out, keys, own);
    if out.contains(k) {
        let i = choose|i: int| 0 <= i < out.len() && out[i] == k;
        assert(t[i] == k);
    }
    if k == own && keys.contains(own) && !out.contains(own) {
        assert(t[t.len() - 1] == own);
    }
    if t.contains(k) {
        let i = choose|i: int| 0 <= i < t.len() && t[i] == k;
        if i < out.len() {
            assert(out[i] == k);
        }
    }
}

} // verus!
