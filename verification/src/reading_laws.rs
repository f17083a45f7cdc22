//! What is read from texts and documents: trimming and joining, members by their kind,
//! and the last entry of each name.
use vstd::prelude::*;

use crate::json::{entry_at, flag_in, list_in, member, number_in, object_in, text_in, whole_in, Document};
use crate::str_map::{ascending, lookup, lookup_inserted};
use crate::text::{
    first_chars, is_white, joined, left_aligned, right_aligned, trim_end, trim_start, trimmed, without_trailing, zero_padded,
};
use crate::vault::{fresh, in_cents, marks_of, point_of, points_of, recorded, slashed};

verus! {

// ── texts ──────────────────────────────────────────────────────────────────

proof fn start_is_cut(s: Seq<char>)
    ensures
        trim_start(s).len() <= s.len(),
        trim_start(s) == s.skip(s.len() - trim_start(s).len()),
        trim_start(s).len() > 0 ==> !is_white(trim_start(s)[0]),
        forall|k: int| 0 <= k < s.len() - trim_start(s).len() ==> is_white(#[trigger] s[k]),
    decreases s.len(),
{
    if s.len() > 0 && is_white(s[0]) {
        let rest = s.drop_first();
        start_is_cut(rest);
        let n = rest.len() - trim_start(rest).len();
        assert(rest.skip(n) =~= s.skip(n + 1));
        assert forall|k: int| 0 <= k < n + 1 implies is_white(#[trigger] s[k]) by {
            if k > 0 {
                assert(rest[k - 1] == s[k]);
            }
        }
    } else {
        assert(s.skip(0) =~= s);
    }
}

proof fn end_is_cut(s: Seq<char>)
    ensures
        trim_end(s).len() <= s.len(),
        trim_end(s) == s.take(trim_end(s).len() as int),
        trim_end(s).len() > 0 ==> !is_white(trim_end(s).last()),
        forall|k: int| trim_end(s).len() <= k < s.len() ==> is_white(#[trigger] s[k]),
    decreases s.len(),
{
    if s.len() > 0 && is_white(s.last()) {
        let front = s.drop_last();
        end_is_cut(front);
        let n = trim_end(front).len() as int;
        assert(front.take(n) =~= s.take(n));
        assert forall|k: int| n <= k < s.len() implies is_white(#[trigger] s[k]) by {
            if k < front.len() {
                assert(front[k] == s[k]);
            }
        }
    } else {
        assert(s.take(s.len() as int) =~= s);
    }
}

/// A trimmed text is what is left of the text once the white space at both its ends is
/// gone: it begins and ends with something else, and what was cut off was white space.
pub proof fn only_white_space_is_trimmed(s: Seq<char>) -> (at: int)
    ensures
        0 <= at,
        at + trimmed(s).len() <= s.len(),
        trimmed(s) == s.subrange(at, at + trimmed(s).len()),
        trimmed(s).len() > 0 ==> !is_white(trimmed(s)[0]) && !is_white(trimmed(s).last()),
        forall|k: int| 0 <= k < s.len() && (k < at || at + trimmed(s).len() <= k) ==> is_white(#[trigger] s[k]),
{
    let t = trim_start(s);
    start_is_cut(s);
    end_is_cut(t);
    let at = s.len() - t.len();
    let n = trimmed(s).len() as int;
    assert(t.take(n) =~= s.subrange(at, at + n));
    assert forall|k: int| 0 <= k < s.len() && (k < at || at + n <= k) implies is_white(#[trigger] s[k]) by {
        if k >= at {
            assert(t[k - at] == s[k]);
        }
    }
    if n > 0 {
        assert(trimmed(s)[0] == t[0]);
    }
    at
}

/// What is cut off at the end is the one character, and all of it.
pub proof fn only_that_character_is_cut(s: Seq<char>, c: char)
    ensures
        without_trailing(s, c).len() <= s.len(),
        without_trailing(s, c) == s.take(without_trailing(s, c).len() as int),
        without_trailing(s, c).len() > 0 ==> without_trailing(s, c).last() != c,
        forall|k: int| without_trailing(s, c).len() <= k < s.len() ==> #[trigger] s[k] == c,
    decreases s.len(),
{
    if s.len() > 0 && s.last() == c {
        let front = s.drop_last();
        only_that_character_is_cut(front, c);
        let n = without_trailing(front, c).len() as int;
        assert(front.take(n) =~= s.take(n));
        assert forall|k: int| n <= k < s.len() implies #[trigger] s[k] == c by {
            if k < front.len() {
                assert(front[k] == s[k]);
            }
        }
    } else {
        assert(s.take(s.len() as int) =~= s);
    }
}

/// Parts are joined in their order, with the separator between neighbours.
pub proof fn parts_are_joined_in_order(parts: Seq<Seq<char>>, part: Seq<char>, sep: Seq<char>)
    ensures
        joined(seq![], sep).len() == 0,
        joined(seq![part], sep) == part,
        parts.len() > 0 ==> joined(parts.push(part), sep) == joined(parts, sep) + sep + part,
{
    assert(parts.push(part).drop_last() =~= parts);
}

/// An aligned text has at least the width that was asked for, holds the text whole, and
/// fills with spaces; numbers fill with zeros.
pub proof fn alignment_fills_up(s: Seq<char>, width: nat)
    ensures
        left_aligned(s, width).len() == right_aligned(s, width).len() == zero_padded(s, width).len() == if s.len() < width {
            width
        } else {
            s.len()
        },
        left_aligned(s, width).take(s.len() as int) == s,
        right_aligned(s, width).skip(right_aligned(s, width).len() - s.len()) == s,
        zero_padded(s, width).skip(zero_padded(s, width).len() - s.len()) == s,
        forall|k: int| s.len() <= k < left_aligned(s, width).len() ==> #[trigger] left_aligned(s, width)[k] == ' ',
        forall|k: int|
            0 <= k < right_aligned(s, width).len() - s.len() ==> #[trigger] right_aligned(s, width)[k] == ' ' && zero_padded(
                s,
                width,
            )[k] == '0',
{
    assert(left_aligned(s, width).take(s.len() as int) =~= s);
    assert(right_aligned(s, width).skip(right_aligned(s, width).len() - s.len()) =~= s);
    assert(zero_padded(s, width).skip(zero_padded(s, width).len() - s.len()) =~= s);
}

/// A text that is cut keeps its first characters, and as many as fit.
pub proof fn a_cut_text_keeps_its_front(s: Seq<char>, n: nat, k: int)
    ensures
        first_chars(s, n).len() == if s.len() < n {
            s.len()
        } else {
            n
        },
        0 <= k < first_chars(s, n).len() ==> first_chars(s, n)[k] == s[k],
{
}

// ── documents ──────────────────────────────────────────────────────────────

/// A member is read by its kind, and as no other kind; the first entry of a key counts.
pub proof fn a_member_is_read_by_its_kind(entries: Seq<(Seq<char>, Document)>, i: int)
    requires
        0 <= i < entries.len(),
        forall|j: int| 0 <= j < i ==> (#[trigger] entries[j]).0 != entries[i].0,
    ensures
        ({
            let d = Document::Object(entries);
            let key = entries[i].0;
            &&& member(d, key) == Some(entries[i].1)
            &&& match entries[i].1 {
                Document::Number { value, whole } => number_in(d, key) == Some(value) && whole_in(d, key) == whole && text_in(
                    d,
                    key,
                ) is None && flag_in(d, key) is None && object_in(d, key) is None && list_in(d, key) is None,
                Document::Text(s) => text_in(d, key) == Some(s) && number_in(d, key) is None && whole_in(d, key) is None
                    && flag_in(d, key) is None && object_in(d, key) is None && list_in(d, key) is None,
                Document::Bool(b) => flag_in(d, key) == Some(b) && number_in(d, key) is None && text_in(d, key) is None
                    && object_in(d, key) is None && list_in(d, key) is None,
                Document::Object(e) => object_in(d, key) == Some(Document::Object(e)) && number_in(d, key) is None && text_in(
                    d,
                    key,
                ) is None && flag_in(d, key) is None && list_in(d, key) is None,
                Document::Array(v) => list_in(d, key) == Some(v) && number_in(d, key) is None && text_in(d, key) is None
                    && flag_in(d, key) is None && object_in(d, key) is None,
                Document::Null => number_in(d, key) is None && text_in(d, key) is None && flag_in(d, key) is None && object_in(
                    d,
                    key,
                ) is None && list_in(d, key) is None,
            }
        }),
{
    entry_at(entries, i);
}

// ── what is stored ─────────────────────────────────────────────────────────

/// Every mark of a document is read, and of two under one name the last; what is no
/// number is passed over.
pub proof fn the_last_mark_of_a_name_counts(entries: Seq<(Seq<char>, Document)>, n: int, k: int)
    requires
        0 <= k < n <= entries.len(),
        entries[k].1 is Number,
        forall|j: int| k < j < n ==> (#[trigger] entries[j]).0 != entries[k].0 || !(entries[j].1 is Number),
    ensures
        entries[k].1 matches Document::Number { value, whole } && lookup(marks_of(entries, n), entries[k].0) == Some(
            value as i128,
        ),
    decreases n,
{
    if let Document::Number { value, whole } = entries[n - 1].1 {
        lookup_inserted(marks_of(entries, n - 1), entries[n - 1].0, value as i128, entries[k].0);
    }
    if k < n - 1 {
        assert(entries[n - 1].0 != entries[k].0 || !(entries[n - 1].1 is Number));
        the_last_mark_of_a_name_counts(entries, n - 1, k);
    }
}

/// Every item of a history with a day and an amount is a point, and of two for one day the
/// last; any other item is passed over.
pub proof fn the_last_point_of_a_day_counts(items: Seq<Document>, n: int, k: int, day: Seq<char>, nav: int)
    requires
        0 <= k < n <= items.len(),
        text_in(items[k], "date"@) == Some(day),
        number_in(items[k], "nav"@) == Some(nav),
        forall|j: int|
            k < j < n ==> text_in(#[trigger] items[j], "date"@) != Some(day) || number_in(items[j], "nav"@) is None,
    ensures
        lookup(points_of(items, n), day) == Some(nav as i128),
    decreases n,
{
    if let Some(p) = point_of(items[n - 1]) {
        lookup_inserted(points_of(items, n - 1), p.0, p.1, day);
    }
    if k < n - 1 {
        assert(text_in(items[n - 1], "date"@) != Some(day) || number_in(items[n - 1], "nav"@) is None);
        the_last_point_of_a_day_counts(items, n - 1, k, day, nav);
    }
}

/// Recording a day leaves every other day as it was while there is room.
pub proof fn other_days_are_kept(
    points: Seq<(Seq<char>, i128)>,
    date: Seq<char>,
    nav: int,
    max_points: nat,
    other: Seq<char>,
)
    requires
        ascending(points),
        points.len() < max_points,
    ensures
        other != date ==> lookup(recorded(points, date, nav, max_points), other) == lookup(points, other),
        lookup(recorded(points, date, nav, max_points), date) == Some(in_cents(nav) as i128),
{
    lookup_inserted(points, date, in_cents(nav) as i128, other);
    lookup_inserted(points, date, in_cents(nav) as i128, date);
    at_most_one_more(points, date, in_cents(nav) as i128);
}

proof fn at_most_one_more(s: Seq<(Seq<char>, i128)>, k: Seq<char>, v: i128)
    ensures
        crate::str_map::inserted(s, k, v).len() <= s.len() + 1,
    decreases s.len(),
{
    if s.len() > 0 {
        at_most_one_more(s.drop_first(), k, v);
    }
}

/// What was read is given back for three hundred seconds, under its path with either kind
/// of slash, and not after.
pub proof fn a_read_is_fresh_for_three_hundred_seconds(
    entries: Seq<(Seq<char>, (Seq<char>, i64))>,
    path: Seq<char>,
    now: int,
)
    ensures
        match lookup(entries, slashed(path)) {
            Some(e) => if now < e.1 + 300_000 {
                fresh(entries, path, now) == Some(e.0)
            } else {
                fresh(entries, path, now) is None
            },
            None => fresh(entries, path, now) is None,
        },
        slashed(path).len() == path.len(),
        forall|k: int|
            0 <= k < path.len() ==> #[trigger] slashed(path)[k] == if path[k] == '\\' {
                '/'
            } else {
                path[k]
            },
        fresh(entries, slashed(path), now) == fresh(entries, path, now),
{
    assert(slashed(slashed(path)) =~= slashed(path));
}

} // verus!
