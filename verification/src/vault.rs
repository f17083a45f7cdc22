//! The documents of the vault: high-water marks, the NAV history, file names and
//! the short read cache. Reading and writing the files themselves is the caller's.
use vstd::prelude::*;
use vstd::string::*;

use crate::fixed::{decimal, decimal_text, magnitude, within, Fixed, CENT, FAR};
use crate::json::{
    array, documents, entry_at, list_in, members, number_document, number_in, number_written, object,
    object_in, text_in, Document, Json,
};
use crate::str_map::{
    ascending, inserted, inserted_ascending, inserted_entry, inserted_last, lookup, lookup_inserted, lookup_removed, removed, StrMap,
};
use crate::text::{
    begins_with, chars_of, finishes_with, includes, occurs, precedes, precedes_irreflexive, precedes_transitive,
    string_of,
};

verus! {

/// The folders of the vault.
pub const SUBFOLDERS: [&'static str; 4] = ["state", "cards", "reflections", "meta"];

// ── file names ─────────────────────────────────────────────────────────────

/// Whether a file is listed: it is not hidden, and its name contains and ends with
/// what was asked for.
pub fn is_listed(name: &str, part: &str, ending: &str) -> (r: bool)
    ensures
        r == (!"."@.is_prefix_of(name@) && occurs(name@, part@) && ending@.is_suffix_of(name@)),
{
    !begins_with(name, ".") && includes(name, part) && finishes_with(name, ending)
}

/// The name of the file that a write goes to before it takes the place of the old one.
pub fn temporary_name(target: &str, process: u32) -> (r: String)
    ensures
        r@ == "."@ + target@ + "."@ + decimal(process as nat) + ".tmp"@,
{
    let mut r = ".".to_owned();
    r.append(target);
    r.append(".");
    r.append(decimal_text(process as u128).as_str());
    r.append(".tmp");
    r
}

/// The name of the record of one run.
pub fn run_record_name(date: &str, window: &str) -> (r: String)
    ensures
        r@ == "run-"@ + date@ + "-"@ + window@ + ".json"@,
{
    let mut r = "run-".to_owned();
    r.append(date);
    r.append("-");
    r.append(window);
    r.append(".json");
    r
}

// ── the read cache ─────────────────────────────────────────────────────────

/// How long what was read is good for, in milliseconds.
pub const CACHE_MILLIS: i128 = 300_000;

/// A path with forward slashes.
pub open spec fn slashed(path: Seq<char>) -> Seq<char> {
    path.map_values(
        |c: char|
            if c == '\\' {
                '/'
            } else {
                c
            },
    )
}

fn with_slashes(path: &str) -> (r: String)
    ensures
        r@ == slashed(path@),
{
    let v = chars_of(path);
    let mut out: Vec<char> = Vec::new();
    let mut i: usize = 0;
    while i < v.len()
        invariant
            i <= v@.len(),
            out@ == slashed(v@).take(i as int),
        decreases v@.len() - i,
    {
        if v[i] == '\\' {
            out.push('/');
        } else {
            out.push(v[i]);
        }
        i += 1;
        assert(out@ =~= slashed(v@).take(i as int));
    }
    assert(slashed(v@).take(i as int) =~= slashed(v@));
    string_of(&out)
}

/// What was read of late, by path, with the time of the reading in milliseconds.
pub struct ReadCache {
    entries: StrMap<(String, i64)>,
}

impl View for ReadCache {
    type V = Seq<(Seq<char>, (Seq<char>, i64))>;

    closed spec fn view(&self) -> Seq<(Seq<char>, (Seq<char>, i64))> {
        self.entries@
    }
}

/// What the cache gives for a path: the content, while it is fresh.
pub open spec fn fresh(entries: Seq<(Seq<char>, (Seq<char>, i64))>, path: Seq<char>, now: int) -> Option<Seq<char>> {
    match lookup(entries, slashed(path)) {
        Some(e) => if now - e.1 < CACHE_MILLIS {
            Some(e.0)
        } else {
            None
        },
        None => None,
    }
}

impl ReadCache {
    /// The empty cache.
    pub fn new() -> (r: Self)
        ensures
            r@ == Seq::<(Seq<char>, (Seq<char>, i64))>::empty(),
    {
        ReadCache { entries: StrMap::new() }
    }

    /// The content under a path, while it is fresh.
    pub fn cached(&self, path: &str, now: i64) -> (r: Option<String>)
        ensures
            match r {
                Some(s) => fresh(self@, path@, now as int) == Some(s@),
                None => fresh(self@, path@, now as int) is None,
            },
    {
        let key = with_slashes(path);
        match self.entries.get(key.as_str()) {
            Some(e) => if now as i128 - (e.1 as i128) < CACHE_MILLIS {
                Some(e.0.clone())
            } else {
                None
            },
            None => None,
        }
    }

    /// Keeps what was read under a path.
    pub fn keep(&mut self, path: &str, content: &str, now: i64)
        ensures
            final(self)@ == inserted(old(self)@, slashed(path@), (content@, now)),
    {
        let key = with_slashes(path);
        self.entries.insert(key, (content.to_owned(), now));
    }

    /// Forgets what was read under a path that was written to.
    pub fn forget(&mut self, path: &str)
        ensures
            final(self)@ == removed(old(self)@, slashed(path@)),
    {
        let key = with_slashes(path);
        self.entries.remove(key.as_str());
    }
}

/// A file that was written is read anew, whatever was read before.
pub proof fn a_written_file_is_read_anew(
    entries: Seq<(Seq<char>, (Seq<char>, i64))>,
    path: Seq<char>,
    now: int,
)
    ensures
        fresh(removed(entries, slashed(path)), path, now) is None,
{
    lookup_removed(entries, slashed(path), slashed(path));
}

/// What was kept is given back for five minutes, and not after.
pub proof fn what_was_kept_stays_for_five_minutes(
    entries: Seq<(Seq<char>, (Seq<char>, i64))>,
    path: Seq<char>,
    content: Seq<char>,
    read: i64,
    now: int,
)
    ensures
        fresh(inserted(entries, slashed(path), (content, read)), path, now) == if now - read < CACHE_MILLIS {
            Some(content)
        } else {
            None
        },
{
    lookup_inserted(entries, slashed(path), (content, read), slashed(path));
}

// ── high-water marks ───────────────────────────────────────────────────────

/// The marks that the first `n` members of an object give: those that are numbers.
pub open spec fn marks_of(entries: Seq<(Seq<char>, Document)>, n: int) -> Seq<(Seq<char>, i128)>
    decreases n,
{
    if n <= 0 {
        seq![]
    } else {
        match entries[n - 1].1 {
            Document::Number { value, whole } => inserted(marks_of(entries, n - 1), entries[n - 1].0, value as i128),
            _ => marks_of(entries, n - 1),
        }
    }
}

/// The marks that a document holds.
pub open spec fn marks_in(doc: Document) -> Seq<(Seq<char>, i128)> {
    match object_in(doc, "marks"@) {
        Some(Document::Object(entries)) => marks_of(entries, entries.len() as int),
        _ => seq![],
    }
}

/// The highest price seen of each name, as the document has it.
pub fn high_water(doc: &Json) -> (r: StrMap<Fixed>)
    ensures
        r@ == marks_in(doc@),
        ascending(r@),
        forall|i: int| 0 <= i < r@.len() ==> within((#[trigger] r@[i]).1 as int, FAR as int),
{
    let mut out: StrMap<Fixed> = StrMap::new();
    let marks = match doc.object_at("marks") {
        Some(m) => m,
        None => {
            return out;
        },
    };
    if let Some(fields) = marks.fields() {
        let ghost all = members(fields@);
        let mut n: usize = 0;
        while n < fields.len()
            invariant
                n <= fields@.len(),
                all == members(fields@),
                out@ == marks_of(all, n as int),
                ascending(out@),
                forall|i: int| 0 <= i < out@.len() ==> within((#[trigger] out@[i]).1 as int, FAR as int),
            decreases fields@.len() - n,
        {
            assert(all[n as int] == (fields@[n as int].0@, fields@[n as int].1@));
            if let Json::Number(x) = fields[n].1 {
                let value = x.get();
                let ghost before = out@;
                let ghost key = fields@[n as int].0@;
                out.insert(fields[n].0.clone(), value);
                proof {
                    assert forall|i: int| 0 <= i < out@.len() implies within(
                        (#[trigger] out@[i]).1 as int,
                        FAR as int,
                    ) by {
                        inserted_entry(before, key, value, i);
                    }
                }
            }
            n += 1;
        }
    }
    out
}

/// The members that marks are written as, in their order.
pub open spec fn written_marks(marks: Seq<(Seq<char>, i128)>) -> Seq<(Seq<char>, Document)> {
    marks.map_values(|m: (Seq<char>, i128)| (m.0, number_written(m.1 as int)))
}

/// The document that holds these marks and the time of the saving.
pub fn high_water_document(marks: &StrMap<Fixed>, saved_at: &str) -> (r: Json)
    ensures
        object_in(r@, "marks"@) == Some(Document::Object(written_marks(marks@))),
        text_in(r@, "saved_at"@) == Some(saved_at@),
{
    let mut entries: Vec<(String, Json)> = Vec::new();
    let mut i: usize = 0;
    while i < marks.len()
        invariant
            i <= marks@.len(),
            entries@.len() == i,
            forall|j: int|
                0 <= j < i ==> (#[trigger] entries@[j]).0@ == marks@[j].0 && entries@[j].1@ == number_written(
                    marks@[j].1 as int,
                ),
        decreases marks@.len() - i,
    {
        entries.push((marks.key_at(i).clone(), number_document(*marks.value_at(i))));
        i += 1;
    }
    assert(members(entries@) =~= written_marks(marks@));
    let fields = vec![
        ("marks".to_owned(), object(entries)),
        ("saved_at".to_owned(), Json::Text(saved_at.to_owned())),
    ];
    let ghost all = members(fields@);
    proof {
        reveal_strlit("marks");
        reveal_strlit("saved_at");
        assert("marks"@.len() != "saved_at"@.len());
        entry_at(all, 0);
        entry_at(all, 1);
    }
    object(fields)
}

/// The marks that were saved are the marks that are read back.
pub proof fn marks_survive_saving(doc: Document, marks: Seq<(Seq<char>, i128)>)
    requires
        ascending(marks),
        forall|i: int| 0 <= i < marks.len() ==> within((#[trigger] marks[i]).1 as int, FAR as int),
        object_in(doc, "marks"@) == Some(Document::Object(written_marks(marks))),
    ensures
        marks_in(doc) == marks,
{
    saved_marks(marks, marks.len() as int);
    assert(marks.take(marks.len() as int) =~= marks);
}

proof fn saved_marks(marks: Seq<(Seq<char>, i128)>, n: int)
    requires
        ascending(marks),
        forall|i: int| 0 <= i < marks.len() ==> within((#[trigger] marks[i]).1 as int, FAR as int),
        0 <= n <= marks.len(),
    ensures
        marks_of(written_marks(marks), n) == marks.take(n),
    decreases n,
{
    if n == 0 {
        assert(marks.take(0) =~= seq![]);
    } else {
        saved_marks(marks, n - 1);
        let before = marks.take(n - 1);
        let e = marks[n - 1];
        assert(written_marks(marks)[n - 1] == (e.0, number_written(e.1 as int)));
        assert forall|i: int| 0 <= i < before.len() implies precedes(#[trigger] before[i].0, e.0) by {
            assert(precedes(marks[i].0, marks[n - 1].0));
        }
        inserted_last(before, e.0, e.1);
        assert(before.push(e) =~= marks.take(n));
    }
}

// ── NAV history ────────────────────────────────────────────────────────────

/// An amount in whole cents, a half away from zero.
pub open spec fn in_cents(x: int) -> int {
    let n = (magnitude(x) + CENT / 2) / (CENT as int) * CENT;
    if x < 0 {
        -n
    } else {
        n
    }
}

fn to_cents(x: Fixed) -> (r: Fixed)
    requires
        within(x as int, FAR as int),
    ensures
        r == in_cents(x as int),
        within(r as int, FAR as int),
{
    let size: i128 = if x < 0 {
        -x
    } else {
        x
    };
    let n: i128 = (size + CENT / 2) / CENT * CENT;
    if x < 0 {
        -n
    } else {
        n
    }
}

/// The point that an item of the history gives: a day and an amount.
pub open spec fn point_of(item: Document) -> Option<(Seq<char>, i128)> {
    match (text_in(item, "date"@), number_in(item, "nav"@)) {
        (Some(d), Some(v)) => Some((d, v as i128)),
        _ => None,
    }
}

/// The points that the first `n` items give, by day.
pub open spec fn points_of(items: Seq<Document>, n: int) -> Seq<(Seq<char>, i128)>
    decreases n,
{
    if n <= 0 {
        seq![]
    } else {
        match point_of(items[n - 1]) {
            Some(p) => inserted(points_of(items, n - 1), p.0, p.1),
            None => points_of(items, n - 1),
        }
    }
}

/// The points of a history.
pub open spec fn points_in(doc: Document) -> Seq<(Seq<char>, i128)> {
    match list_in(doc, "points"@) {
        Some(items) => points_of(items, items.len() as int),
        None => seq![],
    }
}

/// The last `n` of some points.
pub open spec fn latest(points: Seq<(Seq<char>, i128)>, n: nat) -> Seq<(Seq<char>, i128)> {
    if points.len() > n {
        points.skip(points.len() - n)
    } else {
        points
    }
}

/// The points with one more day, or with a new amount for a day that is there;
/// the oldest leave where there are too many.
pub open spec fn recorded(points: Seq<(Seq<char>, i128)>, date: Seq<char>, nav: int, max_points: nat) -> Seq<
    (Seq<char>, i128),
> {
    latest(inserted(points, date, in_cents(nav) as i128), max_points)
}

/// A history holds these points, in their order.
pub open spec fn lists_points(items: Seq<Document>, points: Seq<(Seq<char>, i128)>) -> bool {
    &&& items.len() == points.len()
    &&& forall|i: int|
        0 <= i < points.len() ==> text_in(#[trigger] items[i], "date"@) == Some(points[i].0) && number_in(
            items[i],
            "nav"@,
        ) == Some(points[i].1 as int)
}

fn point_document(date: String, nav: Fixed) -> (r: Json)
    requires
        within(nav as int, FAR as int),
    ensures
        text_in(r@, "date"@) == Some(date@),
        number_in(r@, "nav"@) == Some(nav as int),
{
    let fields = vec![("date".to_owned(), Json::Text(date)), ("nav".to_owned(), number_document(nav))];
    let ghost all = members(fields@);
    proof {
        reveal_strlit("date");
        reveal_strlit("nav");
        assert("date"@.len() != "nav"@.len());
        entry_at(all, 0);
        entry_at(all, 1);
    }
    object(fields)
}

/// The history with the day's NAV in it: at most `max_points` days, each once, in
/// the order of their texts.
pub fn record_nav(doc: &Json, date: &str, nav: Fixed, max_points: usize) -> (r: Json)
    requires
        within(nav as int, FAR as int),
    ensures
        list_in(r@, "points"@) matches Some(items) && lists_points(
            items,
            recorded(points_in(doc@), date@, nav as int, max_points as nat),
        ),
        points_in(r@) == recorded(points_in(doc@), date@, nav as int, max_points as nat),
{
    let mut points: StrMap<Fixed> = StrMap::new();
    if let Some(items) = doc.list_at("points") {
        let ghost all = documents(items@);
        let mut n: usize = 0;
        while n < items.len()
            invariant
                n <= items@.len(),
                all == documents(items@),
                points@ == points_of(all, n as int),
                ascending(points@),
                forall|i: int| 0 <= i < points@.len() ==> within((#[trigger] points@[i]).1 as int, FAR as int),
            decreases items@.len() - n,
        {
            assert(all[n as int] == items@[n as int]@);
            if let Some(d) = items[n].text_at("date") {
                if let Some(v) = items[n].number_at("nav") {
                    let ghost before = points@;
                    let ghost key = d@;
                    points.insert(d, v);
                    proof {
                        assert forall|i: int| 0 <= i < points@.len() implies within(
                            (#[trigger] points@[i]).1 as int,
                            FAR as int,
                        ) by {
                            inserted_entry(before, key, v, i);
                        }
                    }
                }
            }
            n += 1;
        }
    }
    let ghost before = points@;
    let value = to_cents(nav);
    points.insert(date.to_owned(), value);
    proof {
        assert forall|i: int| 0 <= i < points@.len() implies within((#[trigger] points@[i]).1 as int, FAR as int) by {
            inserted_entry(before, date@, value, i);
        }
    }
    let count = points.len();
    let from: usize = if count > max_points {
        count - max_points
    } else {
        0
    };
    let ghost want = recorded(points_in(doc@), date@, nav as int, max_points as nat);
    assert(want =~= points@.skip(from as int));
    let mut items: Vec<Json> = Vec::new();
    let mut i: usize = from;
    while i < points.len()
        invariant
            from <= i <= points@.len(),
            want == points@.skip(from as int),
            items@.len() == i - from,
            forall|j: int| 0 <= j < points@.len() ==> within((#[trigger] points@[j]).1 as int, FAR as int),
            forall|j: int|
                0 <= j < items@.len() ==> text_in((#[trigger] items@[j])@, "date"@) == Some(want[j].0) && number_in(
                    items@[j]@,
                    "nav"@,
                ) == Some(want[j].1 as int),
        decreases points@.len() - i,
    {
        assert(want[i - from] == points@[i as int]);
        items.push(point_document(points.key_at(i).clone(), *points.value_at(i)));
        i += 1;
    }
    let ghost saved = documents(items@);
    let fields = vec![("points".to_owned(), array(items))];
    let ghost all = members(fields@);
    let r = object(fields);
    proof {
        entry_at(all, 0);
        assert(list_in(r@, "points"@) == Some(saved));
        assert forall|j: int| 0 <= j < want.len() implies text_in(#[trigger] saved[j], "date"@) == Some(want[j].0)
            && number_in(saved[j], "nav"@) == Some(want[j].1 as int) by {
            assert(saved[j] == items@[j]@);
        }
        assert(ascending(want)) by {
            assert forall|a: int, b: int| 0 <= a < b < want.len() implies precedes(
                #[trigger] want[a].0,
                #[trigger] want[b].0,
            ) by {
                assert(precedes(points@[a + from].0, points@[b + from].0));
            }
        }
        points_survive_saving(r@, want);
    }
    r
}

/// The points that were saved are the points that are read back.
pub proof fn points_survive_saving(doc: Document, points: Seq<(Seq<char>, i128)>)
    requires
        ascending(points),
        list_in(doc, "points"@) matches Some(items) && lists_points(items, points),
    ensures
        points_in(doc) == points,
{
    if let Some(items) = list_in(doc, "points"@) {
        saved_points(items, points, points.len() as int);
        assert(points.take(points.len() as int) =~= points);
    }
}

proof fn saved_points(items: Seq<Document>, points: Seq<(Seq<char>, i128)>, n: int)
    requires
        ascending(points),
        lists_points(items, points),
        0 <= n <= points.len(),
    ensures
        points_of(items, n) == points.take(n),
    decreases n,
{
    if n == 0 {
        assert(points.take(0) =~= seq![]);
    } else {
        saved_points(items, points, n - 1);
        let before = points.take(n - 1);
        let e = points[n - 1];
        assert(text_in(items[n - 1], "date"@) == Some(e.0));
        assert forall|i: int| 0 <= i < before.len() implies precedes(#[trigger] before[i].0, e.0) by {
            assert(precedes(points[i].0, points[n - 1].0));
        }
        inserted_last(before, e.0, e.1);
        assert(before.push(e) =~= points.take(n));
    }
}

/// The points of any history stand in ascending order of their days, each day once.
pub proof fn points_are_ascending(doc: Document)
    ensures
        ascending(points_in(doc)),
{
    if let Some(items) = list_in(doc, "points"@) {
        points_of_ascending(items, items.len() as int);
    }
}

proof fn points_of_ascending(items: Seq<Document>, n: int)
    ensures
        ascending(points_of(items, n)),
    decreases n,
{
    if n > 0 {
        points_of_ascending(items, n - 1);
        if let Some(p) = point_of(items[n - 1]) {
            inserted_ascending(points_of(items, n - 1), p.0, p.1);
        }
    }
}

/// A history never grows past its limit, and holds each day once.
pub proof fn a_history_is_capped(points: Seq<(Seq<char>, i128)>, date: Seq<char>, nav: int, max_points: nat)
    requires
        ascending(points),
    ensures
        recorded(points, date, nav, max_points).len() <= max_points,
        ascending(recorded(points, date, nav, max_points)),
{
    let all = inserted(points, date, in_cents(nav) as i128);
    inserted_ascending(points, date, in_cents(nav) as i128);
    let kept = recorded(points, date, nav, max_points);
    let from = all.len() - kept.len();
    assert forall|a: int, b: int| 0 <= a < b < kept.len() implies precedes(#[trigger] kept[a].0, #[trigger] kept[b].0) by {
        assert(precedes(all[a + from].0, all[b + from].0));
    }
}

/// A day that no recorded day comes after is the last point of the history, with
/// its amount.
pub proof fn the_latest_day_is_kept(points: Seq<(Seq<char>, i128)>, date: Seq<char>, nav: int, max_points: nat)
    requires
        forall|i: int| 0 <= i < points.len() ==> precedes(#[trigger] points[i].0, date),
        max_points > 0,
    ensures
        recorded(points, date, nav, max_points).len() > 0,
        recorded(points, date, nav, max_points).last() == (date, in_cents(nav) as i128),
{
    inserted_last(points, date, in_cents(nav) as i128);
}

proof fn inserted_place<W>(s: Seq<(Seq<char>, W)>, k: Seq<char>, v: W, w: W) -> (p: int)
    ensures
        0 <= p < inserted(s, k, v).len(),
        inserted(s, k, v)[p] == (k, v),
        inserted(s, k, w) == inserted(s, k, v).update(p, (k, w)),
    decreases s.len(),
{
    let t = inserted(s, k, v);
    let u = inserted(s, k, w);
    if s.len() == 0 || s[0].0 == k || precedes(k, s[0].0) {
        assert(u =~= t.update(0, (k, w)));
        0
    } else {
        let rest = s.drop_first();
        let q = inserted_place(rest, k, v, w);
        assert(t[q + 1] == (k, v));
        assert(u =~= t.update(q + 1, (k, w)));
        q + 1
    }
}

proof fn inserted_again<W>(s: Seq<(Seq<char>, W)>, p: int, w: W)
    requires
        ascending(s),
        0 <= p < s.len(),
    ensures
        inserted(s, s[p].0, w) == s.update(p, (s[p].0, w)),
    decreases s.len(),
{
    let k = s[p].0;
    if p == 0 {
        assert(inserted(s, k, w) =~= s.update(0, (k, w)));
    } else {
        let rest = s.drop_first();
        precedes_irreflexive(k);
        assert(precedes(s[0].0, s[p].0));
        if precedes(k, s[0].0) {
            precedes_transitive(k, s[0].0, k);
        }
        assert forall|a: int, b: int| 0 <= a < b < rest.len() implies precedes(
            #[trigger] rest[a].0,
            #[trigger] rest[b].0,
        ) by {
            assert(precedes(s[a + 1].0, s[b + 1].0));
        }
        inserted_again(rest, p - 1, w);
        assert(rest[p - 1] == s[p]);
        assert(inserted(s, k, w) =~= s.update(p, (k, w)));
    }
}

/// Recording a day again overwrites its point: only the last amount counts.
pub proof fn recording_a_day_again_overwrites(
    points: Seq<(Seq<char>, i128)>,
    date: Seq<char>,
    first: int,
    second: int,
    max_points: nat,
)
    requires
        ascending(points),
    ensures
        recorded(recorded(points, date, first, max_points), date, second, max_points) == recorded(
            points,
            date,
            second,
            max_points,
        ),
{
    let v = in_cents(first) as i128;
    let w = in_cents(second) as i128;
    let t = inserted(points, date, v);
    let u = latest(t, max_points);
    let from = t.len() - u.len();
    inserted_ascending(points, date, v);
    let p = inserted_place(points, date, v, w);
    let again = inserted(points, date, w);
    a_history_is_capped(points, date, first, max_points);
    assert(u =~= t.skip(from));
    if p >= from {
        assert(u[p - from] == t[p]);
        inserted_again(u, p - from, w);
        assert(recorded(u, date, second, max_points) =~= latest(again, max_points));
    } else {
        if u.len() > 0 {
            assert(precedes(t[p].0, t[from].0));
            assert(u[0] == t[from]);
            precedes_irreflexive(date);
        }
        assert(inserted(u, date, w) =~= seq![(date, w)] + u);
        assert(recorded(u, date, second, max_points) =~= u);
        assert(latest(again, max_points) =~= u);
    }
}

} // verus!
