//! JSON documents as plain values, and the look-ups that the readers of broker
//! replies and reports make in them.
use vstd::prelude::*;

use crate::fixed::{bounded, bring_in, within, Fixed, FAR, ONE};
use crate::numerals::{decimal_value, parse_decimal, parse_whole, whole_value};
use crate::text::same;

verus! {

/// A number of a document: its value and, where it is written as a whole number of
/// 64 bits, that whole number.
#[derive(Debug, Clone, Copy, PartialEq)]
pub struct JsonNumber {
    value: Fixed,
    whole: Option<i64>,
}

impl JsonNumber {
    /// The value of a number is of bounded size.
    #[verifier::type_invariant]
    pub open spec fn is_bounded(self) -> bool {
        within(self.value(), FAR as int)
    }

    /// The value of the number.
    pub closed spec fn value(self) -> int {
        self.value as int
    }

    /// The whole number that it is written as.
    pub closed spec fn whole(self) -> Option<i64> {
        self.whole
    }

    /// A number; one past the largest that is held counts as that one.
    pub fn new(value: Fixed, whole: Option<i64>) -> (r: Self)
        ensures
            r.value() == bounded(value as int),
            r.whole() == whole,
    {
        JsonNumber { value: bring_in(value), whole }
    }

    /// The value of the number.
    pub fn get(&self) -> (r: Fixed)
        ensures
            r == self.value(),
            within(r as int, FAR as int),
    {
        proof {
            use_type_invariant(self);
        }
        self.value
    }

    /// The whole number that it is written as.
    pub fn written_whole(&self) -> (r: Option<i64>)
        ensures
            r == self.whole(),
    {
        self.whole
    }
}

/// A JSON document.
#[derive(Debug, PartialEq)]
pub enum Json {
    Null,
    Bool(bool),
    Number(JsonNumber),
    Text(String),
    Array(Vec<Json>),
    Object(Vec<(String, Json)>),
}

/// A document as plain values.
pub enum Document {
    Null,
    Bool(bool),
    Number { value: int, whole: Option<i64> },
    Text(Seq<char>),
    Array(Seq<Document>),
    Object(Seq<(Seq<char>, Document)>),
}

/// The plain values of a document.
pub open spec fn document_of(j: Json) -> Document
    decreases j,
{
    match j {
        Json::Null => Document::Null,
        Json::Bool(b) => Document::Bool(b),
        Json::Number(n) => Document::Number { value: n.value(), whole: n.whole() },
        Json::Text(s) => Document::Text(s@),
        Json::Array(v) => Document::Array(
            Seq::new(
                v@.len(),
                |i: int|
                    if 0 <= i < v@.len() {
                        document_of(v@[i])
                    } else {
                        Document::Null
                    },
            ),
        ),
        Json::Object(e) => Document::Object(
            Seq::new(
                e@.len(),
                |i: int|
                    if 0 <= i < e@.len() {
                        (e@[i].0@, document_of(e@[i].1))
                    } else {
                        (seq![], Document::Null)
                    },
            ),
        ),
    }
}

impl View for Json {
    type V = Document;

    open spec fn view(&self) -> Document {
        document_of(*self)
    }
}

/// The plain values of some documents.
pub open spec fn documents(v: Seq<Json>) -> Seq<Document> {
    v.map_values(|j: Json| j@)
}

/// The plain values of the members of an object.
pub open spec fn members(e: Seq<(String, Json)>) -> Seq<(Seq<char>, Document)> {
    e.map_values(|m: (String, Json)| (m.0@, m.1@))
}

/// The plain values of an array.
pub proof fn array_document(v: Vec<Json>)
    ensures
        Json::Array(v)@ == Document::Array(documents(v@)),
{
    assert(Json::Array(v)@->Array_0 =~= documents(v@));
}

/// The plain values of an object.
pub proof fn object_document(e: Vec<(String, Json)>)
    ensures
        Json::Object(e)@ == Document::Object(members(e@)),
{
    assert(Json::Object(e)@->Object_0 =~= members(e@));
}

/// The value of the first entry with the key.
pub open spec fn entry(entries: Seq<(Seq<char>, Document)>, key: Seq<char>) -> Option<Document>
    decreases entries.len(),
{
    if entries.len() == 0 {
        None
    } else if entries[0].0 == key {
        Some(entries[0].1)
    } else {
        entry(entries.drop_first(), key)
    }
}

/// The entry at a place is found under its key, where no entry before it has that key.
pub proof fn entry_at(entries: Seq<(Seq<char>, Document)>, i: int)
    requires
        0 <= i < entries.len(),
        forall|k: int| 0 <= k < i ==> (#[trigger] entries[k]).0 != entries[i].0,
    ensures
        entry(entries, entries[i].0) == Some(entries[i].1),
    decreases i,
{
    if i > 0 {
        let rest = entries.drop_first();
        assert(entries[0].0 != entries[i].0);
        assert forall|k: int| 0 <= k < i - 1 implies (#[trigger] rest[k]).0 != rest[i - 1].0 by {
            assert(rest[k] == entries[k + 1]);
        }
        entry_at(rest, i - 1);
    }
}

/// The member of an object; nothing else has members.
pub open spec fn member(d: Document, key: Seq<char>) -> Option<Document> {
    match d {
        Document::Object(entries) => entry(entries, key),
        _ => None,
    }
}

/// The member, when it is a number.
pub open spec fn number_in(d: Document, key: Seq<char>) -> Option<int> {
    match member(d, key) {
        Some(Document::Number { value, whole }) => Some(value),
        _ => None,
    }
}

/// The member, when it is a whole number of 64 bits.
pub open spec fn whole_in(d: Document, key: Seq<char>) -> Option<i64> {
    match member(d, key) {
        Some(Document::Number { value, whole }) => whole,
        _ => None,
    }
}

/// The member, when it is a text.
pub open spec fn text_in(d: Document, key: Seq<char>) -> Option<Seq<char>> {
    match member(d, key) {
        Some(Document::Text(s)) => Some(s),
        _ => None,
    }
}

/// The member, when it is a truth value.
pub open spec fn flag_in(d: Document, key: Seq<char>) -> Option<bool> {
    match member(d, key) {
        Some(Document::Bool(b)) => Some(b),
        _ => None,
    }
}

/// The member, when it is an object.
pub open spec fn object_in(d: Document, key: Seq<char>) -> Option<Document> {
    match member(d, key) {
        Some(Document::Object(e)) => Some(Document::Object(e)),
        _ => None,
    }
}

/// The items of the member, when it is an array.
pub open spec fn list_in(d: Document, key: Seq<char>) -> Option<Seq<Document>> {
    match member(d, key) {
        Some(Document::Array(v)) => Some(v),
        _ => None,
    }
}

/// A text that may be missing, or `default`.
pub open spec fn text_or(t: Option<Seq<char>>, default: Seq<char>) -> Seq<char> {
    match t {
        Some(s) => s,
        None => default,
    }
}

/// The view of a text that may be missing.
pub open spec fn text_view(t: Option<String>) -> Option<Seq<char>> {
    match t {
        Some(s) => Some(s@),
        None => None,
    }
}

/// The view of a number that may be missing.
pub open spec fn number_view(x: Option<Fixed>) -> Option<int> {
    match x {
        Some(n) => Some(n as int),
        None => None,
    }
}

/// A number as a document writes it.
pub open spec fn number_written(x: int) -> Document {
    Document::Number { value: bounded(x), whole: None }
}

/// A number as a document writes it.
pub fn number_document(x: Fixed) -> (r: Json)
    ensures
        r@ == number_written(x as int),
{
    Json::Number(JsonNumber::new(x, None))
}

/// A whole number as a document writes it.
pub open spec fn whole_written(n: int) -> Document {
    Document::Number { value: n * ONE, whole: Some(n as i64) }
}

/// A whole number as a document writes it.
pub fn whole_document(n: i64) -> (r: Json)
    ensures
        r@ == whole_written(n as int),
{
    Json::Number(JsonNumber::new(n as i128 * ONE, Some(n)))
}

/// The object with these members.
pub fn object(fields: Vec<(String, Json)>) -> (r: Json)
    ensures
        r@ == Document::Object(members(fields@)),
{
    proof {
        object_document(fields);
    }
    Json::Object(fields)
}

/// The array of these items.
pub fn array(items: Vec<Json>) -> (r: Json)
    ensures
        r@ == Document::Array(documents(items@)),
{
    proof {
        array_document(items);
    }
    Json::Array(items)
}

impl Json {
    /// The member with the key.
    pub fn get(&self, key: &str) -> (r: Option<&Json>)
        ensures
            match r {
                Some(v) => member(self@, key@) == Some(v@),
                None => member(self@, key@) is None,
            },
    {
        match self {
            Json::Object(entries) => {
                proof {
                    object_document(*entries);
                }
                let ghost all = members(entries@);
                let mut i: usize = 0;
                assert(all.skip(0) == all);
                while i < entries.len()
                    invariant
                        i <= entries@.len(),
                        all == members(entries@),
                        member(self@, key@) == entry(all, key@),
                        entry(all, key@) == entry(all.skip(i as int), key@),
                    decreases entries@.len() - i,
                {
                    let ghost rest = all.skip(i as int);
                    assert(rest[0] == all[i as int]);
                    assert(rest.drop_first() == all.skip(i + 1));
                    if same(entries[i].0.as_str(), key) {
                        return Some(&entries[i].1);
                    }
                    i += 1;
                }
                None
            },
            _ => None,
        }
    }

    /// The number under the key.
    pub fn number_at(&self, key: &str) -> (r: Option<Fixed>)
        ensures
            number_view(r) == number_in(self@, key@),
            r matches Some(x) ==> within(x as int, FAR as int),
    {
        match self.get(key) {
            Some(Json::Number(n)) => Some(n.get()),
            _ => None,
        }
    }

    /// The whole number under the key.
    pub fn whole_at(&self, key: &str) -> (r: Option<i64>)
        ensures
            r == whole_in(self@, key@),
    {
        match self.get(key) {
            Some(Json::Number(n)) => n.written_whole(),
            _ => None,
        }
    }

    /// The text under the key.
    pub fn text_at(&self, key: &str) -> (r: Option<String>)
        ensures
            text_view(r) == text_in(self@, key@),
    {
        match self.get(key) {
            Some(Json::Text(s)) => Some(s.clone()),
            _ => None,
        }
    }

    /// The text under the key, or the empty text.
    pub fn text_or_empty(&self, key: &str) -> (r: String)
        ensures
            r@ == text_or(text_in(self@, key@), ""@),
    {
        match self.text_at(key) {
            Some(s) => s,
            None => "".to_owned(),
        }
    }

    /// The truth value under the key.
    pub fn flag_at(&self, key: &str) -> (r: Option<bool>)
        ensures
            r == flag_in(self@, key@),
    {
        match self.get(key) {
            Some(Json::Bool(b)) => Some(*b),
            _ => None,
        }
    }

    /// The object under the key.
    pub fn object_at(&self, key: &str) -> (r: Option<&Json>)
        ensures
            match r {
                Some(v) => object_in(self@, key@) == Some(v@),
                None => object_in(self@, key@) is None,
            },
    {
        match self.get(key) {
            Some(v) => match v {
                Json::Object(_) => Some(v),
                _ => None,
            },
            None => None,
        }
    }

    /// The items of the array under the key.
    pub fn list_at(&self, key: &str) -> (r: Option<&Vec<Json>>)
        ensures
            match r {
                Some(v) => list_in(self@, key@) == Some(documents(v@)),
                None => list_in(self@, key@) is None,
            },
    {
        match self.get(key) {
            Some(Json::Array(v)) => {
                proof {
                    array_document(*v);
                }
                Some(v)
            },
            _ => None,
        }
    }

    /// The items, when the document is an array.
    pub fn items(&self) -> (r: Option<&Vec<Json>>)
        ensures
            match r {
                Some(v) => self@ == Document::Array(documents(v@)),
                None => !(self@ is Array),
            },
    {
        match self {
            Json::Array(v) => {
                proof {
                    array_document(*v);
                }
                Some(v)
            },
            _ => None,
        }
    }

    /// The members, when the document is an object.
    pub fn fields(&self) -> (r: Option<&Vec<(String, Json)>>)
        ensures
            match r {
                Some(e) => self@ == Document::Object(members(e@)),
                None => !(self@ is Object),
            },
    {
        match self {
            Json::Object(e) => {
                proof {
                    object_document(*e);
                }
                Some(e)
            },
            _ => None,
        }
    }
}

// ── reading documents ──────────────────────────────────────────────────────

/// The documents of the `serde_json` crate.
#[verifier::external_type_specification]
#[verifier::external_body]
pub struct ExValue(serde_json::Value);

/// A document as it is written: a number is the text that it is written as.
pub enum Tree {
    Null,
    Bool(bool),
    Number(Seq<char>),
    Text(Seq<char>),
    Array(Seq<Tree>),
    Object(Seq<(Seq<char>, Tree)>),
}

/// What a document of `serde_json` holds.
pub uninterp spec fn held_tree(v: serde_json::Value) -> Tree;

/// What `serde_json::from_str` reads from a text.
pub uninterp spec fn parsed_tree(s: Seq<char>) -> Option<Tree>;

/// `serde_json::from_str`: the document that a text holds, or nothing where it is no
/// JSON. Which texts are read is only named.
#[verifier::external_body]
fn serde_parse(s: &str) -> (r: Option<serde_json::Value>)
    ensures
        match r {
            Some(v) => parsed_tree(s@) == Some(held_tree(v)),
            None => parsed_tree(s@) is None,
        },
{
    serde_json::from_str(s).ok()
}

/// The outermost part of a document.
enum Node {
    Null,
    Bool(bool),
    Number(String),
    Text(String),
    Array(Vec<serde_json::Value>),
    Object(Vec<(String, serde_json::Value)>),
}

/// `serde_json::Value`: the outermost part of a document. A number comes as the text
/// that `serde_json::Number` is written as, an array with its items in order, an object
/// with its members in the order in which `serde_json::Map` is walked.
#[verifier::external_body]
fn serde_node(v: serde_json::Value) -> (r: Node)
    ensures
        match r {
            Node::Null => held_tree(v) == Tree::Null,
            Node::Bool(b) => held_tree(v) == Tree::Bool(b),
            Node::Number(s) => held_tree(v) == Tree::Number(s@),
            Node::Text(s) => held_tree(v) == Tree::Text(s@),
            Node::Array(items) => held_tree(v) == Tree::Array(items@.map_values(|x: serde_json::Value| held_tree(x))),
            Node::Object(entries) => held_tree(v) == Tree::Object(
                entries@.map_values(|e: (String, serde_json::Value)| (e.0@, held_tree(e.1))),
            ),
        },
{
    match v {
        serde_json::Value::Null => Node::Null,
        serde_json::Value::Bool(b) => Node::Bool(b),
        serde_json::Value::Number(n) => Node::Number(n.to_string()),
        serde_json::Value::String(s) => Node::Text(s),
        serde_json::Value::Array(items) => Node::Array(items),
        serde_json::Value::Object(entries) => Node::Object(entries.into_iter().collect()),
    }
}

/// What a document of `serde_json` is written as.
pub uninterp spec fn written_tree(t: Tree) -> Seq<char>;

/// `serde_json::Value::to_string`: the text that a document is written as. What that
/// text is, is only named.
#[verifier::external_body]
fn serde_write(v: &serde_json::Value) -> (r: String)
    ensures
        r@ == written_tree(held_tree(*v)),
{
    v.to_string()
}

/// The tree under the first entry with the key.
pub open spec fn tree_entry(entries: Seq<(Seq<char>, Tree)>, key: Seq<char>) -> Option<Tree>
    decreases entries.len(),
{
    if entries.len() == 0 {
        None
    } else if entries[0].0 == key {
        Some(entries[0].1)
    } else {
        tree_entry(entries.drop_first(), key)
    }
}

/// What the member of an object is written as.
pub open spec fn written_member(t: Tree, key: Seq<char>) -> Option<Seq<char>> {
    match t {
        Tree::Object(entries) => match tree_entry(entries, key) {
            Some(x) => Some(written_tree(x)),
            None => None,
        },
        _ => None,
    }
}

/// `serde_json::Value::get` and `Value::clone`: the member of an object with the key.
#[verifier::external_body]
fn serde_member(v: &serde_json::Value, key: &str) -> (r: Option<serde_json::Value>)
    ensures
        match r {
            Some(x) => held_tree(*v) matches Tree::Object(entries) && tree_entry(entries, key@) == Some(held_tree(x)),
            None => held_tree(*v) matches Tree::Object(entries) ==> tree_entry(entries, key@) is None,
        },
{
    v.get(key).cloned()
}

/// The text that the member of an object is written as.
pub fn member_text(v: &serde_json::Value, key: &str) -> (r: Option<String>)
    ensures
        text_view(r) == written_member(held_tree(*v), key@),
{
    match serde_member(v, key) {
        Some(x) => Some(serde_write(&x)),
        None => None,
    }
}

/// The number that a text is written for: a decimal, and the whole number of 64 bits
/// where it is one.
pub open spec fn written_number(s: Seq<char>) -> Document {
    match decimal_value(s) {
        Some(x) => Document::Number {
            value: x,
            whole: match whole_value(s, true) {
                Some(n) => if i64::MIN <= n <= i64::MAX {
                    Some(n as i64)
                } else {
                    None
                },
                None => None,
            },
        },
        None => Document::Null,
    }
}

/// The document that a tree stands for.
pub open spec fn tree_document(t: Tree) -> Document
    decreases t,
{
    match t {
        Tree::Null => Document::Null,
        Tree::Bool(b) => Document::Bool(b),
        Tree::Number(s) => written_number(s),
        Tree::Text(s) => Document::Text(s),
        Tree::Array(items) => Document::Array(
            Seq::new(
                items.len(),
                |i: int|
                    if 0 <= i < items.len() {
                        tree_document(items[i])
                    } else {
                        Document::Null
                    },
            ),
        ),
        Tree::Object(entries) => Document::Object(
            Seq::new(
                entries.len(),
                |i: int|
                    if 0 <= i < entries.len() {
                        (entries[i].0, tree_document(entries[i].1))
                    } else {
                        (seq![], Document::Null)
                    },
            ),
        ),
    }
}

/// The document that a text holds, where it is JSON.
pub open spec fn read_document(s: Seq<char>) -> Option<Document> {
    match parsed_tree(s) {
        Some(t) => Some(tree_document(t)),
        None => None,
    }
}

proof fn an_item_is_smaller(t: Tree, items: Seq<Tree>, k: int)
    requires
        t == Tree::Array(items),
        0 <= k < items.len(),
    ensures
        decreases_to!(t => items[k]),
{
    assert(decreases_to!(t => t->Array_0));
    assert(decreases_to!(items => items[k]));
}

proof fn a_member_is_smaller(t: Tree, entries: Seq<(Seq<char>, Tree)>, k: int)
    requires
        t == Tree::Object(entries),
        0 <= k < entries.len(),
    ensures
        decreases_to!(t => entries[k].1),
{
    assert(decreases_to!(t => t->Object_0));
    assert(decreases_to!(entries => entries[k]));
    assert(decreases_to!(entries[k] => entries[k].1));
}

/// The number that a text is written for.
pub fn number_from_text(s: &str) -> (r: Json)
    ensures
        r@ == written_number(s@),
{
    match parse_decimal(s) {
        Some(x) => Json::Number(JsonNumber::new(x, parse_whole(s))),
        None => Json::Null,
    }
}

impl Json {
    /// The document that `serde_json` holds.
    pub fn from_value(v: serde_json::Value) -> (r: Json)
        ensures
            r@ == tree_document(held_tree(v)),
        decreases held_tree(v),
    {
        let ghost t = held_tree(v);
        match serde_node(v) {
            Node::Null => Json::Null,
            Node::Bool(b) => Json::Bool(b),
            Node::Number(s) => number_from_text(s.as_str()),
            Node::Text(s) => Json::Text(s),
            Node::Array(items) => {
                let ghost trees = items@.map_values(|x: serde_json::Value| held_tree(x));
                let mut out: Vec<Json> = Vec::new();
                for x in it: items
                    invariant
                        t == held_tree(v),
                        t == Tree::Array(trees),
                        it.seq() == items@,
                        trees == items@.map_values(|x: serde_json::Value| held_tree(x)),
                        out@.len() == it.index(),
                        forall|i: int| 0 <= i < out@.len() ==> (#[trigger] out@[i])@ == tree_document(trees[i]),
                {
                    assert(held_tree(x) == trees[out@.len() as int]);
                    proof {
                        an_item_is_smaller(t, trees, out@.len() as int);
                    }
                    out.push(Json::from_value(x));
                }
                proof {
                    array_document(out);
                    assert(documents(out@) =~= tree_document(t)->Array_0);
                }
                Json::Array(out)
            },
            Node::Object(entries) => {
                let ghost trees = entries@.map_values(|e: (String, serde_json::Value)| (e.0@, held_tree(e.1)));
                let mut out: Vec<(String, Json)> = Vec::new();
                for e in it: entries
                    invariant
                        t == held_tree(v),
                        t == Tree::Object(trees),
                        it.seq() == entries@,
                        trees == entries@.map_values(|e: (String, serde_json::Value)| (e.0@, held_tree(e.1))),
                        out@.len() == it.index(),
                        forall|i: int|
                            0 <= i < out@.len() ==> (#[trigger] out@[i]).0@ == trees[i].0 && out@[i].1@ == tree_document(
                                trees[i].1,
                            ),
                {
                    let (key, x) = e;
                    assert((key@, held_tree(x)) == trees[out@.len() as int]);
                    proof {
                        a_member_is_smaller(t, trees, out@.len() as int);
                    }
                    out.push((key, Json::from_value(x)));
                }
                proof {
                    object_document(out);
                    assert(members(out@) =~= tree_document(t)->Object_0);
                }
                Json::Object(out)
            },
        }
    }

    /// The document that a text holds.
    pub fn parse(s: &str) -> (r: Option<Json>)
        ensures
            match r {
                Some(j) => read_document(s@) == Some(j@),
                None => read_document(s@) is None,
            },
    {
        match serde_parse(s) {
            Some(v) => Some(Json::from_value(v)),
            None => None,
        }
    }

    /// The document that a file holds: null where the file is absent or holds no JSON.
    pub fn parse_or_null(s: Option<&str>) -> (r: Json)
        ensures
            r@ == match s {
                Some(t) => match read_document(t@) {
                    Some(d) => d,
                    None => Document::Null,
                },
                None => Document::Null,
            },
    {
        match s {
            Some(t) => match Json::parse(t) {
                Some(j) => j,
                None => Json::Null,
            },
            None => Json::Null,
        }
    }
}

} // verus!
