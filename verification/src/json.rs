//! A tree of JSON values: what machine-readable reports are built from.

use vstd::prelude::*;
use crate::text;

verus! {

/// A JSON value. An object keeps its fields in the order in which they were
/// set.
#[derive(Debug, PartialEq, Eq)]
pub enum Json {
    Null,
    Bool(bool),
    Number(u64),
    /// A number that is negative or has a fraction, as its literal.
    Literal(String),
    /// The quotient of two numbers.
    Quotient(u64, u64),
    Text(String),
    List(Vec<Json>),
    Object(Vec<(String, Json)>),
}

/// The model of a [`Json`] value.
pub enum JsonView {
    Null,
    Bool(bool),
    Number(int),
    Literal(Seq<char>),
    Quotient(int, int),
    Text(Seq<char>),
    List(Seq<JsonView>),
    Object(Seq<(Seq<char>, JsonView)>),
}

/// The model of a value.
pub open spec fn tree(j: Json) -> JsonView
    decreases j,
{
    match j {
        Json::Null => JsonView::Null,
        Json::Bool(b) => JsonView::Bool(b),
        Json::Number(n) => JsonView::Number(n as int),
        Json::Literal(s) => JsonView::Literal(s@),
        Json::Quotient(n, d) => JsonView::Quotient(n as int, d as int),
        Json::Text(s) => JsonView::Text(s@),
        Json::List(l) => JsonView::List(
            Seq::new(
                l@.len(),
                |i: int|
                    if 0 <= i < l@.len() {
                        tree(l@[i])
                    } else {
                        JsonView::Null
                    },
            ),
        ),
        Json::Object(l) => JsonView::Object(
            Seq::new(
                l@.len(),
                |i: int|
                    if 0 <= i < l@.len() {
                        (l@[i].0@, tree(l@[i].1))
                    } else {
                        (Seq::empty(), JsonView::Null)
                    },
            ),
        ),
    }
}

impl View for Json {
    type V = JsonView;

    open spec fn view(&self) -> JsonView {
        tree(*self)
    }
}

/// The models of a list of values.
pub open spec fn trees(list: Seq<Json>) -> Seq<JsonView> {
    list.map_values(|j: Json| j@)
}

/// The models of the fields of an object.
pub open spec fn pairs(fields: Seq<(String, Json)>) -> Seq<(Seq<char>, JsonView)> {
    fields.map_values(|f: (String, Json)| (f.0@, f.1@))
}

/// The texts of `list` as values.
pub open spec fn text_values(list: Seq<Seq<char>>) -> Seq<JsonView> {
    list.map_values(|s: Seq<char>| JsonView::Text(s))
}

/// The fields other than `key`, in their order.
pub open spec fn without(fields: Seq<(Seq<char>, JsonView)>, key: Seq<char>) -> Seq<
    (Seq<char>, JsonView),
>
    decreases fields.len(),
{
    if fields.len() == 0 {
        Seq::empty()
    } else {
        let rest = without(fields.drop_last(), key);
        if fields.last().0 == key {
            rest
        } else {
            rest.push(fields.last())
        }
    }
}

/// The fields with `key` set to `value`, whether or not it was set before.
pub open spec fn with_field(
    fields: Seq<(Seq<char>, JsonView)>,
    key: Seq<char>,
    value: JsonView,
) -> Seq<(Seq<char>, JsonView)> {
    without(fields, key).push((key, value))
}

/// What an object holds under `key`.
pub open spec fn field(fields: Seq<(Seq<char>, JsonView)>, key: Seq<char>) -> Option<JsonView>
    decreases fields.len(),
{
    if fields.len() == 0 {
        None
    } else if fields.last().0 == key {
        Some(fields.last().1)
    } else {
        field(fields.drop_last(), key)
    }
}

proof fn lemma_object(fields: Vec<(String, Json)>)
    ensures
        Json::Object(fields)@ == JsonView::Object(pairs(fields@)),
{
    if let JsonView::Object(seen) = Json::Object(fields)@ {
        assert(seen =~= pairs(fields@));
    }
}

proof fn lemma_list(list: Vec<Json>)
    ensures
        Json::List(list)@ == JsonView::List(trees(list@)),
{
    if let JsonView::List(seen) = Json::List(list)@ {
        assert(seen =~= trees(list@));
    }
}

/// An object of the given fields.
pub fn object(fields: Vec<(String, Json)>) -> (r: Json)
    ensures
        r@ == JsonView::Object(pairs(fields@)),
{
    proof {
        lemma_object(fields);
    }
    Json::Object(fields)
}

/// A list of the given values.
pub fn list(values: Vec<Json>) -> (r: Json)
    ensures
        r@ == JsonView::List(trees(values@)),
{
    proof {
        lemma_list(values);
    }
    Json::List(values)
}

/// A text.
pub fn string(s: &str) -> (r: Json)
    ensures
        r@ == JsonView::Text(s@),
{
    Json::Text(s.to_owned())
}

/// A list of texts.
pub fn strings(list_of: &[String]) -> (r: Json)
    ensures
        r@ == JsonView::List(text_values(text::views(list_of@))),
{
    let mut values: Vec<Json> = Vec::new();
    let mut i: usize = 0;
    while i < list_of.len()
        invariant
            i <= list_of.len(),
            trees(values@) =~= text_values(text::views(list_of@)).take(i as int),
        decreases list_of.len() - i,
    {
        let value = string(list_of[i].as_str());
        let ghost before = values@;
        values.push(value);
        assert(trees(values@) =~= trees(before).push(value@));
        i = i + 1;
    }
    assert(text_values(text::views(list_of@)).take(i as int) =~= text_values(
        text::views(list_of@),
    ));
    list(values)
}

/// Sets a field that is not set yet.
pub fn put(fields: &mut Vec<(String, Json)>, key: &str, value: Json)
    ensures
        pairs(final(fields)@) == pairs(old(fields)@).push((key@, value@)),
{
    let ghost start = fields@;
    fields.push((key.to_owned(), value));
    assert(pairs(fields@) =~= pairs(start).push((key@, value@)));
}

/// Sets a field, whether or not it was set before; the others stay as they
/// are.
pub fn set(fields: Vec<(String, Json)>, key: &str, value: Json) -> (r: Vec<(String, Json)>)
    ensures
        pairs(r@) == with_field(pairs(fields@), key@, value@),
{
    let mut fields = fields;
    let ghost all = pairs(fields@);
    let mut later: Vec<(String, Json)> = Vec::new();
    assert(all.take(all.len() as int) =~= all);
    // The fields are taken off the end, so they come back in reverse.
    while fields.len() > 0
        invariant
            pairs(fields@) =~= all.take(fields@.len() as int),
            fields@.len() <= all.len(),
            without(all, key@) =~= without(pairs(fields@), key@) + pairs(later@).reverse(),
        decreases fields.len(),
    {
        let ghost held = pairs(fields@);
        let ghost kept = pairs(later@);
        let ghost n = fields@.len();
        match fields.pop() {
            Some(f) => {
                assert(pairs(fields@) =~= held.drop_last());
                assert(held.last() == (f.0@, f.1@));
                assert(all.take(n as int).drop_last() =~= all.take(n - 1));
                if !text::same(f.0.as_str(), key) {
                    later.push(f);
                    assert(pairs(later@) =~= kept.push((f.0@, f.1@)));
                    assert(kept.push((f.0@, f.1@)).reverse() =~= seq![(f.0@, f.1@)]
                        + kept.reverse());
                    assert(without(held, key@) =~= without(held.drop_last(), key@).push(
                        held.last(),
                    ));
                }
            },
            None => {},
        }
    }
    assert(pairs(fields@) =~= Seq::empty());
    let mut r: Vec<(String, Json)> = Vec::new();
    while later.len() > 0
        invariant
            without(all, key@) =~= pairs(r@) + pairs(later@).reverse(),
        decreases later.len(),
    {
        let ghost kept = pairs(later@);
        let ghost done = pairs(r@);
        match later.pop() {
            Some(f) => {
                assert(pairs(later@) =~= kept.drop_last());
                assert(kept.last() == (f.0@, f.1@));
                assert(kept.reverse() =~= seq![kept.last()] + kept.drop_last().reverse());
                r.push(f);
                assert(pairs(r@) =~= done.push((f.0@, f.1@)));
            },
            None => {},
        }
    }
    assert(pairs(later@).reverse() =~= Seq::empty());
    put(&mut r, key, value);
    r
}

/// Setting a field makes it what was set, and leaves every other field what it
/// was.
pub proof fn setting_a_field_keeps_the_others(
    fields: Seq<(Seq<char>, JsonView)>,
    key: Seq<char>,
    value: JsonView,
    other: Seq<char>,
)
    ensures
        field(with_field(fields, key, value), key) == Some(value),
        other != key ==> field(with_field(fields, key, value), other) == field(fields, other),
{
    let rest = without(fields, key);
    assert(rest.push((key, value)).drop_last() =~= rest);
    if other != key {
        lemma_without_keeps(fields, key, other);
    }
}

proof fn lemma_without_keeps(
    fields: Seq<(Seq<char>, JsonView)>,
    key: Seq<char>,
    other: Seq<char>,
)
    requires
        other != key,
    ensures
        field(without(fields, key), other) == field(fields, other),
    decreases fields.len(),
{
    if fields.len() > 0 {
        lemma_without_keeps(fields.drop_last(), key, other);
        let rest = without(fields.drop_last(), key);
        assert(rest.push(fields.last()).drop_last() =~= rest);
    }
}

} // verus!
