//! JSON documents as trees of plain values.

use vstd::prelude::*;

verus! {

/// A JSON value.
#[derive(Debug)]
pub enum Json {
    Null,
    Bool(bool),
    /// A number: its value where it is a whole number from 0 to 2^64 - 1,
    /// nothing where it is negative or has a fraction.
    Number(Option<u64>),
    Text(String),
    Array(Vec<Json>),
    /// The members of an object, by name.
    Object(Vec<(String, Json)>),
}

/// What a [`Json`] holds.
pub enum JsonView {
    Null,
    Bool(bool),
    Number(Option<u64>),
    Text(Seq<char>),
    Array(Seq<JsonView>),
    Object(Seq<(Seq<char>, JsonView)>),
}

impl Json {
    /// The tree of plain values that this value stands for.
    pub open spec fn tree(&self) -> JsonView
        decreases self,
    {
        match self {
            Json::Null => JsonView::Null,
            Json::Bool(b) => JsonView::Bool(*b),
            Json::Number(n) => JsonView::Number(*n),
            Json::Text(t) => JsonView::Text(t@),
            Json::Array(items) => JsonView::Array(
                Seq::new(
                    items@.len(),
                    |i: int|
                        if 0 <= i < items@.len() {
                            items@[i].tree()
                        } else {
                            JsonView::Null
                        },
                ),
            ),
            Json::Object(members) => JsonView::Object(
                Seq::new(
                    members@.len(),
                    |i: int|
                        if 0 <= i < members@.len() {
                            (members@[i].0@, members@[i].1.tree())
                        } else {
                            (Seq::<char>::empty(), JsonView::Null)
                        },
                ),
            ),
        }
    }
}

impl View for Json {
    type V = JsonView;

    open spec fn view(&self) -> JsonView {
        self.tree()
    }
}

/// The members of an object, each by its view.
pub open spec fn members_view(members: Seq<(String, Json)>) -> Seq<(Seq<char>, JsonView)> {
    Seq::new(members.len(), |i: int| (members[i].0@, members[i].1@))
}

/// The items of an array, each by its view.
pub open spec fn items_view(items: Seq<Json>) -> Seq<JsonView> {
    Seq::new(items.len(), |i: int| items[i]@)
}

/// The view of an object is made of the views of its members.
pub proof fn lemma_object_view(members: Vec<(String, Json)>)
    ensures
        Json::Object(members)@ == JsonView::Object(members_view(members@)),
{
    reveal_with_fuel(Json::tree, 2);
    let whole = Json::Object(members);
    assert(whole@ is Object);
    assert(whole@->Object_0.len() == members@.len());
    assert forall|i: int| 0 <= i < members@.len() implies whole@->Object_0[i] == members_view(
        members@,
    )[i] by {}
    assert(whole@->Object_0 =~= members_view(members@));
}

/// The view of an array is made of the views of its items.
pub proof fn lemma_array_view(items: Vec<Json>)
    ensures
        Json::Array(items)@ == JsonView::Array(items_view(items@)),
{
    reveal_with_fuel(Json::tree, 2);
    let whole = Json::Array(items);
    assert(whole@ is Array);
    assert(whole@->Array_0.len() == items@.len());
    assert forall|i: int| 0 <= i < items@.len() implies whole@->Array_0[i] == items_view(
        items@,
    )[i] by {}
    assert(whole@->Array_0 =~= items_view(items@));
}

/// The value of the first member called `key`, if there is one.
pub open spec fn member(members: Seq<(Seq<char>, JsonView)>, key: Seq<char>) -> Option<JsonView>
    decreases members.len(),
{
    if members.len() == 0 {
        None
    } else if members[0].0 == key {
        Some(members[0].1)
    } else {
        member(members.skip(1), key)
    }
}

/// Finds the first member called `key`.
pub fn find_member<'a>(members: &'a Vec<(String, Json)>, key: &str) -> (found: Option<&'a Json>)
    ensures
        match member(members_view(members@), key@) {
            Some(value) => found is Some && found->Some_0@ == value,
            None => found is None,
        },
{
    let ghost all = members_view(members@);
    let mut i: usize = 0;
    assert(all.subrange(0, all.len() as int) =~= all);
    while i < members.len()
        invariant
            i <= members@.len(),
            all == members_view(members@),
            member(all, key@) == member(all.subrange(i as int, all.len() as int), key@),
        decreases members@.len() - i,
    {
        if crate::text::same_text(members[i].0.as_str(), key) {
            return Some(&members[i].1);
        }
        assert(all.subrange(i as int, all.len() as int).skip(1) =~= all.subrange(
            i + 1,
            all.len() as int,
        ));
        i = i + 1;
    }
    None
}

/// The JSON value that `serde_json` holds a document in.
#[verifier::external_type_specification]
#[verifier::external_body]
pub struct ExValue(serde_json::Value);

/// The document that a text spells, if it is well-formed JSON.
pub uninterp spec fn json_document(text: Seq<char>) -> Option<JsonView>;

/// What a value of `serde_json` holds.
pub uninterp spec fn value_tree(value: serde_json::Value) -> JsonView;

/// Reads a JSON document with `serde_json::from_str`; an error is handed
/// on as its message.
///
/// Claimed of it: whether it succeeds, and the value it returns, depend on
/// the text alone.
#[verifier::external_body]
pub(crate) fn parse_value(text: &str) -> (r: Result<serde_json::Value, String>)
    ensures
        r is Ok <==> json_document(text@) is Some,
        r is Ok ==> value_tree(r->Ok_0) == json_document(text@)->Some_0,
{
    match serde_json::from_str::<serde_json::Value>(text) {
        Ok(value) => Ok(value),
        Err(error) => Err(error.to_string()),
    }
}

/// Copies a value of `serde_json` into a tree of plain values, variant by
/// variant. A number is kept by `Number::as_u64`, which gives its value where
/// it is a whole number that is not negative.
///
/// Claimed of it: the tree holds what the value holds.
#[verifier::external_body]
pub(crate) fn tree_of(value: &serde_json::Value) -> (tree: Json)
    ensures
        tree@ == value_tree(*value),
{
    match value {
        serde_json::Value::Null => Json::Null,
        serde_json::Value::Bool(b) => Json::Bool(*b),
        serde_json::Value::Number(n) => Json::Number(n.as_u64()),
        serde_json::Value::String(s) => Json::Text(s.clone()),
        serde_json::Value::Array(a) => Json::Array(a.iter().map(tree_of).collect()),
        serde_json::Value::Object(o) => Json::Object(
            o.iter().map(|(k, v)| (k.clone(), tree_of(v))).collect(),
        ),
    }
}

} // verus!
