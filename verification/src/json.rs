//! A JSON document as a tree of plain values, and how one is read from text.

use vstd::prelude::*;

verus! {

/// A JSON number: its value as an unsigned 64-bit integer where it is one,
/// and its canonical spelling.
#[derive(Clone, Debug, PartialEq, Eq)]
pub struct Numeral {
    pub unsigned: Option<u64>,
    pub literal: String,
}

/// The mathematical content of a [`Numeral`].
pub struct NumeralView {
    pub unsigned: Option<u64>,
    pub literal: Seq<char>,
}

impl View for Numeral {
    type V = NumeralView;

    open spec fn view(&self) -> NumeralView {
        NumeralView { unsigned: self.unsigned, literal: self.literal@ }
    }
}

impl DeepView for Numeral {
    type V = NumeralView;

    open spec fn deep_view(&self) -> NumeralView {
        self@
    }
}

/// A JSON document. In one that was read from text the members of an object
/// stand in the order of their keys, and no key stands twice.
#[derive(Debug)]
pub enum Json {
    Null,
    Bool(bool),
    Number(Numeral),
    Text(String),
    List(Vec<Json>),
    Object(Vec<(String, Json)>),
}

/// The mathematical content of a [`Json`].
pub enum JsonView {
    Null,
    Bool(bool),
    Number(NumeralView),
    Text(Seq<char>),
    List(Seq<JsonView>),
    Object(Seq<(Seq<char>, JsonView)>),
}

impl View for Json {
    type V = JsonView;

    open spec fn view(&self) -> JsonView
        decreases self,
    {
        match self {
            Json::Null => JsonView::Null,
            Json::Bool(flag) => JsonView::Bool(*flag),
            Json::Number(number) => JsonView::Number(number@),
            Json::Text(text) => JsonView::Text(text@),
            Json::List(items) => JsonView::List(items_view(items@)),
            Json::Object(members) => JsonView::Object(members_view(members@)),
        }
    }
}

/// The content of the items of a list.
pub open spec fn items_view(items: Seq<Json>) -> Seq<JsonView>
    decreases items,
{
    if items.len() == 0 {
        Seq::empty()
    } else {
        items_view(items.drop_last()).push(items.last()@)
    }
}

/// The content of the members of an object.
pub open spec fn members_view(members: Seq<(String, Json)>) -> Seq<(Seq<char>, JsonView)>
    decreases members,
{
    if members.len() == 0 {
        Seq::empty()
    } else {
        members_view(members.drop_last()).push((members.last().0@, members.last().1@))
    }
}

/// The content of a list holds the content of each item, in its place.
pub proof fn lemma_items_view(items: Seq<Json>)
    ensures
        items_view(items).len() == items.len(),
        forall|i: int| 0 <= i < items.len() ==> (#[trigger] items_view(items)[i]) == items[i]@,
    decreases items.len(),
{
    if items.len() > 0 {
        lemma_items_view(items.drop_last());
        assert(items_view(items) == items_view(items.drop_last()).push(items.last()@));
    } else {
        assert(items_view(items) == Seq::<JsonView>::empty());
    }
}

/// The content of an object holds the key and the content of each member,
/// in its place.
pub proof fn lemma_members_view(members: Seq<(String, Json)>)
    ensures
        members_view(members).len() == members.len(),
        forall|i: int|
            0 <= i < members.len() ==> (#[trigger] members_view(members)[i]) == (
                members[i].0@,
                members[i].1@,
            ),
    decreases members.len(),
{
    if members.len() > 0 {
        lemma_members_view(members.drop_last());
        assert(members_view(members) == members_view(members.drop_last()).push(
            (members.last().0@, members.last().1@),
        ));
    } else {
        assert(members_view(members) == Seq::<(Seq<char>, JsonView)>::empty());
    }
}

/// The first member of `members` at index `from` or later whose key is `key`.
pub open spec fn member_from(members: Seq<(Seq<char>, JsonView)>, key: Seq<char>, from: int) -> Option<
    JsonView,
>
    decreases members.len() - from,
{
    if from < 0 || from >= members.len() {
        None
    } else if members[from].0 == key {
        Some(members[from].1)
    } else {
        member_from(members, key, from + 1)
    }
}

/// The first member of `members` whose key is `key`.
pub open spec fn member(members: Seq<(Seq<char>, JsonView)>, key: Seq<char>) -> Option<JsonView> {
    member_from(members, key, 0)
}

/// The content of what a lookup found.
pub open spec fn found_view(found: Option<&Json>) -> Option<JsonView> {
    match found {
        Some(value) => Some(value@),
        None => None,
    }
}

/// The error that `serde_json` reports for a text that is not JSON.
#[verifier::external_type_specification]
#[verifier::external_body]
pub struct ExSyntaxError(serde_json::Error);

/// A parsed JSON value as `serde_json` holds it.
#[verifier::external_type_specification]
#[verifier::external_body]
pub struct ExValue(serde_json::Value);

/// The document that a text spells, if it is JSON.
pub uninterp spec fn document_of(text: Seq<char>) -> Option<JsonView>;

/// Turns a value of `serde_json` into a document, variant by variant: a
/// number into its `as_u64` reading and its `Display` spelling, an object
/// into its members in the order in which `serde_json` walks them.
#[verifier::external_body]
fn lift(value: serde_json::Value) -> Json {
    match value {
        serde_json::Value::Null => Json::Null,
        serde_json::Value::Bool(flag) => Json::Bool(flag),
        serde_json::Value::Number(number) => Json::Number(
            Numeral { unsigned: number.as_u64(), literal: number.to_string() },
        ),
        serde_json::Value::String(text) => Json::Text(text),
        serde_json::Value::Array(items) => Json::List(items.into_iter().map(lift).collect()),
        serde_json::Value::Object(members) => Json::Object(
            members.into_iter().map(|(key, value)| (key, lift(value))).collect(),
        ),
    }
}

/// `serde_json::from_str`, read as a `serde_json::Value`: whether a text is
/// JSON, and the document it then spells, depend on the text alone.
#[verifier::external_body]
pub(crate) fn read_document(text: &str) -> (parsed: Result<Json, serde_json::Error>)
    ensures
        parsed matches Ok(document) ==> document_of(text@) == Some(document@),
        parsed is Err ==> document_of(text@) is None,
{
    serde_json::from_str::<serde_json::Value>(text).map(lift)
}

/// Looks up the first member of an object whose key is `key`.
pub fn find_member<'a>(members: &'a Vec<(String, Json)>, key: &str) -> (found: Option<&'a Json>)
    ensures
        found_view(found) == member(members_view(members@), key@),
{
    let ghost all = members_view(members@);
    proof {
        lemma_members_view(members@);
    }
    let wanted = key.to_owned();
    let mut index: usize = 0;
    while index < members.len()
        invariant
            index <= members.len(),
            wanted@ == key@,
            all == members_view(members@),
            all.len() == members.len(),
            forall|i: int|
                0 <= i < members.len() ==> (#[trigger] all[i]) == (members[i].0@, members[i].1@),
            member(all, key@) == member_from(all, key@, index as int),
        decreases members.len() - index,
    {
        if members[index].0 == wanted {
            return Some(&members[index].1);
        }
        index += 1;
    }
    None
}

} // verus!
