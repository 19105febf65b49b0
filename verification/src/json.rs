//! JSON values, as `serde_json` holds them.
//!
//! A [`serde_json::Value`] is opaque here; [`json_model`] names what one holds. The
//! functions below make values, read them, and turn them into text and back.
use crate::text::opt_view;
use crate::text::owned;
use vstd::prelude::*;

verus! {

/// What a JSON value holds. A number is the text that it prints as.
pub enum JsonModel {
    Null,
    Bool(bool),
    Number(Seq<char>),
    Text(Seq<char>),
    Array(Seq<JsonModel>),
    Object(Map<Seq<char>, JsonModel>),
}

/// `serde_json::Value`, an opaque value.
#[verifier::external_type_specification]
#[verifier::external_body]
pub struct ExJsonValue(serde_json::Value);

/// What a `serde_json::Value` holds.
pub uninterp spec fn json_model(value: serde_json::Value) -> JsonModel;

/// What a sequence of values holds.
pub open spec fn json_models(values: Seq<serde_json::Value>) -> Seq<JsonModel> {
    Seq::new(values.len(), |i: int| json_model(values[i]))
}

/// Pushing a value pushes what it holds.
pub proof fn json_models_push(values: Seq<serde_json::Value>, value: serde_json::Value)
    ensures
        json_models(values.push(value)) == json_models(values).push(json_model(value)),
{
    assert(json_models(values.push(value)) =~= json_models(values).push(json_model(value)));
}

/// The object of the given members; of two with one name the later counts.
pub open spec fn json_members(members: Seq<(String, serde_json::Value)>) -> Map<
    Seq<char>,
    JsonModel,
>
    decreases members.len(),
{
    if members.len() == 0 {
        Map::empty()
    } else {
        json_members(members.drop_last()).insert(
            members.last().0@,
            json_model(members.last().1),
        )
    }
}

/// The text that a JSON value is written as, in the compact form.
pub uninterp spec fn json_text(model: JsonModel) -> Seq<char>;

/// What a text holds as JSON, if it is a JSON document.
pub uninterp spec fn json_parse(text: Seq<char>) -> Option<JsonModel>;

/// The variant `serde_json::Value::String` holds the given text.
#[verifier::external_body]
pub(crate) fn json_string(text: String) -> (r: serde_json::Value)
    ensures
        json_model(r) == JsonModel::Text(text@),
{
    serde_json::Value::String(text)
}

/// The variant `serde_json::Value::Bool` holds the given truth value.
#[verifier::external_body]
pub(crate) fn json_bool(value: bool) -> (r: serde_json::Value)
    ensures
        json_model(r) == JsonModel::Bool(value),
{
    serde_json::Value::Bool(value)
}

/// `serde_json::Value::from` of an unsigned number gives a number that prints in decimal.
#[verifier::external_body]
pub(crate) fn json_number(value: u64) -> (r: serde_json::Value)
    ensures
        json_model(r) == JsonModel::Number(crate::text::decimal_of(value as nat)),
{
    serde_json::Value::from(value)
}

/// The variant `serde_json::Value::Array` holds the given values in order.
#[verifier::external_body]
pub(crate) fn json_array(values: Vec<serde_json::Value>) -> (r: serde_json::Value)
    ensures
        json_model(r) == JsonModel::Array(json_models(values@)),
{
    serde_json::Value::Array(values)
}

/// `serde_json::Map` collected from members, as the variant `serde_json::Value::Object`:
/// it holds each name's last value.
#[verifier::external_body]
pub(crate) fn json_object(members: Vec<(String, serde_json::Value)>) -> (r: serde_json::Value)
    ensures
        json_model(r) == JsonModel::Object(json_members(members@)),
{
    serde_json::Value::Object(members.into_iter().collect())
}

/// The clone of a `serde_json::Value` holds the same.
#[verifier::external_body]
pub(crate) fn json_copy(value: &serde_json::Value) -> (r: serde_json::Value)
    ensures
        json_model(r) == json_model(*value),
{
    value.clone()
}

/// `serde_json::Value::to_string` writes the value in the compact form.
#[verifier::external_body]
pub(crate) fn json_to_text(value: &serde_json::Value) -> (r: String)
    ensures
        r@ == json_text(json_model(*value)),
{
    value.to_string()
}

/// `serde_json::from_str` reads a JSON document, or fails on a text that is none.
#[verifier::external_body]
pub(crate) fn json_from_text(text: &str) -> (r: Option<serde_json::Value>)
    ensures
        match r {
            Some(value) => json_parse(text@) == Some(json_model(value)),
            None => json_parse(text@) is None,
        },
{
    serde_json::from_str::<serde_json::Value>(text).ok()
}

/// The member `name` of an object.
pub open spec fn member_of(model: JsonModel, name: Seq<char>) -> Option<JsonModel> {
    match model {
        JsonModel::Object(members) => if members.dom().contains(name) {
            Some(members[name])
        } else {
            None
        },
        _ => None,
    }
}

/// `serde_json::Value::get` with a name gives the member of an object.
#[verifier::external_body]
pub(crate) fn json_get<'a>(value: &'a serde_json::Value, name: &str) -> (r: Option<
    &'a serde_json::Value,
>)
    ensures
        match r {
            Some(member) => member_of(json_model(*value), name@) == Some(json_model(*member)),
            None => member_of(json_model(*value), name@) is None,
        },
{
    value.get(name)
}

/// `serde_json::Value::as_str` gives the text of a string and nothing of any other value.
#[verifier::external_body]
pub(crate) fn json_as_str(value: &serde_json::Value) -> (r: Option<&str>)
    ensures
        match r {
            Some(text) => json_model(*value) == JsonModel::Text(text@),
            None => !(json_model(*value) is Text),
        },
{
    value.as_str()
}

/// Adds a member to those of an object.
pub fn add_member(members: &mut Vec<(String, serde_json::Value)>, name: &str, value: serde_json::Value)
    ensures
        json_members(final(members)@) == json_members(old(members)@).insert(
            name@,
            json_model(value),
        ),
{
    let ghost before = members@;
    members.push((owned(name), value));
    assert(members@.drop_last() =~= before);
}

/// The text of the member `name`, where there is such a member and it is a string.
pub open spec fn text_member(document: Option<JsonModel>, name: Seq<char>) -> Option<Seq<char>> {
    match document {
        Some(model) => match member_of(model, name) {
            Some(JsonModel::Text(text)) => Some(text),
            _ => None,
        },
        None => None,
    }
}

/// The text of the member `name` of a JSON document, where there is one.
pub fn text_field(document: &str, name: &str) -> (r: Option<String>)
    ensures
        opt_view(r) == text_member(json_parse(document@), name@),
{
    match json_from_text(document) {
        Some(value) => match json_get(&value, name) {
            Some(member) => match json_as_str(member) {
                Some(text) => Some(text.to_owned()),
                None => None,
            },
            None => None,
        },
        None => None,
    }
}

/// The compact form of a JSON document, or the text itself where it is none.
pub open spec fn canonical_of(text: Seq<char>) -> Seq<char> {
    match json_parse(text) {
        Some(model) => json_text(model),
        None => text,
    }
}

/// The compact form of a JSON document, or the text itself where it is none.
pub fn canonical(text: &str) -> (r: String)
    ensures
        r@ == canonical_of(text@),
{
    match json_from_text(text) {
        Some(value) => json_to_text(&value),
        None => text.to_owned(),
    }
}

/// Whether a text is a JSON document.
pub fn is_json(text: &str) -> (r: bool)
    ensures
        r == (json_parse(text@) is Some),
{
    json_from_text(text).is_some()
}

} // verus!
