use vstd::prelude::*;

verus! {

/// `serde_json::Value`, a JSON value. Nothing is known of what is inside one but
/// what the functions below say.
#[verifier::external_type_specification]
#[verifier::external_body]
pub struct ExJsonValue(serde_json::Value);

/// What a JSON document is at its top: a scalar with its content, a list of
/// documents, or a list of named documents.
pub enum JsonNode {
    Null,
    Bool(bool),
    /// A number, as the bit pattern of the IEEE 754 double that it converts to.
    Number(u64),
    Text(Seq<char>),
    Array(Seq<JsonDoc>),
    /// The members of an object, in the order in which the object is walked.
    Object(Seq<(Seq<char>, JsonDoc)>),
}

/// The mathematical model of a JSON value: its structure, and at every level the
/// compact text that the value is written as.
pub struct JsonDoc {
    pub node: JsonNode,
    pub text: Seq<char>,
}

/// The document that a `serde_json::Value` holds.
pub uninterp spec fn json_doc(value: serde_json::Value) -> JsonDoc;

/// The first of `members` that goes by the name `key`.
pub open spec fn find_member(members: Seq<(Seq<char>, JsonDoc)>, key: Seq<char>) -> Option<
    JsonDoc,
>
    decreases members.len(),
{
    if members.len() == 0 {
        None
    } else if members[0].0 == key {
        Some(members[0].1)
    } else {
        find_member(members.drop_first(), key)
    }
}

impl JsonDoc {
    /// The member `key` of an object; nothing for a missing member and for a
    /// document that is no object.
    pub open spec fn field(self, key: Seq<char>) -> Option<JsonDoc> {
        match self.node {
            JsonNode::Object(members) => find_member(members, key),
            _ => None,
        }
    }

    /// The element `index` of an array; nothing for an index out of range and for
    /// a document that is no array.
    pub open spec fn item(self, index: int) -> Option<JsonDoc> {
        match self.node {
            JsonNode::Array(items) => if 0 <= index < items.len() {
                Some(items[index])
            } else {
                None
            },
            _ => None,
        }
    }

    /// The content of a string.
    pub open spec fn as_text(self) -> Option<Seq<char>> {
        match self.node {
            JsonNode::Text(s) => Some(s),
            _ => None,
        }
    }

    /// The content of a boolean.
    pub open spec fn as_boolean(self) -> Option<bool> {
        match self.node {
            JsonNode::Bool(b) => Some(b),
            _ => None,
        }
    }

    /// The bits of a number.
    pub open spec fn as_number(self) -> Option<u64> {
        match self.node {
            JsonNode::Number(bits) => Some(bits),
            _ => None,
        }
    }

    /// The members of an object.
    pub open spec fn members(self) -> Option<Seq<(Seq<char>, JsonDoc)>> {
        match self.node {
            JsonNode::Object(members) => Some(members),
            _ => None,
        }
    }

    /// The elements of an array.
    pub open spec fn items(self) -> Option<Seq<JsonDoc>> {
        match self.node {
            JsonNode::Array(items) => Some(items),
            _ => None,
        }
    }
}

/// Calls `serde_json::Value::get` with a string index. Claims that it hands out
/// the member of that name where the value is an object that has one, and nothing
/// in every other case.
#[verifier::external_body]
pub(crate) fn get_field<'a>(value: &'a serde_json::Value, key: &str) -> (r: Option<
    &'a serde_json::Value,
>)
    ensures
        match r {
            Some(member) => json_doc(*value).field(key@) == Some(json_doc(*member)),
            None => json_doc(*value).field(key@) is None,
        },
{
    value.get(key)
}

/// Calls `serde_json::Value::get` with a `usize` index. Claims that it hands out
/// the element at that index where the value is an array that is long enough, and
/// nothing in every other case.
#[verifier::external_body]
pub(crate) fn get_item<'a>(value: &'a serde_json::Value, index: usize) -> (r: Option<
    &'a serde_json::Value,
>)
    ensures
        match r {
            Some(item) => json_doc(*value).item(index as int) == Some(json_doc(*item)),
            None => json_doc(*value).item(index as int) is None,
        },
{
    value.get(index)
}

/// Calls `serde_json::Value::as_str`. Claims that it hands out the content of a
/// string, and nothing for any other value.
#[verifier::external_body]
pub(crate) fn get_text<'a>(value: &'a serde_json::Value) -> (r: Option<&'a str>)
    ensures
        match r {
            Some(s) => json_doc(*value).as_text() == Some(s@),
            None => json_doc(*value).as_text() is None,
        },
{
    value.as_str()
}

/// Calls `serde_json::Value::as_bool`. Claims that it hands out the content of a
/// boolean, and nothing for any other value.
#[verifier::external_body]
pub(crate) fn get_boolean(value: &serde_json::Value) -> (r: Option<bool>)
    ensures
        r == json_doc(*value).as_boolean(),
{
    value.as_bool()
}

/// Calls `serde_json::Value::as_f64` and hands the double out as its bits. Claims
/// that a number gives its bits and any other value nothing.
#[verifier::external_body]
pub(crate) fn get_number(value: &serde_json::Value) -> (r: Option<u64>)
    ensures
        r == json_doc(*value).as_number(),
{
    value.as_f64().map(|x| x.to_bits())
}

/// The documents that a list of values holds.
pub open spec fn items_model(list: Seq<serde_json::Value>) -> Seq<JsonDoc> {
    list.map_values(|v: serde_json::Value| json_doc(v))
}

/// The names and documents that a list of borrowed members holds.
pub open spec fn members_model(list: Seq<(&String, &serde_json::Value)>) -> Seq<
    (Seq<char>, JsonDoc),
> {
    list.map_values(|m: (&String, &serde_json::Value)| (m.0@, json_doc(*m.1)))
}

/// Whether no two of `members` go by the same name.
pub open spec fn names_are_distinct(members: Seq<(Seq<char>, JsonDoc)>) -> bool {
    forall|i: int, j: int|
        0 <= i < j < members.len() ==> (#[trigger] members[i]).0 != (#[trigger] members[j]).0
}

/// Calls `serde_json::Value::as_array`. Claims that an array gives its elements in
/// order, and any other value nothing.
#[verifier::external_body]
pub(crate) fn get_items<'a>(value: &'a serde_json::Value) -> (r: Option<
    &'a Vec<serde_json::Value>,
>)
    ensures
        match r {
            Some(list) => json_doc(*value).items() == Some(items_model(list@)),
            None => json_doc(*value).items() is None,
        },
{
    value.as_array()
}

/// Calls `serde_json::Value::as_object` and `serde_json::Map::iter`. Claims that an
/// object gives its members in the order of the walk, no two of them under the
/// same name, and any other value nothing.
#[verifier::external_body]
pub(crate) fn get_members<'a>(value: &'a serde_json::Value) -> (r: Option<
    Vec<(&'a String, &'a serde_json::Value)>,
>)
    ensures
        match r {
            Some(list) => json_doc(*value).members() == Some(members_model(list@))
                && names_are_distinct(members_model(list@)),
            None => json_doc(*value).members() is None,
        },
{
    value.as_object().map(|object| object.iter().collect())
}

/// Calls `Clone::clone` of `serde_json::Value`. Claims that the copy holds the same
/// document.
#[verifier::external_body]
pub(crate) fn copy_value(value: &serde_json::Value) -> (r: serde_json::Value)
    ensures
        json_doc(r) == json_doc(*value),
{
    value.clone()
}

/// Calls `to_string` of `serde_json::Value`, which writes the value in compact
/// form. Claims that this is the text of the document.
#[verifier::external_body]
pub(crate) fn to_text(value: &serde_json::Value) -> (r: String)
    ensures
        r@ == json_doc(*value).text,
{
    value.to_string()
}

} // verus!
