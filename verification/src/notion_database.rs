use crate::error::{ErrorModel, NotionError};
use crate::json_value::{get_field, get_members, get_text, json_doc, members_model, JsonDoc};
use crate::name_map::{
    lemma_lookup_after_upsert, lemma_position, lemma_upsert_keeps_names_apart, lookup, names_of,
    upsert, NameMap,
};
use vstd::prelude::*;

verus! {

/// The kinds of property that a database can declare.
#[derive(Debug, Clone, Copy, PartialEq, Eq, Structural)]
pub enum NotionPropertyType {
    RichText,
    Number,
    Select,
    MultiSelect,
    Date,
    Formula,
    Relation,
    Rollup,
    Title,
    People,
    Files,
    Checkbox,
    Url,
    Email,
    PhoneNumber,
    CreatedTime,
    CreatedBy,
    LastEditedTime,
    LastEditedBy,
    /// Any kind whose tag is none of the known ones.
    Other,
}

/// One declared property: its name, its kind, and the tag that the kind was read
/// from.
#[derive(Debug)]
pub struct NotionProperty {
    pub name: String,
    pub property_type: NotionPropertyType,
    pub property_raw_type: String,
}

/// A `NotionProperty` as a mathematical value.
pub struct PropertyModel {
    pub name: Seq<char>,
    pub property_type: NotionPropertyType,
    pub property_raw_type: Seq<char>,
}

impl View for NotionProperty {
    type V = PropertyModel;

    open spec fn view(&self) -> PropertyModel {
        PropertyModel {
            name: self.name@,
            property_type: self.property_type,
            property_raw_type: self.property_raw_type@,
        }
    }
}

/// The properties of a database, each under its name.
#[derive(Debug)]
pub struct NotionDatabaseSchema {
    pub properties: NameMap<NotionProperty>,
}

/// The entries of a schema as mathematical values: each a name and what stands
/// under it, in the order of the schema.
pub type SchemaModel = Seq<(Seq<char>, PropertyModel)>;

impl View for NotionDatabaseSchema {
    type V = SchemaModel;

    open spec fn view(&self) -> SchemaModel {
        self.properties.entries().map_values(|e: (Seq<char>, NotionProperty)| (e.0, e.1@))
    }
}

/// The kind that a tag stands for.
pub open spec fn property_type_of(tag: Seq<char>) -> NotionPropertyType {
    if tag == "rich_text"@ {
        NotionPropertyType::RichText
    } else if tag == "number"@ {
        NotionPropertyType::Number
    } else if tag == "select"@ {
        NotionPropertyType::Select
    } else if tag == "multi_select"@ {
        NotionPropertyType::MultiSelect
    } else if tag == "date"@ {
        NotionPropertyType::Date
    } else if tag == "formula"@ {
        NotionPropertyType::Formula
    } else if tag == "relation"@ {
        NotionPropertyType::Relation
    } else if tag == "rollup"@ {
        NotionPropertyType::Rollup
    } else if tag == "title"@ {
        NotionPropertyType::Title
    } else if tag == "people"@ {
        NotionPropertyType::People
    } else if tag == "files"@ {
        NotionPropertyType::Files
    } else if tag == "checkbox"@ {
        NotionPropertyType::Checkbox
    } else if tag == "url"@ {
        NotionPropertyType::Url
    } else if tag == "email"@ {
        NotionPropertyType::Email
    } else if tag == "phone_number"@ {
        NotionPropertyType::PhoneNumber
    } else if tag == "created_time"@ {
        NotionPropertyType::CreatedTime
    } else if tag == "created_by"@ {
        NotionPropertyType::CreatedBy
    } else if tag == "last_edited_time"@ {
        NotionPropertyType::LastEditedTime
    } else if tag == "last_edited_by"@ {
        NotionPropertyType::LastEditedBy
    } else {
        NotionPropertyType::Other
    }
}

/// The string under `key` in `doc`, if `doc` is an object that has one.
pub open spec fn text_field(doc: JsonDoc, key: Seq<char>) -> Option<Seq<char>> {
    match doc.field(key) {
        Some(inner) => inner.as_text(),
        None => None,
    }
}

/// The property that a definition declares. A definition without a string under
/// `name` or without one under `type` declares none.
pub open spec fn property_of(definition: JsonDoc) -> Option<PropertyModel> {
    match (text_field(definition, "name"@), text_field(definition, "type"@)) {
        (Some(name), Some(tag)) => Some(
            PropertyModel {
                name: name,
                property_type: property_type_of(tag),
                property_raw_type: tag,
            },
        ),
        _ => None,
    }
}

/// The schema that a list of definitions gives: every definition that declares a
/// property puts it under the property's name, a later one in the place of an
/// earlier one of the same name.
pub open spec fn schema_entries(definitions: Seq<(Seq<char>, JsonDoc)>) -> SchemaModel
    decreases definitions.len(),
{
    if definitions.len() == 0 {
        Seq::empty()
    } else {
        let before = schema_entries(definitions.drop_last());
        match property_of(definitions.last().1) {
            Some(property) => upsert(before, property.name, property),
            None => before,
        }
    }
}

/// Whether `doc` says of itself that it is a `kind`; if not, the error that says
/// what it claims to be.
pub open spec fn kind_accepted(doc: JsonDoc, kind: Seq<char>) -> Result<(), ErrorModel> {
    if text_field(doc, "object"@) == Some(kind) {
        Ok(())
    } else {
        Err(ErrorModel::UnexpectedObjectKind(text_field(doc, "object"@)))
    }
}

/// The schema that a database document describes, or why it describes none.
pub open spec fn parsed_schema(doc: JsonDoc) -> Result<SchemaModel, ErrorModel> {
    match kind_accepted(doc, "database"@) {
        Err(e) => Err(e),
        Ok(_) => match doc.field("properties"@) {
            Some(properties) => match properties.members() {
                Some(definitions) => Ok(schema_entries(definitions)),
                None => Err(ErrorModel::MalformedSchema),
            },
            None => Err(ErrorModel::MalformedSchema),
        },
    }
}

/// Reads the string under `key`.
pub(crate) fn read_text<'a>(value: &'a serde_json::Value, key: &str) -> (r: Option<&'a str>)
    ensures
        match r {
            Some(s) => text_field(json_doc(*value), key@) == Some(s@),
            None => text_field(json_doc(*value), key@) is None,
        },
{
    match get_field(value, key) {
        Some(inner) => get_text(inner),
        None => None,
    }
}

/// Accepts a document whose field `object` is the string `kind`.
pub(crate) fn accept_kind(value: &serde_json::Value, kind: &str) -> (r: Result<(), NotionError>)
    ensures
        match r {
            Ok(_) => kind_accepted(json_doc(*value), kind@) is Ok,
            Err(e) => kind_accepted(json_doc(*value), kind@) == Err::<(), ErrorModel>(e@),
        },
{
    match read_text(value, "object") {
        Some(found) => {
            if *found == *kind {
                Ok(())
            } else {
                Err(NotionError::UnexpectedObjectKind(Some(found.to_owned())))
            }
        },
        None => Err(NotionError::UnexpectedObjectKind(None)),
    }
}

/// Accepts a document that says of itself that it is a database.
pub fn validate_object_type(database_resp: &serde_json::Value) -> (r: Result<(), NotionError>)
    ensures
        match r {
            Ok(_) => text_field(json_doc(*database_resp), "object"@) == Some("database"@),
            Err(e) => {
                &&& text_field(json_doc(*database_resp), "object"@) != Some("database"@)
                &&& e@ == ErrorModel::UnexpectedObjectKind(
                    text_field(json_doc(*database_resp), "object"@),
                )
            },
        },
{
    accept_kind(database_resp, "database")
}

/// Maps a tag to its kind.
pub fn parse_property_type(tag: &str) -> (r: NotionPropertyType)
    ensures
        r == property_type_of(tag@),
{
    if *tag == *"rich_text" {
        NotionPropertyType::RichText
    } else if *tag == *"number" {
        NotionPropertyType::Number
    } else if *tag == *"select" {
        NotionPropertyType::Select
    } else if *tag == *"multi_select" {
        NotionPropertyType::MultiSelect
    } else if *tag == *"date" {
        NotionPropertyType::Date
    } else if *tag == *"formula" {
        NotionPropertyType::Formula
    } else if *tag == *"relation" {
        NotionPropertyType::Relation
    } else if *tag == *"rollup" {
        NotionPropertyType::Rollup
    } else if *tag == *"title" {
        NotionPropertyType::Title
    } else if *tag == *"people" {
        NotionPropertyType::People
    } else if *tag == *"files" {
        NotionPropertyType::Files
    } else if *tag == *"checkbox" {
        NotionPropertyType::Checkbox
    } else if *tag == *"url" {
        NotionPropertyType::Url
    } else if *tag == *"email" {
        NotionPropertyType::Email
    } else if *tag == *"phone_number" {
        NotionPropertyType::PhoneNumber
    } else if *tag == *"created_time" {
        NotionPropertyType::CreatedTime
    } else if *tag == *"created_by" {
        NotionPropertyType::CreatedBy
    } else if *tag == *"last_edited_time" {
        NotionPropertyType::LastEditedTime
    } else if *tag == *"last_edited_by" {
        NotionPropertyType::LastEditedBy
    } else {
        NotionPropertyType::Other
    }
}

/// Reads one definition.
pub fn parse_property(definition: &serde_json::Value) -> (r: Option<NotionProperty>)
    ensures
        match r {
            Some(property) => property_of(json_doc(*definition)) == Some(property@),
            None => property_of(json_doc(*definition)) is None,
        },
{
    let name = match read_text(definition, "name") {
        Some(name) => name,
        None => {
            return None;
        },
    };
    let tag = match read_text(definition, "type") {
        Some(tag) => tag,
        None => {
            return None;
        },
    };
    Some(
        NotionProperty {
            name: name.to_owned(),
            property_type: parse_property_type(tag),
            property_raw_type: tag.to_owned(),
        },
    )
}

/// Reads the schema of a database from the document that describes it.
///
/// A document that does not say of itself that it is a database is turned down,
/// and so is one without an object under `properties`. Of the definitions under
/// `properties`, those without a name or a type are passed over.
pub fn parse_database_schema(database_resp: &serde_json::Value) -> (r: Result<
    NotionDatabaseSchema,
    NotionError,
>)
    ensures
        match r {
            Ok(schema) => parsed_schema(json_doc(*database_resp)) == Ok::<SchemaModel, ErrorModel>(
                schema@,
            ),
            Err(e) => parsed_schema(json_doc(*database_resp)) == Err::<SchemaModel, ErrorModel>(
                e@,
            ),
        },
        text_field(json_doc(*database_resp), "object"@) != Some("database"@) ==> r is Err && r->Err_0@
            == ErrorModel::UnexpectedObjectKind(text_field(json_doc(*database_resp), "object"@)),
        r is Ok ==> is_keyed_by_name(r->Ok_0@) && names_of(r->Ok_0@).no_duplicates(),
{
    match validate_object_type(database_resp) {
        Err(e) => {
            return Err(e);
        },
        Ok(_) => {},
    }
    let definitions = match get_field(database_resp, "properties") {
        Some(properties) => match get_members(properties) {
            Some(definitions) => definitions,
            None => {
                return Err(NotionError::MalformedSchema);
            },
        },
        None => {
            return Err(NotionError::MalformedSchema);
        },
    };
    let ghost members = members_model(definitions@);
    let mut schema = NotionDatabaseSchema { properties: NameMap::new() };
    assert(schema@ =~= schema_entries(members.take(0)));
    let mut i: usize = 0;
    while i < definitions.len()
        invariant
            i <= definitions.len(),
            members == members_model(definitions@),
            schema@ == schema_entries(members.take(i as int)),
        decreases definitions.len() - i,
    {
        assert(members.take(i + 1).drop_last() == members.take(i as int));
        assert(members.take(i + 1).last() == members[i as int]);
        let definition = definitions[i].1;
        match parse_property(definition) {
            Some(property) => {
                let ghost before = schema@;
                let ghost entries = schema.properties.entries();
                let ghost model = property@;
                let name = property.name.clone();
                proof {
                    assert(names_of(before) =~= names_of(entries));
                    lemma_position(names_of(entries), name@);
                }
                schema.properties.insert(name, property);
                assert(schema@ =~= upsert(before, model.name, model));
            },
            None => {},
        }
        i += 1;
    }
    assert(members.take(i as int) == members);
    proof {
        lemma_schema_is_keyed_by_name(members);
    }
    Ok(schema)
}

/// The property that the last of `definitions` to declare one under `name`
/// declares.
pub open spec fn last_declared(definitions: Seq<(Seq<char>, JsonDoc)>, name: Seq<char>) -> Option<
    PropertyModel,
>
    decreases definitions.len(),
{
    if definitions.len() == 0 {
        None
    } else {
        match property_of(definitions.last().1) {
            Some(property) => if property.name == name {
                Some(property)
            } else {
                last_declared(definitions.drop_last(), name)
            },
            None => last_declared(definitions.drop_last(), name),
        }
    }
}

/// Under a name, a schema holds the property that the last definition of that
/// name declares, and nothing where no definition declares one.
pub proof fn lemma_schema_holds_last_declared(
    definitions: Seq<(Seq<char>, JsonDoc)>,
    name: Seq<char>,
)
    ensures
        lookup(schema_entries(definitions), name) == last_declared(definitions, name),
    decreases definitions.len(),
{
    if definitions.len() > 0 {
        lemma_schema_holds_last_declared(definitions.drop_last(), name);
        match property_of(definitions.last().1) {
            Some(property) => {
                lemma_lookup_after_upsert(
                    schema_entries(definitions.drop_last()),
                    property.name,
                    property,
                    name,
                );
            },
            None => {},
        }
    }
}

/// Whether every property of a schema stands under its own name.
pub open spec fn is_keyed_by_name(schema: SchemaModel) -> bool {
    forall|i: int| 0 <= i < schema.len() ==> (#[trigger] schema[i]).0 == schema[i].1.name
}

/// In a schema that was read from definitions every property stands under its own
/// name, and no name occurs twice.
pub proof fn lemma_schema_is_keyed_by_name(definitions: Seq<(Seq<char>, JsonDoc)>)
    ensures
        is_keyed_by_name(schema_entries(definitions)),
        names_of(schema_entries(definitions)).no_duplicates(),
    decreases definitions.len(),
{
    if definitions.len() > 0 {
        let before = schema_entries(definitions.drop_last());
        lemma_schema_is_keyed_by_name(definitions.drop_last());
        match property_of(definitions.last().1) {
            Some(property) => {
                lemma_upsert_keeps_names_apart(before, property.name, property);
                lemma_position(names_of(before), property.name);
            },
            None => {},
        }
    }
}

} // verus!
