use crate::error::{ErrorModel, NotionError};
use crate::json_util::{dig, dig_json, path_of, JsonKey, PathStep};
use crate::json_value::{
    copy_value, get_boolean, get_field, get_items, get_members, get_number, get_text, items_model,
    json_doc, members_model, names_are_distinct, JsonDoc,
};
use crate::name_map::{lemma_position, lookup, names_of, position, NameMap};
use crate::notion_database::{
    accept_kind, kind_accepted, read_text, text_field, NotionDatabaseSchema, NotionProperty,
    NotionPropertyType, PropertyModel, SchemaModel,
};
use vstd::prelude::*;

verus! {

/// The value of one property of a page.
#[derive(Debug, PartialEq)]
pub enum NotionPropertyValue {
    Text(String),
    /// A number, as the bit pattern of an IEEE 754 double.
    Number(u64),
    Boolean(bool),
    /// A value that is kept as the document that it came as.
    Json(serde_json::Value),
}

/// A `NotionPropertyValue` as a mathematical value.
pub enum ValueModel {
    Text(Seq<char>),
    Number(u64),
    Boolean(bool),
    Json(JsonDoc),
}

impl View for NotionPropertyValue {
    type V = ValueModel;

    open spec fn view(&self) -> ValueModel {
        match self {
            NotionPropertyValue::Text(s) => ValueModel::Text(s@),
            NotionPropertyValue::Number(bits) => ValueModel::Number(*bits),
            NotionPropertyValue::Boolean(b) => ValueModel::Boolean(*b),
            NotionPropertyValue::Json(value) => ValueModel::Json(json_doc(*value)),
        }
    }
}

/// The names and values of a page's properties as mathematical values.
pub open spec fn values_model(entries: Seq<(Seq<char>, NotionPropertyValue)>) -> Seq<
    (Seq<char>, ValueModel),
> {
    entries.map_values(|e: (Seq<char>, NotionPropertyValue)| (e.0, e.1@))
}

/// One page of a database: the values of its properties, and what the source
/// records about the page itself.
#[derive(Debug)]
pub struct NotionPage {
    pub id: String,
    pub properties: NameMap<NotionPropertyValue>,
    pub url: String,
    pub created_time: String,
    pub created_by: serde_json::Value,
    pub last_edited_time: String,
    pub last_edited_by: serde_json::Value,
    pub archived: bool,
}

/// A `NotionPage` as a mathematical value.
pub struct PageModel {
    pub id: Seq<char>,
    pub properties: Seq<(Seq<char>, ValueModel)>,
    pub url: Seq<char>,
    pub created_time: Seq<char>,
    pub created_by: JsonDoc,
    pub last_edited_time: Seq<char>,
    pub last_edited_by: JsonDoc,
    pub archived: bool,
}

impl View for NotionPage {
    type V = PageModel;

    open spec fn view(&self) -> PageModel {
        PageModel {
            id: self.id@,
            properties: values_model(self.properties.entries()),
            url: self.url@,
            created_time: self.created_time@,
            created_by: json_doc(self.created_by),
            last_edited_time: self.last_edited_time@,
            last_edited_by: json_doc(self.last_edited_by),
            archived: self.archived,
        }
    }
}

/// The pages of a list as mathematical values.
pub open spec fn pages_model(pages: Seq<NotionPage>) -> Seq<PageModel> {
    pages.map_values(|p: NotionPage| p@)
}

/// The way to the text of a title.
pub open spec fn title_path() -> Seq<PathStep> {
    seq![PathStep::Field("title"@), PathStep::Index(0), PathStep::Field("plain_text"@)]
}

/// The way to a number.
pub open spec fn number_path() -> Seq<PathStep> {
    seq![PathStep::Field("number"@)]
}

/// The way to the name of a selected option.
pub open spec fn select_path() -> Seq<PathStep> {
    seq![PathStep::Field("select"@), PathStep::Field("name"@)]
}

/// The string at the end of `path`, as a text value.
pub open spec fn text_at(raw: JsonDoc, path: Seq<PathStep>) -> Option<ValueModel> {
    match dig(raw, path) {
        Some(inner) => match inner.as_text() {
            Some(s) => Some(ValueModel::Text(s)),
            None => None,
        },
        None => None,
    }
}

/// The string under `key`, as a text value.
pub open spec fn text_under(raw: JsonDoc, key: Seq<char>) -> Option<ValueModel> {
    match text_field(raw, key) {
        Some(s) => Some(ValueModel::Text(s)),
        None => None,
    }
}

/// The value that a raw property gives for a property of the schema, or nothing
/// where the raw property does not hold what the kind asks for.
pub open spec fn property_value(property: PropertyModel, raw: JsonDoc) -> Option<ValueModel> {
    match property.property_type {
        NotionPropertyType::Title => text_at(raw, title_path()),
        NotionPropertyType::Select => text_at(raw, select_path()),
        NotionPropertyType::Number => match dig(raw, number_path()) {
            Some(inner) => match inner.as_number() {
                Some(bits) => Some(ValueModel::Number(bits)),
                None => None,
            },
            None => None,
        },
        NotionPropertyType::Checkbox => match raw.field("checkbox"@) {
            Some(inner) => match inner.as_boolean() {
                Some(b) => Some(ValueModel::Boolean(b)),
                None => None,
            },
            None => None,
        },
        NotionPropertyType::Url => text_under(raw, "url"@),
        NotionPropertyType::Email => text_under(raw, "email"@),
        NotionPropertyType::PhoneNumber => text_under(raw, "phone_number"@),
        NotionPropertyType::CreatedTime => text_under(raw, "created_time"@),
        NotionPropertyType::LastEditedTime => text_under(raw, "last_edited_time"@),
        NotionPropertyType::Other => match raw.field(property.property_raw_type) {
            Some(inner) => Some(ValueModel::Json(inner)),
            None => None,
        },
        _ => Some(ValueModel::Json(raw)),
    }
}

/// The property values of a page: of the raw properties in their order, each one
/// that the schema knows and that holds what its kind asks for.
pub open spec fn page_properties(schema: SchemaModel, raw: Seq<(Seq<char>, JsonDoc)>) -> Seq<
    (Seq<char>, ValueModel),
>
    decreases raw.len(),
{
    if raw.len() == 0 {
        Seq::empty()
    } else {
        let before = page_properties(schema, raw.drop_last());
        match lookup(schema, raw.last().0) {
            Some(property) => match property_value(property, raw.last().1) {
                Some(value) => before.push((raw.last().0, value)),
                None => before,
            },
            None => before,
        }
    }
}

/// The members of the object under `key`.
pub open spec fn members_under(doc: JsonDoc, key: Seq<char>) -> Option<Seq<(Seq<char>, JsonDoc)>> {
    match doc.field(key) {
        Some(inner) => inner.members(),
        None => None,
    }
}

/// The boolean under `key`.
pub open spec fn boolean_under(doc: JsonDoc, key: Seq<char>) -> Option<bool> {
    match doc.field(key) {
        Some(inner) => inner.as_boolean(),
        None => None,
    }
}

/// Whether an item has all that a page is made of.
pub open spec fn is_complete(item: JsonDoc) -> bool {
    &&& text_field(item, "id"@) is Some
    &&& text_field(item, "url"@) is Some
    &&& text_field(item, "created_time"@) is Some
    &&& item.field("created_by"@) is Some
    &&& text_field(item, "last_edited_time"@) is Some
    &&& item.field("last_edited_by"@) is Some
    &&& boolean_under(item, "archived"@) is Some
    &&& members_under(item, "properties"@) is Some
}

/// The page that an item describes; nothing for an item that is not complete.
pub open spec fn page_of(schema: SchemaModel, item: JsonDoc) -> Option<PageModel> {
    if is_complete(item) {
        Some(
            PageModel {
                id: text_field(item, "id"@).unwrap(),
                properties: page_properties(schema, members_under(item, "properties"@).unwrap()),
                url: text_field(item, "url"@).unwrap(),
                created_time: text_field(item, "created_time"@).unwrap(),
                created_by: item.field("created_by"@).unwrap(),
                last_edited_time: text_field(item, "last_edited_time"@).unwrap(),
                last_edited_by: item.field("last_edited_by"@).unwrap(),
                archived: boolean_under(item, "archived"@).unwrap(),
            },
        )
    } else {
        None
    }
}

/// The pages that a list of items describes: of the items in their order, each
/// one that is complete.
pub open spec fn pages_of(schema: SchemaModel, items: Seq<JsonDoc>) -> Seq<PageModel>
    decreases items.len(),
{
    if items.len() == 0 {
        Seq::empty()
    } else {
        let before = pages_of(schema, items.drop_last());
        match page_of(schema, items.last()) {
            Some(page) => before.push(page),
            None => before,
        }
    }
}

/// What a list document holds: its pages and the cursor to the next list, or why
/// it is turned down.
pub open spec fn parsed_page_list(schema: SchemaModel, doc: JsonDoc) -> Result<
    (Seq<PageModel>, Option<Seq<char>>),
    ErrorModel,
> {
    match kind_accepted(doc, "list"@) {
        Err(e) => Err(e),
        Ok(_) => match doc.field("results"@) {
            Some(results) => match results.items() {
                Some(items) => Ok((pages_of(schema, items), text_field(doc, "next_cursor"@))),
                None => Err(ErrorModel::MalformedList),
            },
            None => Err(ErrorModel::MalformedList),
        },
    }
}

/// Every name in the properties of a page is a name of the schema and a name of
/// the raw properties.
pub proof fn lemma_page_properties_known(
    schema: SchemaModel,
    raw: Seq<(Seq<char>, JsonDoc)>,
    i: int,
)
    requires
        0 <= i < page_properties(schema, raw).len(),
    ensures
        lookup(schema, page_properties(schema, raw)[i].0) is Some,
        exists|j: int| 0 <= j < raw.len() && raw[j].0 == page_properties(schema, raw)[i].0,
    decreases raw.len(),
{
    let before = page_properties(schema, raw.drop_last());
    if i < before.len() {
        lemma_page_properties_known(schema, raw.drop_last(), i);
        let j = choose|j: int| 0 <= j < raw.drop_last().len() && raw.drop_last()[j].0 == before[i].0;
        assert(raw[j].0 == page_properties(schema, raw)[i].0);
    } else {
        assert(raw[raw.len() - 1].0 == page_properties(schema, raw)[i].0);
    }
}

/// Makes pages from the items of a list.
pub struct NotionPageBuilder<'a> {
    schema: &'a NotionDatabaseSchema,
    title_json_path: Vec<JsonKey<'a>>,
    number_json_path: Vec<JsonKey<'a>>,
    select_json_path: Vec<JsonKey<'a>>,
}

impl<'a> NotionPageBuilder<'a> {
    #[verifier::type_invariant]
    spec fn paths_are_set(&self) -> bool {
        &&& path_of(self.title_json_path@) == title_path()
        &&& path_of(self.number_json_path@) == number_path()
        &&& path_of(self.select_json_path@) == select_path()
    }

    /// The schema that the builder reads pages by.
    pub closed spec fn schema(&self) -> NotionDatabaseSchema {
        *self.schema
    }

    /// The ways that the builder follows to a title, to a number and to the name
    /// of a selected option.
    pub closed spec fn paths(&self) -> (Seq<PathStep>, Seq<PathStep>, Seq<PathStep>) {
        (
            path_of(self.title_json_path@),
            path_of(self.number_json_path@),
            path_of(self.select_json_path@),
        )
    }

    /// A builder for the pages of a database with the schema `schema`.
    pub fn new(schema: &'a NotionDatabaseSchema) -> (builder: NotionPageBuilder<'a>)
        ensures
            builder.schema() == *schema,
            builder.paths() == (title_path(), number_path(), select_path()),
    {
        let title_json_path = vec![
            JsonKey::String("title"),
            JsonKey::Index(0),
            JsonKey::String("plain_text"),
        ];
        let number_json_path = vec![JsonKey::String("number")];
        let select_json_path = vec![JsonKey::String("select"), JsonKey::String("name")];
        assert(path_of(title_json_path@) =~= title_path());
        assert(path_of(number_json_path@) =~= number_path());
        assert(path_of(select_json_path@) =~= select_path());
        NotionPageBuilder { schema, title_json_path, number_json_path, select_json_path }
    }

    /// Reads the value of one property.
    pub fn value_of(&self, property: &NotionProperty, raw: &serde_json::Value) -> (r: Option<
        NotionPropertyValue,
    >)
        ensures
            match r {
                Some(value) => property_value(property@, json_doc(*raw)) == Some(value@),
                None => property_value(property@, json_doc(*raw)) is None,
            },
    {
        proof {
            use_type_invariant(self);
        }
        match property.property_type {
            NotionPropertyType::Title => {
                let text = get_text(dig_json(raw, &self.title_json_path)?)?;
                Some(NotionPropertyValue::Text(text.to_owned()))
            },
            NotionPropertyType::Select => {
                let text = get_text(dig_json(raw, &self.select_json_path)?)?;
                Some(NotionPropertyValue::Text(text.to_owned()))
            },
            NotionPropertyType::Number => {
                let bits = get_number(dig_json(raw, &self.number_json_path)?)?;
                Some(NotionPropertyValue::Number(bits))
            },
            NotionPropertyType::Checkbox => {
                let b = get_boolean(get_field(raw, "checkbox")?)?;
                Some(NotionPropertyValue::Boolean(b))
            },
            NotionPropertyType::Url => {
                Some(NotionPropertyValue::Text(read_text(raw, "url")?.to_owned()))
            },
            NotionPropertyType::Email => {
                Some(NotionPropertyValue::Text(read_text(raw, "email")?.to_owned()))
            },
            NotionPropertyType::PhoneNumber => {
                Some(NotionPropertyValue::Text(read_text(raw, "phone_number")?.to_owned()))
            },
            NotionPropertyType::CreatedTime => {
                Some(NotionPropertyValue::Text(read_text(raw, "created_time")?.to_owned()))
            },
            NotionPropertyType::LastEditedTime => {
                Some(NotionPropertyValue::Text(read_text(raw, "last_edited_time")?.to_owned()))
            },
            NotionPropertyType::Other => {
                let inner = get_field(raw, property.property_raw_type.as_str())?;
                Some(NotionPropertyValue::Json(copy_value(inner)))
            },
            _ => Some(NotionPropertyValue::Json(copy_value(raw))),
        }
    }

    /// Reads the properties of a page from the members of its `properties` object.
    fn properties_of(&self, raw: &Vec<(&String, &serde_json::Value)>) -> (r: NameMap<
        NotionPropertyValue,
    >)
        requires
            names_are_distinct(members_model(raw@)),
        ensures
            values_model(r.entries()) == page_properties(self.schema()@, members_model(raw@)),
    {
        let ghost schema = self.schema()@;
        let ghost members = members_model(raw@);
        let mut properties: NameMap<NotionPropertyValue> = NameMap::new();
        assert(values_model(properties.entries()) =~= page_properties(schema, members.take(0)));
        let mut i: usize = 0;
        while i < raw.len()
            invariant
                i <= raw.len(),
                schema == self.schema()@,
                members == members_model(raw@),
                names_are_distinct(members),
                values_model(properties.entries()) == page_properties(
                    schema,
                    members.take(i as int),
                ),
            decreases raw.len() - i,
        {
            let ghost seen = members.take(i as int);
            assert(members.take(i + 1).drop_last() == seen);
            assert(members.take(i + 1).last() == members[i as int]);
            let key = raw[i].0;
            let value = raw[i].1;
            assert(members[i as int] == (key@, json_doc(*value)));
            proof {
                assert(names_of(schema) =~= names_of(self.schema.properties.entries()));
                lemma_position(names_of(schema), key@);
            }
            if let Some(property) = self.schema.properties.get(key.as_str()) {
                assert(lookup(schema, key@) == Some(property@));
                if let Some(read) = self.value_of(property, value) {
                    let ghost before = properties.entries();
                    proof {
                        let names = names_of(before);
                        assert(names =~= names_of(page_properties(schema, seen)));
                        lemma_position(names, key@);
                        if position(names, key@) is Some {
                            let p = position(names, key@).unwrap();
                            lemma_page_properties_known(schema, seen, p);
                            let j = choose|j: int|
                                0 <= j < seen.len() && seen[j].0 == page_properties(
                                    schema,
                                    seen,
                                )[p].0;
                            assert(members[j].0 == members[i as int].0);
                            assert(false);
                        }
                    }
                    properties.insert(key.clone(), read);
                    assert(values_model(properties.entries()) =~= values_model(before).push(
                        (key@, read@),
                    ));
                }
            }
            i += 1;
        }
        assert(members.take(i as int) == members);
        properties
    }

    /// Makes a page from one item of a list.
    ///
    /// An item makes a page where it has strings under `id`, `url`, `created_time`
    /// and `last_edited_time`, a boolean under `archived`, an object under
    /// `properties`, and anything under `created_by` and `last_edited_by`. Any
    /// other item makes none. Of the raw properties, those that the schema does
    /// not know and those that do not hold what their kind asks for are left out.
    pub fn from(&self, json_entry: &serde_json::Value) -> (r: Option<NotionPage>)
        ensures
            match r {
                Some(page) => page_of(self.schema()@, json_doc(*json_entry)) == Some(page@),
                None => page_of(self.schema()@, json_doc(*json_entry)) is None,
            },
    {
        let id = read_text(json_entry, "id")?.to_owned();
        let url = read_text(json_entry, "url")?.to_owned();
        let created_time = read_text(json_entry, "created_time")?.to_owned();
        let created_by = copy_value(get_field(json_entry, "created_by")?);
        let last_edited_time = read_text(json_entry, "last_edited_time")?.to_owned();
        let last_edited_by = copy_value(get_field(json_entry, "last_edited_by")?);
        let archived = get_boolean(get_field(json_entry, "archived")?)?;
        let raw = get_members(get_field(json_entry, "properties")?)?;
        let properties = self.properties_of(&raw);
        Some(
            NotionPage {
                id,
                properties,
                url,
                created_time,
                created_by,
                last_edited_time,
                last_edited_by,
                archived,
            },
        )
    }
}

/// The string under `next_cursor`, if the list has one.
pub fn get_next_cursor(query_resp: &serde_json::Value) -> (r: Option<String>)
    ensures
        match r {
            Some(cursor) => text_field(json_doc(*query_resp), "next_cursor"@) == Some(cursor@),
            None => text_field(json_doc(*query_resp), "next_cursor"@) is None,
        },
{
    Some(read_text(query_resp, "next_cursor")?.to_owned())
}

/// Accepts a document that says of itself that it is a list.
pub fn validate_object_type(query_resp: &serde_json::Value) -> (r: Result<(), NotionError>)
    ensures
        match r {
            Ok(_) => text_field(json_doc(*query_resp), "object"@) == Some("list"@),
            Err(e) => {
                &&& text_field(json_doc(*query_resp), "object"@) != Some("list"@)
                &&& e@ == ErrorModel::UnexpectedObjectKind(
                    text_field(json_doc(*query_resp), "object"@),
                )
            },
        },
{
    accept_kind(query_resp, "list")
}

/// The cursor as a mathematical value.
pub open spec fn cursor_model(cursor: Option<String>) -> Option<Seq<char>> {
    match cursor {
        Some(c) => Some(c@),
        None => None,
    }
}

/// Reads one list of pages: the pages of its complete items, in their order, and
/// the cursor to the list that follows, if there is one.
///
/// A document that does not say of itself that it is a list is turned down, and so
/// is one without an array under `results`. An item that is not complete is left
/// out, and is no error.
pub fn parse_notion_page_list(
    schema: &NotionDatabaseSchema,
    query_resp: &serde_json::Value,
) -> (r: Result<(Vec<NotionPage>, Option<String>), NotionError>)
    ensures
        match r {
            Ok((pages, cursor)) => parsed_page_list(schema@, json_doc(*query_resp)) == Ok::<
                (Seq<PageModel>, Option<Seq<char>>),
                ErrorModel,
            >((pages_model(pages@), cursor_model(cursor))),
            Err(e) => parsed_page_list(schema@, json_doc(*query_resp)) == Err::<
                (Seq<PageModel>, Option<Seq<char>>),
                ErrorModel,
            >(e@),
        },
{
    match validate_object_type(query_resp) {
        Err(e) => {
            return Err(e);
        },
        Ok(_) => {},
    }
    let next_cursor = get_next_cursor(query_resp);
    let results = match get_field(query_resp, "results") {
        Some(results) => match get_items(results) {
            Some(items) => items,
            None => {
                return Err(NotionError::MalformedList);
            },
        },
        None => {
            return Err(NotionError::MalformedList);
        },
    };
    let ghost items = items_model(results@);
    let page_builder = NotionPageBuilder::new(schema);
    let mut pages: Vec<NotionPage> = Vec::new();
    assert(pages_model(pages@) =~= pages_of(schema@, items.take(0)));
    let mut i: usize = 0;
    while i < results.len()
        invariant
            i <= results.len(),
            items == items_model(results@),
            page_builder.schema() == *schema,
            pages_model(pages@) == pages_of(schema@, items.take(i as int)),
        decreases results.len() - i,
    {
        assert(items.take(i + 1).drop_last() == items.take(i as int));
        assert(items.take(i + 1).last() == items[i as int]);
        match page_builder.from(&results[i]) {
            Some(page) => {
                let ghost before = pages_model(pages@);
                pages.push(page);
                assert(pages_model(pages@) =~= before.push(page@));
            },
            None => {},
        }
        i += 1;
    }
    assert(items.take(i as int) == items);
    Ok((pages, next_cursor))
}

/// Items that are not complete make no pages.
pub proof fn lemma_incomplete_items_make_no_pages(schema: SchemaModel, items: Seq<JsonDoc>)
    requires
        forall|i: int| 0 <= i < items.len() ==> !is_complete(#[trigger] items[i]),
    ensures
        pages_of(schema, items) == Seq::<PageModel>::empty(),
    decreases items.len(),
{
    if items.len() > 0 {
        assert(!is_complete(items[items.len() - 1]));
        assert forall|i: int| 0 <= i < items.drop_last().len() implies !is_complete(
            #[trigger] items.drop_last()[i],
        ) by {
            assert(items.drop_last()[i] == items[i]);
        }
        lemma_incomplete_items_make_no_pages(schema, items.drop_last());
    }
}

/// A list whose items are not complete is read without an error, and holds no
/// pages.
pub proof fn lemma_incomplete_items_are_no_error(schema: SchemaModel, doc: JsonDoc)
    requires
        text_field(doc, "object"@) == Some("list"@),
        doc.field("results"@) is Some,
        doc.field("results"@).unwrap().items() is Some,
        forall|i: int|
            0 <= i < doc.field("results"@).unwrap().items().unwrap().len() ==> !is_complete(
                #[trigger] doc.field("results"@).unwrap().items().unwrap()[i],
            ),
    ensures
        parsed_page_list(schema, doc) == Ok::<(Seq<PageModel>, Option<Seq<char>>), ErrorModel>(
            (Seq::empty(), text_field(doc, "next_cursor"@)),
        ),
{
    lemma_incomplete_items_make_no_pages(schema, doc.field("results"@).unwrap().items().unwrap());
}

/// A list makes at most as many pages as it has items.
pub proof fn lemma_pages_are_no_more_than_items(schema: SchemaModel, items: Seq<JsonDoc>)
    ensures
        pages_of(schema, items).len() <= items.len(),
    decreases items.len(),
{
    if items.len() > 0 {
        lemma_pages_are_no_more_than_items(schema, items.drop_last());
    }
}

/// The value of a title is the string under `plain_text` in the first element of
/// the array under `title`.
pub proof fn lemma_title_value(property: PropertyModel, raw: JsonDoc)
    requires
        property.property_type == NotionPropertyType::Title,
    ensures
        property_value(property, raw) == match raw.field("title"@) {
            Some(parts) => match parts.item(0) {
                Some(first) => text_under(first, "plain_text"@),
                None => None,
            },
            None => None,
        },
{
    let path = title_path();
    assert(path.drop_last() =~= seq![PathStep::Field("title"@), PathStep::Index(0)]);
    assert(path.drop_last().drop_last() =~= seq![PathStep::Field("title"@)]);
    assert(path.drop_last().drop_last().drop_last() =~= Seq::<PathStep>::empty());
    reveal_with_fuel(dig, 4);
}

/// The value of a selection is the string under `name` in the object under
/// `select`.
pub proof fn lemma_select_value(property: PropertyModel, raw: JsonDoc)
    requires
        property.property_type == NotionPropertyType::Select,
    ensures
        property_value(property, raw) == match raw.field("select"@) {
            Some(option) => text_under(option, "name"@),
            None => None,
        },
{
    let path = select_path();
    assert(path.drop_last() =~= seq![PathStep::Field("select"@)]);
    assert(path.drop_last().drop_last() =~= Seq::<PathStep>::empty());
    reveal_with_fuel(dig, 3);
}

/// The value of a number is the number under `number`.
pub proof fn lemma_number_value(property: PropertyModel, raw: JsonDoc)
    requires
        property.property_type == NotionPropertyType::Number,
    ensures
        property_value(property, raw) == match raw.field("number"@) {
            Some(inner) => match inner.as_number() {
                Some(bits) => Some(ValueModel::Number(bits)),
                None => None,
            },
            None => None,
        },
{
    let path = number_path();
    assert(path.drop_last() =~= Seq::<PathStep>::empty());
    reveal_with_fuel(dig, 2);
}

/// Whether a kind of property is kept as the document that it came as.
pub open spec fn is_kept_whole(kind: NotionPropertyType) -> bool {
    kind == NotionPropertyType::RichText || kind == NotionPropertyType::MultiSelect || kind
        == NotionPropertyType::Date || kind == NotionPropertyType::Formula || kind
        == NotionPropertyType::Relation || kind == NotionPropertyType::Rollup || kind
        == NotionPropertyType::People || kind == NotionPropertyType::Files || kind
        == NotionPropertyType::CreatedBy || kind == NotionPropertyType::LastEditedBy
}

/// A property of a kind that is kept whole always has a value: the raw property
/// itself.
pub proof fn lemma_whole_value(property: PropertyModel, raw: JsonDoc)
    requires
        is_kept_whole(property.property_type),
    ensures
        property_value(property, raw) == Some(ValueModel::Json(raw)),
{
}

} // verus!
