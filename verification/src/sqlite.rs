use crate::json_value::{to_text, JsonDoc};
use crate::name_map::{lemma_position, lookup, names_of, position, NameMap};
use crate::notion_database::{
    is_keyed_by_name, NotionDatabaseSchema, NotionPropertyType, PropertyModel, SchemaModel,
};
use crate::notion_pages::{
    lemma_page_properties_known, members_under, page_of, NotionPage, NotionPropertyValue, PageModel,
    ValueModel,
};
use crate::text::{
    decimal, decimal_string, escape, escape_quotes, join, join_strings, lemma_escape_is_injective,
    lemma_join_holds_each, lemma_occurs_in_itself, lemma_occurs_in_longer, occurs_in, quoted,
    texts_of,
};
use vstd::prelude::*;

verus! {

/// The table of what the source records about each page.
pub const PAGE_METADATA_TABLE: &'static str = "page_metadata";

/// The table of the pages' property values.
pub const PAGE_PROPERTIES_TABLE: &'static str = "pages";

/// The column of the properties table that holds a page's id.
pub const PAGE_ID_COLUMN: &'static str = "page_id";

/// A value that is bound to a placeholder of a statement.
#[derive(Debug, PartialEq)]
pub enum SqlValue {
    Text(String),
    /// A number, as the bit pattern of an IEEE 754 double.
    Real(u64),
    Boolean(bool),
}

/// An `SqlValue` as a mathematical value.
pub enum SqlValueModel {
    Text(Seq<char>),
    Real(u64),
    Boolean(bool),
}

impl View for SqlValue {
    type V = SqlValueModel;

    open spec fn view(&self) -> SqlValueModel {
        match self {
            SqlValue::Text(s) => SqlValueModel::Text(s@),
            SqlValue::Real(bits) => SqlValueModel::Real(*bits),
            SqlValue::Boolean(b) => SqlValueModel::Boolean(*b),
        }
    }
}

/// A statement and the values for its placeholders, in their order.
#[derive(Debug)]
pub struct Statement {
    pub sql: String,
    pub params: Vec<SqlValue>,
}

/// A `Statement` as a mathematical value.
pub struct StatementModel {
    pub sql: Seq<char>,
    pub params: Seq<SqlValueModel>,
}

impl View for Statement {
    type V = StatementModel;

    open spec fn view(&self) -> StatementModel {
        StatementModel { sql: self.sql@, params: self.params@.map_values(|p: SqlValue| p@) }
    }
}

/// A list of statements as mathematical values.
pub open spec fn statements_model(statements: Seq<Statement>) -> Seq<StatementModel> {
    statements.map_values(|s: Statement| s@)
}

/// What a property value is stored as: a text and a boolean as they are, a number
/// as a real, and a document as its compact text.
pub open spec fn sql_value(value: ValueModel) -> SqlValueModel {
    match value {
        ValueModel::Text(s) => SqlValueModel::Text(s),
        ValueModel::Number(bits) => SqlValueModel::Real(bits),
        ValueModel::Boolean(b) => SqlValueModel::Boolean(b),
        ValueModel::Json(doc) => SqlValueModel::Text(doc.text),
    }
}

/// Whether `schema` declares a property of the name `name`.
pub open spec fn has_property(schema: SchemaModel, name: Seq<char>) -> bool {
    exists|i: int| 0 <= i < schema.len() && (#[trigger] schema[i]).1.name == name
}

/// The column type of a kind of property.
pub open spec fn sql_type(kind: NotionPropertyType) -> Seq<char> {
    if kind == NotionPropertyType::Number {
        "REAL"@
    } else {
        "TEXT"@
    }
}

/// The definition of the column of a property.
pub open spec fn column_definition(property: PropertyModel) -> Seq<char> {
    quoted(property.name) + seq![' '] + sql_type(property.property_type)
}

/// The definitions of the columns of all properties, in the order of the schema.
pub open spec fn column_definitions(schema: SchemaModel) -> Seq<Seq<char>> {
    schema.map_values(|e: (Seq<char>, PropertyModel)| column_definition(e.1))
}

/// The part of the properties table's definition that the schema decides.
pub open spec fn table_definition(schema: SchemaModel) -> Seq<char> {
    join(column_definitions(schema), ", "@)
}

/// The definition of the id column, the primary key of the properties table.
pub open spec fn id_column_definition() -> Seq<char> {
    PAGE_ID_COLUMN@ + " TEXT PRIMARY KEY"@
}

/// The statement that creates the properties table: with the id column, and then
/// the columns of the properties.
pub open spec fn properties_table_sql(schema: SchemaModel) -> Seq<char> {
    "CREATE TABLE "@ + PAGE_PROPERTIES_TABLE@ + " (\n                "@ + id_column_definition()
        + ",\n                "@ + table_definition(schema) + "\n            )"@
}

/// The statement that creates the metadata table.
pub open spec fn metadata_table_sql() -> Seq<char> {
    "CREATE TABLE "@ + PAGE_METADATA_TABLE@
        + " (\n                id TEXT PRIMARY KEY,\n                url TEXT,\n                created_time TEXT,\n                created_by JSON,\n                last_edited_time TEXT,\n                last_edited_by JSON,\n                archived BOOLEAN\n            )"@
}

/// The placeholder for the value at position `index`, counted from one.
pub open spec fn placeholder(index: nat) -> Seq<char> {
    seq!['?'] + decimal(index)
}

/// The placeholders for `count` values.
pub open spec fn placeholders(count: nat) -> Seq<Seq<char>> {
    Seq::new(count, |i: int| placeholder((i + 1) as nat))
}

/// The columns that a row of the properties table is written to: the id column,
/// then one for each of `names`.
pub open spec fn insert_columns(names: Seq<Seq<char>>) -> Seq<Seq<char>> {
    seq![PAGE_ID_COLUMN@] + names.map_values(|name: Seq<char>| quoted(name))
}

/// The statement that writes a row with values for `names` to the properties
/// table.
pub open spec fn properties_insert_sql(names: Seq<Seq<char>>) -> Seq<char> {
    "INSERT INTO "@ + PAGE_PROPERTIES_TABLE@ + " ("@ + join(insert_columns(names), ", "@)
        + ") VALUES ("@ + join(placeholders(names.len() + 1), ", "@) + ")"@
}

/// The statement that writes the property values of `page`, with the page's id
/// and then the values as they are to be stored.
pub open spec fn properties_insert(page: PageModel) -> StatementModel {
    StatementModel {
        sql: properties_insert_sql(names_of(page.properties)),
        params: seq![SqlValueModel::Text(page.id)] + page.properties.map_values(
            |e: (Seq<char>, ValueModel)| sql_value(e.1),
        ),
    }
}

/// The text of the statement that writes a row to the metadata table.
pub open spec fn metadata_insert_sql() -> Seq<char> {
    "INSERT INTO "@ + PAGE_METADATA_TABLE@
        + " (\n                id,\n                url,\n                created_time,\n                created_by,\n                last_edited_time,\n                last_edited_by,\n                archived\n            ) VALUES (?1, ?2, ?3, ?4, ?5, ?6, ?7)"@
}

/// The statement that writes what the source records about `page`.
pub open spec fn metadata_insert(page: PageModel) -> StatementModel {
    StatementModel {
        sql: metadata_insert_sql(),
        params: seq![
            SqlValueModel::Text(page.id),
            SqlValueModel::Text(page.url),
            SqlValueModel::Text(page.created_time),
            SqlValueModel::Text(page.created_by.text),
            SqlValueModel::Text(page.last_edited_time),
            SqlValueModel::Text(page.last_edited_by.text),
            SqlValueModel::Boolean(page.archived),
        ],
    }
}

impl NotionPropertyValue {
    /// The value as it is bound to a placeholder.
    pub fn to_sql(&self) -> (r: SqlValue)
        ensures
            r@ == sql_value(self@),
    {
        match self {
            NotionPropertyValue::Text(s) => SqlValue::Text(s.clone()),
            NotionPropertyValue::Number(bits) => SqlValue::Real(*bits),
            NotionPropertyValue::Boolean(b) => SqlValue::Boolean(*b),
            NotionPropertyValue::Json(value) => SqlValue::Text(to_text(value)),
        }
    }
}

/// The column names of the properties of a schema, each found by the name of its
/// property.
pub struct ColumnNames {
    hash: NameMap<String>,
}

impl ColumnNames {
    #[verifier::type_invariant]
    spec fn columns_are_escaped(&self) -> bool {
        forall|i: int|
            0 <= i < self.hash.entries().len() ==> (#[trigger] self.hash.entries()[i]).1@
                == escape_quotes(self.hash.entries()[i].0)
    }

    /// The names of the properties that have a column name here.
    pub closed spec fn names(&self) -> Seq<Seq<char>> {
        self.hash.keys()
    }

    /// Whether the property `name` has a column name here.
    pub open spec fn knows(&self, name: Seq<char>) -> bool {
        self.names().contains(name)
    }

    /// The column name that is held for the property `name`.
    pub closed spec fn column_of(&self, name: Seq<char>) -> Seq<char>
        recommends
            self.knows(name),
    {
        lookup(self.hash.entries(), name).unwrap()@
    }

    /// The column names for the properties of `schema`: one for each name that a
    /// property of the schema has, which is that name with its double quotes
    /// written twice.
    pub fn new(schema: &NotionDatabaseSchema) -> (r: ColumnNames)
        ensures
            forall|name: Seq<char>| r.knows(name) <==> has_property(schema@, name),
            forall|name: Seq<char>|
                r.knows(name) ==> #[trigger] r.column_of(name) == escape_quotes(name),
    {
        let mut hash: NameMap<String> = NameMap::new();
        let count = schema.properties.len();
        let mut i: usize = 0;
        while i < count
            invariant
                i <= count,
                count == schema.properties.entries().len(),
                forall|j: int|
                    0 <= j < hash.entries().len() ==> (#[trigger] hash.entries()[j]).1@
                        == escape_quotes(hash.entries()[j].0),
                forall|j: int|
                    0 <= j < hash.entries().len() ==> has_property(
                        schema@,
                        (#[trigger] hash.entries()[j]).0,
                    ),
                forall|k: int|
                    0 <= k < i ==> hash.keys().contains((#[trigger] schema@[k]).1.name),
            decreases count - i,
        {
            let property = schema.properties.value_at(i);
            let column = escape(property.name.as_str());
            let ghost before = hash.entries();
            let ghost name = property.name@;
            proof {
                lemma_position(names_of(before), name);
                assert(schema@[i as int].1.name == name);
            }
            hash.insert(property.name.clone(), column);
            proof {
                let after = hash.entries();
                let at = match position(names_of(before), name) {
                    Some(p) => p,
                    None => before.len() as int,
                };
                assert(names_of(after)[at] == name);
                assert forall|k: int| 0 <= k < i + 1 implies hash.keys().contains(
                    (#[trigger] schema@[k]).1.name,
                ) by {
                    if k < i {
                        let other = schema@[k].1.name;
                        assert(names_of(before).contains(other));
                        let j = choose|j: int|
                            0 <= j < names_of(before).len() && names_of(before)[j] == other;
                        assert(names_of(after)[j] == other);
                    }
                }
            }
            i += 1;
        }
        let r = ColumnNames { hash };
        proof {
            assert forall|name: Seq<char>| r.knows(name) <==> has_property(schema@, name) by {
                if r.knows(name) {
                    let j = choose|j: int| 0 <= j < r.names().len() && r.names()[j] == name;
                    assert(hash.entries()[j].0 == name);
                }
                if has_property(schema@, name) {
                    let k = choose|k: int|
                        0 <= k < schema@.len() && (#[trigger] schema@[k]).1.name == name;
                    assert(hash.keys().contains(schema@[k].1.name));
                }
            }
            assert forall|name: Seq<char>| r.knows(name) implies #[trigger] r.column_of(name)
                == escape_quotes(name) by {
                lemma_position(r.names(), name);
                let at = position(r.names(), name).unwrap();
                assert(hash.entries()[at].0 == name);
            }
        }
        r
    }

    /// Whether the property `name` has a column name here.
    pub fn has(&self, name: &str) -> (r: bool)
        ensures
            r == self.knows(name@),
    {
        proof {
            lemma_position(self.hash.keys(), name@);
        }
        self.hash.contains_key(name)
    }

    /// The column name of the property `notion_property_name`.
    pub fn resolve(&self, notion_property_name: &str) -> (r: &str)
        requires
            self.knows(notion_property_name@),
        ensures
            r@ == self.column_of(notion_property_name@),
            r@ == escape_quotes(notion_property_name@),
    {
        proof {
            use_type_invariant(self);
            lemma_position(self.hash.keys(), notion_property_name@);
        }
        match self.hash.get(notion_property_name) {
            Some(column) => column.as_str(),
            None => unreached(),
        }
    }
}

/// Writes the statements that set up the two tables for a schema and that store
/// a page in them.
pub struct Sqlite<'a> {
    schema: &'a NotionDatabaseSchema,
    column_names: ColumnNames,
}

impl<'a> Sqlite<'a> {
    #[verifier::type_invariant]
    spec fn columns_are_known(&self) -> bool {
        forall|name: Seq<char>| self.column_names.knows(name) <==> has_property(self.schema@, name)
    }

    /// The schema that the tables are made for.
    pub closed spec fn schema(&self) -> NotionDatabaseSchema {
        *self.schema
    }

    /// Whether every property of `page` has a column.
    pub open spec fn has_columns_for(&self, page: PageModel) -> bool {
        forall|i: int|
            0 <= i < page.properties.len() ==> has_property(
                self.schema()@,
                (#[trigger] page.properties[i]).0,
            )
    }

    /// A writer of statements for `schema`.
    pub fn new(schema: &'a NotionDatabaseSchema) -> (r: Sqlite<'a>)
        ensures
            r.schema() == *schema,
    {
        let column_names = ColumnNames::new(schema);
        Sqlite { schema, column_names }
    }

    /// The column type for a kind of property.
    fn data_type(kind: NotionPropertyType) -> (r: &'static str)
        ensures
            r@ == sql_type(kind),
    {
        if kind == NotionPropertyType::Number {
            "REAL"
        } else {
            "TEXT"
        }
    }

    /// The definitions of the property columns, separated by commas.
    pub fn table_definitin_from(&self) -> (r: String)
        ensures
            r@ == table_definition(self.schema()@),
    {
        proof {
            use_type_invariant(self);
        }
        let ghost schema = self.schema@;
        let count = self.schema.properties.len();
        let mut definitions: Vec<String> = Vec::new();
        let mut i: usize = 0;
        while i < count
            invariant
                i <= count,
                count == self.schema.properties.entries().len(),
                schema == self.schema@,
                forall|name: Seq<char>|
                    self.column_names.knows(name) <==> has_property(self.schema@, name),
                texts_of(definitions@) == column_definitions(schema).take(i as int),
            decreases count - i,
        {
            let property = self.schema.properties.value_at(i);
            assert(schema[i as int].1 == property@);
            let column = self.column_names.resolve(property.name.as_str());
            let mut definition = String::new();
            definition.push('"');
            definition.append(column);
            definition.push('"');
            definition.push(' ');
            definition.append(Self::data_type(property.property_type));
            assert(definition@ =~= column_definition(property@));
            let ghost before = texts_of(definitions@);
            definitions.push(definition);
            assert(texts_of(definitions@) =~= before.push(definition@));
            assert(column_definitions(schema).take(i + 1) =~= column_definitions(schema).take(
                i as int,
            ).push(column_definition(property@)));
            i += 1;
        }
        assert(column_definitions(schema).take(i as int) == column_definitions(schema));
        join_strings(&definitions, ", ")
    }

    /// The statements that create the two tables, in the order in which they are
    /// to be run: first the properties table, with the id column and one column
    /// for each property of the schema, then the metadata table.
    pub fn create_tables(&self) -> (r: Vec<Statement>)
        ensures
            statements_model(r@) == seq![
                (StatementModel { sql: properties_table_sql(self.schema()@), params: Seq::empty() }),
                (StatementModel { sql: metadata_table_sql(), params: Seq::empty() }),
            ],
    {
        let table_definition = self.table_definitin_from();
        let mut id_column = String::from_str(PAGE_ID_COLUMN);
        id_column.append(" TEXT PRIMARY KEY");
        let mut sql = String::from_str("CREATE TABLE ");
        sql.append(PAGE_PROPERTIES_TABLE);
        sql.append(" (\n                ");
        sql.append(id_column.as_str());
        sql.append(",\n                ");
        sql.append(table_definition.as_str());
        sql.append("\n            )");
        let properties_table = Statement { sql, params: Vec::new() };
        assert(properties_table@.params =~= Seq::empty());

        let mut sql = String::from_str("CREATE TABLE ");
        sql.append(PAGE_METADATA_TABLE);
        sql.append(
            " (\n                id TEXT PRIMARY KEY,\n                url TEXT,\n                created_time TEXT,\n                created_by JSON,\n                last_edited_time TEXT,\n                last_edited_by JSON,\n                archived BOOLEAN\n            )",
        );
        let metadata_table = Statement { sql, params: Vec::new() };
        assert(metadata_table@.params =~= Seq::empty());

        let r = vec![properties_table, metadata_table];
        assert(statements_model(r@) =~= seq![properties_table@, metadata_table@]);
        r
    }

    /// Whether every property of `page` has a column, so that the page can be
    /// stored.
    pub fn accepts(&self, page: &NotionPage) -> (r: bool)
        ensures
            r == self.has_columns_for(page@),
    {
        proof {
            use_type_invariant(self);
        }
        let count = page.properties.len();
        let mut i: usize = 0;
        while i < count
            invariant
                i <= count,
                count == page.properties.entries().len(),
                forall|name: Seq<char>|
                    self.column_names.knows(name) <==> has_property(self.schema@, name),
                forall|j: int|
                    0 <= j < i ==> has_property(self.schema@, (#[trigger] page@.properties[j]).0),
            decreases count - i,
        {
            let name = page.properties.key_at(i);
            assert(page@.properties[i as int].0 == name@);
            if !self.column_names.has(name.as_str()) {
                return false;
            }
            i += 1;
        }
        true
    }

    /// The text of the statement that writes the property values of `page`.
    pub fn create_insert_sql_for(&self, page: &NotionPage) -> (r: String)
        requires
            self.has_columns_for(page@),
        ensures
            r@ == properties_insert_sql(names_of(page@.properties)),
    {
        proof {
            use_type_invariant(self);
        }
        let ghost names = names_of(page@.properties);
        let count = page.properties.len();
        let mut columns: Vec<String> = Vec::new();
        columns.push(String::from_str(PAGE_ID_COLUMN));
        let mut values: Vec<String> = Vec::new();
        let mut first = String::new();
        first.push('?');
        first.append(decimal_string(1).as_str());
        values.push(first);
        assert(texts_of(columns@) =~= insert_columns(names.take(0)));
        assert(texts_of(values@) =~= placeholders(1));
        let mut i: usize = 0;
        while i < count
            invariant
                i <= count,
                count == page.properties.entries().len(),
                names == names_of(page@.properties),
                self.has_columns_for(page@),
                forall|name: Seq<char>|
                    self.column_names.knows(name) <==> has_property(self.schema@, name),
                texts_of(columns@) == insert_columns(names.take(i as int)),
                texts_of(values@) == placeholders((i + 1) as nat),
            decreases count - i,
        {
            let name = page.properties.key_at(i);
            assert(page@.properties[i as int].0 == name@);
            assert(names[i as int] == name@);
            let mut column = String::new();
            column.push('"');
            column.append(self.column_names.resolve(name.as_str()));
            column.push('"');
            assert(column@ =~= quoted(name@));
            let ghost columns_before = texts_of(columns@);
            columns.push(column);
            assert(texts_of(columns@) =~= columns_before.push(quoted(name@)));
            assert(insert_columns(names.take(i + 1)) =~= insert_columns(names.take(i as int)).push(
                quoted(name@),
            ));

            let mut value = String::new();
            value.push('?');
            value.append(decimal_string(i as u128 + 2).as_str());
            assert(value@ =~= placeholder((i + 2) as nat));
            let ghost values_before = texts_of(values@);
            values.push(value);
            assert(texts_of(values@) =~= values_before.push(placeholder((i + 2) as nat)));
            assert(placeholders((i + 2) as nat) =~= placeholders((i + 1) as nat).push(
                placeholder((i + 2) as nat),
            ));
            i += 1;
        }
        assert(names.take(i as int) == names);
        let mut sql = String::from_str("INSERT INTO ");
        sql.append(PAGE_PROPERTIES_TABLE);
        sql.append(" (");
        sql.append(join_strings(&columns, ", ").as_str());
        sql.append(") VALUES (");
        sql.append(join_strings(&values, ", ").as_str());
        sql.append(")");
        sql
    }

    /// The statements that store `page`, in the order in which they are to be
    /// run: first the row of the properties table, which names the id column and
    /// the columns of the properties that the page has, and no others; then the
    /// row of the metadata table. Every value is bound to a placeholder.
    pub fn insert(&self, page: &NotionPage) -> (r: Vec<Statement>)
        requires
            self.has_columns_for(page@),
        ensures
            statements_model(r@) == seq![properties_insert(page@), metadata_insert(page@)],
    {
        let sql = self.create_insert_sql_for(page);
        let count = page.properties.len();
        let mut params: Vec<SqlValue> = Vec::new();
        params.push(SqlValue::Text(page.id.clone()));
        let ghost stored = page@.properties.map_values(|e: (Seq<char>, ValueModel)| sql_value(e.1));
        let ghost id = seq![SqlValueModel::Text(page.id@)];
        assert(params@.map_values(|p: SqlValue| p@) =~= id + stored.take(0));
        let mut i: usize = 0;
        while i < count
            invariant
                i <= count,
                count == page.properties.entries().len(),
                stored == page@.properties.map_values(|e: (Seq<char>, ValueModel)| sql_value(e.1)),
                id == seq![SqlValueModel::Text(page.id@)],
                params@.map_values(|p: SqlValue| p@) == id + stored.take(i as int),
            decreases count - i,
        {
            let value = page.properties.value_at(i).to_sql();
            let ghost before = params@.map_values(|p: SqlValue| p@);
            params.push(value);
            assert(params@.map_values(|p: SqlValue| p@) =~= before.push(value@));
            assert(stored[i as int] == value@);
            assert(id + stored.take(i + 1) =~= (id + stored.take(i as int)).push(value@));
            i += 1;
        }
        assert(stored.take(i as int) == stored);
        let properties_row = Statement { sql, params };

        let mut sql = String::from_str("INSERT INTO ");
        sql.append(PAGE_METADATA_TABLE);
        sql.append(
            " (\n                id,\n                url,\n                created_time,\n                created_by,\n                last_edited_time,\n                last_edited_by,\n                archived\n            ) VALUES (?1, ?2, ?3, ?4, ?5, ?6, ?7)",
        );
        let params = vec![
            SqlValue::Text(page.id.clone()),
            SqlValue::Text(page.url.clone()),
            SqlValue::Text(page.created_time.clone()),
            SqlValue::Text(to_text(&page.created_by)),
            SqlValue::Text(page.last_edited_time.clone()),
            SqlValue::Text(to_text(&page.last_edited_by)),
            SqlValue::Boolean(page.archived),
        ];
        let metadata_row = Statement { sql, params };
        assert(metadata_row@.params =~= metadata_insert(page@).params);

        let r = vec![properties_row, metadata_row];
        assert(statements_model(r@) =~= seq![properties_row@, metadata_row@]);
        r
    }
}

/// The statement that creates the properties table defines a column for every
/// property of the schema: under the property's name as a quoted identifier, with
/// the type of the property's kind.
pub proof fn lemma_table_has_a_column_for_each_property(schema: SchemaModel, i: int)
    requires
        0 <= i < schema.len(),
    ensures
        occurs_in(column_definition(schema[i].1), properties_table_sql(schema)),
{
    lemma_join_holds_each(column_definitions(schema), ", "@, i);
    lemma_occurs_in_longer(
        column_definition(schema[i].1),
        table_definition(schema),
        "CREATE TABLE "@ + PAGE_PROPERTIES_TABLE@ + " (\n                "@
            + id_column_definition() + ",\n                "@,
        "\n            )"@,
    );
}

/// The statement that creates the properties table defines the id column as the
/// primary key, whatever the schema.
pub proof fn lemma_table_has_the_id_column(schema: SchemaModel)
    ensures
        occurs_in(id_column_definition(), properties_table_sql(schema)),
{
    lemma_occurs_in_itself(id_column_definition());
    let before = "CREATE TABLE "@ + PAGE_PROPERTIES_TABLE@ + " (\n                "@;
    let behind = ",\n                "@ + table_definition(schema) + "\n            )"@;
    lemma_occurs_in_longer(id_column_definition(), id_column_definition(), before, behind);
    assert(before + id_column_definition() + behind =~= properties_table_sql(schema));
}

/// The statement that stores the property values of a page names the column of
/// every property that the page has, as a quoted identifier.
pub proof fn lemma_insert_names_each_property(names: Seq<Seq<char>>, i: int)
    requires
        0 <= i < names.len(),
    ensures
        occurs_in(quoted(names[i]), properties_insert_sql(names)),
{
    let columns = insert_columns(names);
    assert(columns[i + 1] == quoted(names[i]));
    lemma_join_holds_each(columns, ", "@, i + 1);
    let before = "INSERT INTO "@ + PAGE_PROPERTIES_TABLE@ + " ("@;
    let behind = ") VALUES ("@ + join(placeholders(names.len() + 1), ", "@) + ")"@;
    lemma_occurs_in_longer(quoted(names[i]), join(columns, ", "@), before, behind);
    assert(before + join(columns, ", "@) + behind =~= properties_insert_sql(names));
}

/// The statement that stores the property values of a page names no column of a
/// property that the page does not have: such a column is left to the store's
/// default.
pub proof fn lemma_insert_names_no_other_property(names: Seq<Seq<char>>, other: Seq<char>)
    requires
        !names.contains(other),
    ensures
        forall|i: int|
            1 <= i < insert_columns(names).len() ==> #[trigger] insert_columns(names)[i] != quoted(
                other,
            ),
{
    assert forall|i: int| 1 <= i < insert_columns(names).len() implies #[trigger] insert_columns(
        names,
    )[i] != quoted(other) by {
        let name = names[i - 1];
        assert(insert_columns(names)[i] == quoted(name));
        assert(names.contains(name));
        if quoted(name) == quoted(other) {
            assert(quoted(name).subrange(1, quoted(name).len() - 1) =~= escape_quotes(name));
            assert(quoted(other).subrange(1, quoted(other).len() - 1) =~= escape_quotes(other));
            lemma_escape_is_injective(name, other);
        }
    }
}

/// The statement that stores the property values of a page has as many
/// placeholders as columns, and a value for each.
pub proof fn lemma_insert_is_balanced(page: PageModel)
    ensures
        insert_columns(names_of(page.properties)).len() == page.properties.len() + 1,
        placeholders(names_of(page.properties).len() + 1).len() == page.properties.len() + 1,
        properties_insert(page).params.len() == page.properties.len() + 1,
{
}

/// A page that was read by a schema in which every property stands under its own
/// name has a column for each of its properties in the tables of that schema.
pub proof fn lemma_pages_of_a_schema_have_columns(schema: SchemaModel, item: JsonDoc)
    requires
        is_keyed_by_name(schema),
        page_of(schema, item) is Some,
    ensures
        forall|i: int|
            0 <= i < page_of(schema, item)->0.properties.len() ==> has_property(
                schema,
                (#[trigger] page_of(schema, item)->0.properties[i]).0,
            ),
{
    let raw = members_under(item, "properties"@).unwrap();
    let properties = page_of(schema, item)->0.properties;
    assert forall|i: int| 0 <= i < properties.len() implies has_property(
        schema,
        (#[trigger] properties[i]).0,
    ) by {
        lemma_page_properties_known(schema, raw, i);
        lemma_position(names_of(schema), properties[i].0);
        let at = position(names_of(schema), properties[i].0).unwrap();
        assert(schema[at].0 == properties[i].0);
    }
}

} // verus!
