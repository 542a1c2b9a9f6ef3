use notion_into_sqlite::name_map::NameMap;
use notion_into_sqlite::notion_database::{parse_database_schema, NotionDatabaseSchema};
use notion_into_sqlite::notion_pages::{NotionPage, NotionPropertyValue};
use notion_into_sqlite::sqlite::{
    ColumnNames, SqlValue, Sqlite, Statement, PAGE_ID_COLUMN, PAGE_METADATA_TABLE,
    PAGE_PROPERTIES_TABLE,
};
use rusqlite::{params_from_iter, Connection};

const NOTION_DATABASE_JSON: &str = r#"
{
    "object": "database",
    "id": "f2bf4cd7-b8d1-44fc-856e-8fe60c128b58",
    "cover": null,
    "icon": null,
    "created_time": "2022-03-12T00:15:00.000Z",
    "created_by": {
        "object": "user",
        "id": "9d069f8b-6223-4853-b7eb-8fe3dfe7d389"
    },
    "last_edited_by": {
        "object": "user",
        "id": "9d069f8b-6223-4853-b7eb-8fe3dfe7d389"
    },
    "last_edited_time": "2022-03-12T00:20:00.000Z",
    "title": [
        {
            "type": "text",
            "text": {
                "content": "Animals",
                "link": null
            },
            "annotations": {
                "bold": false,
                "italic": false,
                "strikethrough": false,
                "underline": false,
                "code": false,
                "color": "default"
            },
            "plain_text": "Animals",
            "href": null
        }
    ],
    "properties": {
        "Age": {
            "id": "GPCK",
            "name": "Age",
            "type": "number",
            "number": {
                "format": "number"
            }
        },
        "Animal": {
            "id": "wzVU",
            "name": "Animal",
            "type": "select",
            "select": {
                "options": [
                    {
                        "id": "67fe1cf3-29f8-4cb7-9517-803e1d975e86",
                        "name": "cat",
                        "color": "green"
                    },
                    {
                        "id": "18ce9dcd-b7e1-4511-ad35-9420c0399e13",
                        "name": "dog",
                        "color": "orange"
                    }
                ]
            }
        },
        "Name": {
            "id": "title",
            "name": "Name",
            "type": "title",
            "title": {}
        }
    }
}
"#;

const NOTION_DATABASE_IRREGULAR_JSON: &str = r#"
{
  "object": "database",
  "id": "f2bf4cd7-b8d1-44fc-856e-8fe60c128b58",
  "cover": null,
  "icon": null,
  "created_time": "2022-03-12T00:15:00.000Z",
  "created_by": {
      "object": "user",
      "id": "9d069f8b-6223-4853-b7eb-8fe3dfe7d389"
  },
  "last_edited_by": {
      "object": "user",
      "id": "9d069f8b-6223-4853-b7eb-8fe3dfe7d389"
  },
  "last_edited_time": "2022-03-12T00:20:00.000Z",
  "title": [
      {
          "type": "text",
          "text": {
              "content": "Animals",
              "link": null
          },
          "annotations": {
              "bold": false,
              "italic": false,
              "strikethrough": false,
              "underline": false,
              "code": false,
              "color": "default"
          },
          "plain_text": "Animals",
          "href": null
      }
  ],
  "properties": {
      "あ&\";#' f　_": {
          "id": "GPCK",
          "name": "あ&\";#' f　_",
          "type": "number",
          "number": {
              "format": "number"
          }
      }
  }
}
"#;

fn schema_of(text: &str) -> NotionDatabaseSchema {
    let json = serde_json::from_str::<serde_json::Value>(text).unwrap();
    parse_database_schema(&json).unwrap()
}

fn bound(value: &SqlValue) -> rusqlite::types::Value {
    match value {
        SqlValue::Text(s) => rusqlite::types::Value::Text(s.clone()),
        SqlValue::Real(bits) => rusqlite::types::Value::Real(f64::from_bits(*bits)),
        SqlValue::Boolean(b) => rusqlite::types::Value::Integer(*b as i64),
    }
}

fn run(conn: &Connection, statements: &[Statement]) {
    for statement in statements {
        conn.execute(&statement.sql, params_from_iter(statement.params.iter().map(bound)))
            .unwrap();
    }
}

fn page_xxxx() -> NotionPage {
    let mut properties = NameMap::new();
    properties.insert("Name".to_string(), NotionPropertyValue::Text("Meu".to_string()));
    properties.insert("Age".to_string(), NotionPropertyValue::Number(5.0f64.to_bits()));
    NotionPage {
        id: "xxxx".to_string(),
        properties,
        url: "https://www.notion.so/xxxx".to_string(),
        created_time: "2022-03-12T00:15:00.000Z".to_string(),
        created_by: serde_json::from_str(
            r#"{
            "object": "user",
            "id": "9d069f8b-6223-4853-b7eb-8fe3dfe7d389"
        }"#,
        )
        .unwrap(),
        last_edited_time: "2022-03-12T00:16:00.000Z".to_string(),
        last_edited_by: serde_json::from_str(
            r#"{
            "object": "user",
            "id": "9d069f8b-6223-4853-b7eb-8fe3dfe7d389"
        }"#,
        )
        .unwrap(),
        archived: false,
    }
}

#[test]
fn it_creates_tables() {
    let conn = Connection::open_in_memory().unwrap();
    let schema = schema_of(NOTION_DATABASE_JSON);
    let sqlite = Sqlite::new(&schema);
    run(&conn, &sqlite.create_tables());

    let table_def_sql: String = conn
        .query_row(
            "SELECT sql FROM sqlite_master where name=?1",
            [PAGE_PROPERTIES_TABLE],
            |row| row.get(0),
        )
        .unwrap();
    assert!(table_def_sql.contains(&format!(
        "{id_column} TEXT PRIMARY KEY",
        id_column = PAGE_ID_COLUMN
    )));
    assert!(table_def_sql.contains(r#""Name" TEXT"#));
    assert!(table_def_sql.contains(r#""Animal" TEXT"#));
    assert!(table_def_sql.contains(r#""Age" REAL"#));

    let table_def_sql: String = conn
        .query_row(
            "SELECT sql FROM sqlite_master where name=?1",
            [PAGE_METADATA_TABLE],
            |row| row.get(0),
        )
        .unwrap();
    assert!(table_def_sql.contains(r#"url TEXT"#));
}

#[test]
fn it_creates_table_when_column_name_includes_double_quote() {
    let conn = Connection::open_in_memory().unwrap();
    let schema = schema_of(NOTION_DATABASE_IRREGULAR_JSON);
    let sqlite = Sqlite::new(&schema);
    run(&conn, &sqlite.create_tables());

    let (table_name, sql): (String, String) = conn
        .query_row("SELECT name, sql FROM sqlite_master", [], |row| {
            Ok((row.get(0)?, row.get(1)?))
        })
        .unwrap();
    assert_eq!(table_name, PAGE_PROPERTIES_TABLE);
    assert!(sql.contains(r#""あ&"";#' f　_" REAL"#));
}

#[test]
fn it_inserts_notion_entry() {
    let conn = Connection::open_in_memory().unwrap();
    let schema = schema_of(NOTION_DATABASE_JSON);
    let sqlite = Sqlite::new(&schema);
    run(&conn, &sqlite.create_tables());

    let page = page_xxxx();
    assert!(sqlite.accepts(&page));
    run(&conn, &sqlite.insert(&page));

    let (page_id, name, age): (String, String, f64) = conn
        .query_row(
            format!(
                r#"SELECT page_id,"Name","Age" from {table_name}"#,
                table_name = PAGE_PROPERTIES_TABLE
            )
            .as_str(),
            [],
            |row| Ok((row.get(0)?, row.get(1)?, row.get(2)?)),
        )
        .unwrap();
    assert_eq!(page_id, "xxxx");
    assert_eq!(name, "Meu");
    assert_eq!(age, 5.0);

    let (page_id, url, created_time, created_by): (String, String, String, String) = conn
        .query_row(
            format!(
                r#"SELECT id, url, created_time, created_by from {table_name}"#,
                table_name = PAGE_METADATA_TABLE
            )
            .as_str(),
            [],
            |row| Ok((row.get(0)?, row.get(1)?, row.get(2)?, row.get(3)?)),
        )
        .unwrap();
    assert_eq!(page_id, "xxxx");
    assert_eq!(url, "https://www.notion.so/xxxx");
    assert_eq!(created_time, "2022-03-12T00:15:00.000Z");
    assert!(serde_json::from_str::<serde_json::Value>(&created_by).is_ok());
}

#[test]
fn a_column_that_the_page_omits_stays_null() {
    let conn = Connection::open_in_memory().unwrap();
    let schema = schema_of(NOTION_DATABASE_JSON);
    let sqlite = Sqlite::new(&schema);
    run(&conn, &sqlite.create_tables());
    run(&conn, &sqlite.insert(&page_xxxx()));

    let (name, animal): (String, Option<String>) = conn
        .query_row(r#"SELECT "Name", "Animal" from pages"#, [], |row| {
            Ok((row.get(0)?, row.get(1)?))
        })
        .unwrap();
    assert_eq!(name, "Meu");
    assert_eq!(animal, None);

    let (last_edited_time, last_edited_by, archived): (String, String, bool) = conn
        .query_row(
            "SELECT last_edited_time, last_edited_by, archived from page_metadata",
            [],
            |row| Ok((row.get(0)?, row.get(1)?, row.get(2)?)),
        )
        .unwrap();
    assert_eq!(last_edited_time, "2022-03-12T00:16:00.000Z");
    assert_eq!(
        last_edited_by,
        r#"{"id":"9d069f8b-6223-4853-b7eb-8fe3dfe7d389","object":"user"}"#
    );
    assert!(!archived);
}

#[test]
fn the_statements_that_create_the_tables_are_exact() {
    let schema = schema_of(NOTION_DATABASE_JSON);
    let sqlite = Sqlite::new(&schema);
    assert_eq!(sqlite.table_definitin_from(), r#""Age" REAL, "Animal" TEXT, "Name" TEXT"#);
    let statements = sqlite.create_tables();
    assert_eq!(statements.len(), 2);
    assert_eq!(
        statements[0].sql,
        "CREATE TABLE pages (
                page_id TEXT PRIMARY KEY,
                \"Age\" REAL, \"Animal\" TEXT, \"Name\" TEXT
            )"
    );
    assert!(statements[0].params.is_empty());
    assert_eq!(
        statements[1].sql,
        "CREATE TABLE page_metadata (
                id TEXT PRIMARY KEY,
                url TEXT,
                created_time TEXT,
                created_by JSON,
                last_edited_time TEXT,
                last_edited_by JSON,
                archived BOOLEAN
            )"
    );
    assert!(statements[1].params.is_empty());
}

#[test]
fn the_statements_that_store_a_page_are_exact() {
    let schema = schema_of(NOTION_DATABASE_JSON);
    let sqlite = Sqlite::new(&schema);
    let page = page_xxxx();
    assert_eq!(
        sqlite.create_insert_sql_for(&page),
        r#"INSERT INTO pages (page_id, "Name", "Age") VALUES (?1, ?2, ?3)"#
    );
    let statements = sqlite.insert(&page);
    assert_eq!(statements.len(), 2);
    assert_eq!(
        statements[0].sql,
        r#"INSERT INTO pages (page_id, "Name", "Age") VALUES (?1, ?2, ?3)"#
    );
    assert_eq!(
        statements[0].params,
        vec![
            SqlValue::Text("xxxx".to_string()),
            SqlValue::Text("Meu".to_string()),
            SqlValue::Real(5.0f64.to_bits()),
        ]
    );
    assert_eq!(
        statements[1].sql,
        "INSERT INTO page_metadata (
                id,
                url,
                created_time,
                created_by,
                last_edited_time,
                last_edited_by,
                archived
            ) VALUES (?1, ?2, ?3, ?4, ?5, ?6, ?7)"
    );
    let user = r#"{"id":"9d069f8b-6223-4853-b7eb-8fe3dfe7d389","object":"user"}"#;
    assert_eq!(
        statements[1].params,
        vec![
            SqlValue::Text("xxxx".to_string()),
            SqlValue::Text("https://www.notion.so/xxxx".to_string()),
            SqlValue::Text("2022-03-12T00:15:00.000Z".to_string()),
            SqlValue::Text(user.to_string()),
            SqlValue::Text("2022-03-12T00:16:00.000Z".to_string()),
            SqlValue::Text(user.to_string()),
            SqlValue::Boolean(false),
        ]
    );
}

#[test]
fn a_page_without_properties_names_the_id_column_alone() {
    let schema = schema_of(NOTION_DATABASE_JSON);
    let sqlite = Sqlite::new(&schema);
    let mut page = page_xxxx();
    page.properties = NameMap::new();
    let statements = sqlite.insert(&page);
    assert_eq!(statements[0].sql, "INSERT INTO pages (page_id) VALUES (?1)");
    assert_eq!(statements[0].params, vec![SqlValue::Text("xxxx".to_string())]);
}

#[test]
fn placeholders_are_numbered_in_decimal() {
    let mut definitions = String::new();
    let mut properties = NameMap::new();
    for i in 0..11 {
        if i > 0 {
            definitions.push_str(", ");
        }
        definitions.push_str(&format!(r#""p{}": {{"name": "p{}", "type": "checkbox"}}"#, i, i));
        properties.insert(format!("p{}", i), NotionPropertyValue::Boolean(i % 2 == 0));
    }
    let schema = schema_of(&format!(
        r#"{{"object": "database", "properties": {{{}}}}}"#,
        definitions
    ));
    let sqlite = Sqlite::new(&schema);
    let mut page = page_xxxx();
    page.properties = properties;
    assert_eq!(
        sqlite.create_insert_sql_for(&page),
        r#"INSERT INTO pages (page_id, "p0", "p1", "p2", "p3", "p4", "p5", "p6", "p7", "p8", "p9", "p10") VALUES (?1, ?2, ?3, ?4, ?5, ?6, ?7, ?8, ?9, ?10, ?11, ?12)"#
    );
    assert_eq!(sqlite.insert(&page)[0].params[1], SqlValue::Boolean(true));
    assert_eq!(sqlite.insert(&page)[0].params[2], SqlValue::Boolean(false));
}

#[test]
fn a_double_quote_in_a_name_is_written_twice() {
    let schema = schema_of(
        r#"{"object": "database", "properties": {"k": {"name": "a\"b", "type": "title"}}}"#,
    );
    let names = ColumnNames::new(&schema);
    assert!(names.has("a\"b"));
    assert!(!names.has("k"));
    assert_eq!(names.resolve("a\"b"), "a\"\"b");

    let sqlite = Sqlite::new(&schema);
    assert_eq!(sqlite.table_definitin_from(), r#""a""b" TEXT"#);
    assert!(sqlite.create_tables()[0].sql.contains(r#""a""b" TEXT"#));

    let mut page = page_xxxx();
    page.properties = NameMap::new();
    page.properties
        .insert("a\"b".to_string(), NotionPropertyValue::Text("v".to_string()));
    assert_eq!(
        sqlite.insert(&page)[0].sql,
        r#"INSERT INTO pages (page_id, "a""b") VALUES (?1, ?2)"#
    );

    let conn = Connection::open_in_memory().unwrap();
    run(&conn, &sqlite.create_tables());
    run(&conn, &sqlite.insert(&page));
    let stored: String = conn
        .query_row(r#"SELECT "a""b" from pages"#, [], |row| row.get(0))
        .unwrap();
    assert_eq!(stored, "v");
}

#[test]
fn a_page_with_a_property_that_has_no_column_is_not_accepted() {
    let schema = schema_of(NOTION_DATABASE_JSON);
    let sqlite = Sqlite::new(&schema);
    let mut page = page_xxxx();
    assert!(sqlite.accepts(&page));
    page.properties
        .insert("Weight".to_string(), NotionPropertyValue::Number(1.0f64.to_bits()));
    assert!(!sqlite.accepts(&page));
}

#[test]
fn a_value_is_stored_as_its_kind_asks() {
    assert_eq!(
        NotionPropertyValue::Text("t".to_string()).to_sql(),
        SqlValue::Text("t".to_string())
    );
    assert_eq!(
        NotionPropertyValue::Number(2.5f64.to_bits()).to_sql(),
        SqlValue::Real(2.5f64.to_bits())
    );
    assert_eq!(NotionPropertyValue::Boolean(true).to_sql(), SqlValue::Boolean(true));
    let document = serde_json::from_str::<serde_json::Value>(r#"{ "b": [1, 2.5, "x"], "a": null }"#)
        .unwrap();
    assert_eq!(
        NotionPropertyValue::Json(document).to_sql(),
        SqlValue::Text(r#"{"a":null,"b":[1,2.5,"x"]}"#.to_string())
    );
}
