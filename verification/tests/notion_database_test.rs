use notion_into_sqlite::error::NotionError;
use notion_into_sqlite::notion_database::{
    parse_database_schema, parse_property_type, validate_object_type, NotionPropertyType,
};

const NOTION_DATABASE_JSON: &str = r#"
{
    "object": "database",
    "id": "f2bf4cd7-b8d1-44fc-856e-8fe60c128b58",
    "cover": null,
    "icon": null,
    "created_time": "2022-03-12T00:15:00.000Z",
    "created_by": {
        "object": "user",
        "id": "9d069f8b-6223-4853-b7eb-8fe3dfe7d389"
    },
    "last_edited_by": {
        "object": "user",
        "id": "9d069f8b-6223-4853-b7eb-8fe3dfe7d389"
    },
    "last_edited_time": "2022-03-12T00:20:00.000Z",
    "title": [
        {
            "type": "text",
            "text": {
                "content": "Animals",
                "link": null
            },
            "annotations": {
                "bold": false,
                "italic": false,
                "strikethrough": false,
                "underline": false,
                "code": false,
                "color": "default"
            },
            "plain_text": "Animals",
            "href": null
        }
    ],
    "properties": {
        "Age": {
            "id": "GPCK",
            "name": "Age",
            "type": "number",
            "number": {
                "format": "number"
            }
        },
        "Animal": {
            "id": "wzVU",
            "name": "Animal",
            "type": "select",
            "select": {
                "options": [
                    {
                        "id": "67fe1cf3-29f8-4cb7-9517-803e1d975e86",
                        "name": "cat",
                        "color": "green"
                    },
                    {
                        "id": "18ce9dcd-b7e1-4511-ad35-9420c0399e13",
                        "name": "dog",
                        "color": "orange"
                    }
                ]
            }
        },
        "Name": {
            "id": "title",
            "name": "Name",
            "type": "title",
            "title": {}
        }
    }
}
"#;

const NOTION_DATABASE_ALL_TYPES_JSON: &str = r#"
{
  "object": "database",
  "id": "8a281474-f071-4c54-8afc-17d8a4b7c782",
  "cover": null,
  "icon": null,
  "created_time": "2022-03-21T02:39:00.000Z",
  "created_by": {
    "object": "user",
    "id": "9d069f8b-6223-4853-b7eb-8fe3dfe7d389"
  },
  "last_edited_by": {
    "object": "user",
    "id": "9d069f8b-6223-4853-b7eb-8fe3dfe7d389"
  },
  "last_edited_time": "2022-03-21T03:37:00.000Z",
  "title": [
    {
      "type": "text",
      "text": {
        "content": "All types",
        "link": null
      },
      "annotations": {
        "bold": false,
        "italic": false,
        "strikethrough": false,
        "underline": false,
        "code": false,
        "color": "default"
      },
      "plain_text": "All types",
      "href": null
    }
  ],
  "properties": {
    "Rollup": {
      "id": "%40%3FJb",
      "name": "Rollup",
      "type": "rollup",
      "rollup": {
        "rollup_property_name": "Age",
        "relation_property_name": "Relation",
        "rollup_property_id": "GPCK",
        "relation_property_id": "knfs",
        "function": "show_original"
      }
    },
    "URL": {
      "id": "CaK%5B",
      "name": "URL",
      "type": "url",
      "url": {}
    },
    "Select": {
      "id": "DSOY",
      "name": "Select",
      "type": "select",
      "select": {
        "options": [
          {
            "id": "4c10699d-c938-4267-b91e-105a84d2c2e2",
            "name": "option",
            "color": "orange"
          }
        ]
      }
    },
    "Phone": {
      "id": "IZjW",
      "name": "Phone",
      "type": "phone_number",
      "phone_number": {}
    },
    "LastEditedTime": {
      "id": "O%3E%3B%7D",
      "name": "LastEditedTime",
      "type": "last_edited_time",
      "last_edited_time": {}
    },
    "MultiSelect": {
      "id": "Pim~",
      "name": "MultiSelect",
      "type": "multi_select",
      "multi_select": {
        "options": [
          {
            "id": "e1cb1dee-ff1a-47ac-81c9-7ce174a9e448",
            "name": "multi",
            "color": "default"
          },
          {
            "id": "017e0af6-6e94-4f09-a43e-ce2131c81baa",
            "name": "select",
            "color": "brown"
          }
        ]
      }
    },
    "CreatedTime": {
      "id": "RRxv",
      "name": "CreatedTime",
      "type": "created_time",
      "created_time": {}
    },
    "Number": {
      "id": "SAc%3F",
      "name": "Number",
      "type": "number",
      "number": {
        "format": "number"
      }
    },
    "LastEditedBy": {
      "id": "SWLu",
      "name": "LastEditedBy",
      "type": "last_edited_by",
      "last_edited_by": {}
    },
    "Formula": {
      "id": "TzKS",
      "name": "Formula",
      "type": "formula",
      "formula": {
        "expression": "pi"
      }
    },
    "Files": {
      "id": "b%5Be%3F",
      "name": "Files",
      "type": "files",
      "files": {}
    },
    "Relation": {
      "id": "knfs",
      "name": "Relation",
      "type": "relation",
      "relation": {
        "database_id": "f2bf4cd7-b8d1-44fc-856e-8fe60c128b58",
        "synced_property_name": "Related to All types (Relation)",
        "synced_property_id": "JpOZ"
      }
    },
    "Date": {
      "id": "oVB%5B",
      "name": "Date",
      "type": "date",
      "date": {}
    },
    "RichText": {
      "id": "ozQm",
      "name": "RichText",
      "type": "rich_text",
      "rich_text": {}
    },
    "CreatedBy": {
      "id": "ppm%5E",
      "name": "CreatedBy",
      "type": "created_by",
      "created_by": {}
    },
    "Checkbox": {
      "id": "q%40Di",
      "name": "Checkbox",
      "type": "checkbox",
      "checkbox": {}
    },
    "Email": {
      "id": "zEAy",
      "name": "Email",
      "type": "email",
      "email": {}
    },
    "People": {
      "id": "%7BK%5D%60",
      "name": "People",
      "type": "people",
      "people": {}
    },
    "Name": {
      "id": "title",
      "name": "Name",
      "type": "title",
      "title": {}
    }
  },
  "parent": {
    "type": "page_id",
    "page_id": "5256af6e-80cc-4c63-a6f2-6fc9e4166239"
  },
  "url": "https://www.notion.so/8a281474f0714c548afc17d8a4b7c782",
  "archived": false
}
"#;

#[test]
fn it_parses_database_json() {
    let json = serde_json::from_str::<serde_json::Value>(NOTION_DATABASE_JSON).unwrap();
    let schema = parse_database_schema(&json).unwrap();
    let properties = schema.properties;
    assert_eq!(properties.len(), 3);

    let name_property = properties.get("Name").unwrap();
    assert_eq!(name_property.name, "Name");
    assert_eq!(name_property.property_raw_type, "title");
    assert_eq!(name_property.property_type, NotionPropertyType::Title);

    let age_property = properties.get("Age").unwrap();
    assert_eq!(age_property.name, "Age");
    assert_eq!(age_property.property_raw_type, "number");
    assert_eq!(age_property.property_type, NotionPropertyType::Number);

    let age_property = properties.get("Animal").unwrap();
    assert_eq!(age_property.name, "Animal");
    assert_eq!(age_property.property_raw_type, "select");
    assert_eq!(age_property.property_type, NotionPropertyType::Select);
}

#[test]
fn it_parses_database_json_with_all_property_types() {
    let json = serde_json::from_str::<serde_json::Value>(NOTION_DATABASE_ALL_TYPES_JSON).unwrap();
    let schema = parse_database_schema(&json).unwrap();
    let properties = schema.properties;
    assert_eq!(properties.len(), 19);
}

#[test]
fn test_parse_database_schema() {
    let json = serde_json::from_str::<serde_json::Value>(NOTION_DATABASE_JSON).unwrap();
    let schema = parse_database_schema(&json).unwrap();
    assert_eq!(schema.properties.len(), 3);
}

#[test]
fn notion_database_test_validate_object_type() {
    let data = r#"
        {
            "object": "database"
        }
        "#;
    let json = serde_json::from_str(data).unwrap();
    assert!(validate_object_type(&json).is_ok());

    let data = r#"
        {
            "object": "xxx"
        }
        "#;
    let json = serde_json::from_str(data).unwrap();
    assert!(validate_object_type(&json).is_err());

    let data = r#"
        {}
        "#;
    let json = serde_json::from_str(data).unwrap();
    assert!(validate_object_type(&json).is_err());
}

#[test]
fn notion_database_schema_test_validate_object_type() {
    let data = r#"
        {
            "object": "database"
        }
        "#;
    let json = serde_json::from_str(data).unwrap();
    assert_eq!(validate_object_type(&json).is_ok(), true);

    let data = r#"
        {
            "object": "xxx"
        }
        "#;
    let json = serde_json::from_str(data).unwrap();
    assert_eq!(validate_object_type(&json).is_err(), true);

    let data = r#"
        {}
        "#;
    let json = serde_json::from_str(data).unwrap();
    assert_eq!(validate_object_type(&json).is_err(), true);
}

#[test]
fn a_document_of_another_kind_is_no_schema() {
    let json = serde_json::from_str::<serde_json::Value>(
        r#"{"object": "list", "properties": {"Name": {"name": "Name", "type": "title"}}}"#,
    )
    .unwrap();
    assert_eq!(
        parse_database_schema(&json).unwrap_err(),
        NotionError::UnexpectedObjectKind(Some("list".to_string()))
    );

    let json = serde_json::from_str::<serde_json::Value>(r#"{"properties": {}}"#).unwrap();
    assert_eq!(
        parse_database_schema(&json).unwrap_err(),
        NotionError::UnexpectedObjectKind(None)
    );

    let json = serde_json::from_str::<serde_json::Value>(r#"{"object": 7, "properties": {}}"#)
        .unwrap();
    assert_eq!(
        parse_database_schema(&json).unwrap_err(),
        NotionError::UnexpectedObjectKind(None)
    );

    let json = serde_json::from_str::<serde_json::Value>(r#"["database"]"#).unwrap();
    assert_eq!(
        parse_database_schema(&json).unwrap_err(),
        NotionError::UnexpectedObjectKind(None)
    );
}

#[test]
fn a_database_without_properties_is_malformed() {
    let json = serde_json::from_str::<serde_json::Value>(r#"{"object": "database"}"#).unwrap();
    assert_eq!(parse_database_schema(&json).unwrap_err(), NotionError::MalformedSchema);

    let json =
        serde_json::from_str::<serde_json::Value>(r#"{"object": "database", "properties": []}"#)
            .unwrap();
    assert_eq!(parse_database_schema(&json).unwrap_err(), NotionError::MalformedSchema);
}

#[test]
fn definitions_without_name_or_type_are_passed_over() {
    let json = serde_json::from_str::<serde_json::Value>(
        r#"{"object": "database", "properties": {
            "A": {"name": "A", "type": "number"},
            "B": {"type": "number"},
            "C": {"name": "C"},
            "D": {"name": 1, "type": "number"},
            "E": "title",
            "F": {"name": "F", "type": "brand_new"}
        }}"#,
    )
    .unwrap();
    let schema = parse_database_schema(&json).unwrap();
    assert_eq!(schema.properties.len(), 2);
    assert_eq!(schema.properties.get("A").unwrap().property_type, NotionPropertyType::Number);
    let other = schema.properties.get("F").unwrap();
    assert_eq!(other.property_type, NotionPropertyType::Other);
    assert_eq!(other.property_raw_type, "brand_new");
    assert!(schema.properties.get("B").is_none());
    assert!(!schema.properties.contains_key("C"));
}

#[test]
fn a_property_stands_under_its_name_and_a_later_one_replaces_an_earlier() {
    let json = serde_json::from_str::<serde_json::Value>(
        r#"{"object": "database", "properties": {
            "k1": {"name": "Same", "type": "number"},
            "k2": {"name": "Same", "type": "title"},
            "k3": {"name": "Last", "type": "url"}
        }}"#,
    )
    .unwrap();
    let schema = parse_database_schema(&json).unwrap();
    assert_eq!(schema.properties.len(), 2);
    assert!(schema.properties.get("k1").is_none());
    assert_eq!(schema.properties.get("Same").unwrap().property_type, NotionPropertyType::Title);
    assert_eq!(schema.properties.key_at(0), "Same");
    assert_eq!(schema.properties.key_at(1), "Last");
}

#[test]
fn every_tag_has_its_kind() {
    assert_eq!(parse_property_type("rich_text"), NotionPropertyType::RichText);
    assert_eq!(parse_property_type("number"), NotionPropertyType::Number);
    assert_eq!(parse_property_type("select"), NotionPropertyType::Select);
    assert_eq!(parse_property_type("multi_select"), NotionPropertyType::MultiSelect);
    assert_eq!(parse_property_type("date"), NotionPropertyType::Date);
    assert_eq!(parse_property_type("formula"), NotionPropertyType::Formula);
    assert_eq!(parse_property_type("relation"), NotionPropertyType::Relation);
    assert_eq!(parse_property_type("rollup"), NotionPropertyType::Rollup);
    assert_eq!(parse_property_type("title"), NotionPropertyType::Title);
    assert_eq!(parse_property_type("people"), NotionPropertyType::People);
    assert_eq!(parse_property_type("files"), NotionPropertyType::Files);
    assert_eq!(parse_property_type("checkbox"), NotionPropertyType::Checkbox);
    assert_eq!(parse_property_type("url"), NotionPropertyType::Url);
    assert_eq!(parse_property_type("email"), NotionPropertyType::Email);
    assert_eq!(parse_property_type("phone_number"), NotionPropertyType::PhoneNumber);
    assert_eq!(parse_property_type("created_time"), NotionPropertyType::CreatedTime);
    assert_eq!(parse_property_type("created_by"), NotionPropertyType::CreatedBy);
    assert_eq!(parse_property_type("last_edited_time"), NotionPropertyType::LastEditedTime);
    assert_eq!(parse_property_type("last_edited_by"), NotionPropertyType::LastEditedBy);
    assert_eq!(parse_property_type("Title"), NotionPropertyType::Other);
    assert_eq!(parse_property_type(""), NotionPropertyType::Other);
}
