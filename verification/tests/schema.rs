use json_schema::{Properties, Schema, SchemaError};

fn leaf(type_tag: &str) -> Schema {
    Schema { title: None, type_tag: type_tag.to_owned(), description: None, properties: None }
}

#[test]
fn new_properties_are_empty() {
    let properties = Properties::new();
    assert_eq!(properties.len(), 0);
    assert_eq!(properties.position("name"), None);
}

#[test]
fn inserted_properties_keep_their_order() {
    let mut properties = Properties::new();
    assert!(properties.insert("zeta".to_owned(), leaf("string")).is_none());
    assert!(properties.insert("alpha".to_owned(), leaf("integer")).is_none());
    assert!(properties.insert("mid".to_owned(), leaf("float")).is_none());
    assert_eq!(properties.len(), 3);
    let (key, schema) = properties.entry(0);
    assert_eq!((key, schema.type_tag.as_str()), ("zeta", "string"));
    let (key, schema) = properties.entry(1);
    assert_eq!((key, schema.type_tag.as_str()), ("alpha", "integer"));
    let (key, schema) = properties.entry(2);
    assert_eq!((key, schema.type_tag.as_str()), ("mid", "float"));
    assert_eq!(properties.position("zeta"), Some(0));
    assert_eq!(properties.position("alpha"), Some(1));
    assert_eq!(properties.position("mid"), Some(2));
    assert_eq!(properties.position("Mid"), None);
}

#[test]
fn inserting_a_known_name_replaces_its_schema_in_place() {
    let mut properties = Properties::new();
    properties.insert("first".to_owned(), leaf("string"));
    properties.insert("second".to_owned(), leaf("integer"));
    properties.insert("third".to_owned(), leaf("float"));
    let replaced = properties.insert("second".to_owned(), leaf("boolean"));
    assert_eq!(replaced.map(|schema| schema.type_tag), Some("integer".to_owned()));
    assert_eq!(properties.len(), 3);
    assert_eq!(properties.entry(0).0, "first");
    assert_eq!(properties.entry(1).0, "second");
    assert_eq!(properties.entry(1).1.type_tag, "boolean");
    assert_eq!(properties.entry(2).0, "third");
    assert_eq!(properties.entry(2).1.type_tag, "float");
}

#[test]
fn names_are_told_apart_by_every_character() {
    let mut properties = Properties::new();
    properties.insert("stra\u{df}e".to_owned(), leaf("string"));
    properties.insert("strasse".to_owned(), leaf("integer"));
    properties.insert("stra\u{df}f".to_owned(), leaf("float"));
    assert_eq!(properties.len(), 3);
    assert_eq!(properties.position("stra\u{df}f"), Some(2));
    assert_eq!(properties.position("stra\u{df}"), None);
}

#[test]
fn default_schema_holds_nothing() {
    let schema = Schema::default();
    assert_eq!(schema.title, None);
    assert_eq!(schema.type_tag, "");
    assert_eq!(schema.description, None);
    assert!(schema.properties.is_none());
    assert_eq!(
        schema.into_structs(),
        Err(SchemaError::UnsupportedRootType { type_tag: String::new() })
    );
}

#[test]
fn fault_without_a_property_takes_the_one_it_is_met_under() {
    let fault = SchemaError::MissingTitle { property: None };
    assert_eq!(
        fault.under("home"),
        SchemaError::MissingTitle { property: Some("home".to_owned()) }
    );
    let fault = SchemaError::MissingProperties { property: None, title: Some("A".to_owned()) };
    assert_eq!(
        fault.under("home"),
        SchemaError::MissingProperties {
            property: Some("home".to_owned()),
            title: Some("A".to_owned()),
        }
    );
}

#[test]
fn fault_with_a_property_keeps_it() {
    let fault = SchemaError::MissingTitle { property: Some("inner".to_owned()) };
    assert_eq!(
        fault.under("outer"),
        SchemaError::MissingTitle { property: Some("inner".to_owned()) }
    );
    let fault = SchemaError::MissingProperties { property: Some("inner".to_owned()), title: None };
    assert_eq!(
        fault.under("outer"),
        SchemaError::MissingProperties { property: Some("inner".to_owned()), title: None }
    );
    let fault = SchemaError::UnsupportedFieldType {
        key: "inner".to_owned(),
        type_tag: "array".to_owned(),
    };
    assert_eq!(
        fault.under("outer"),
        SchemaError::UnsupportedFieldType {
            key: "inner".to_owned(),
            type_tag: "array".to_owned(),
        }
    );
    let fault = SchemaError::UnsupportedRootType { type_tag: "array".to_owned() };
    assert_eq!(
        fault.under("outer"),
        SchemaError::UnsupportedRootType { type_tag: "array".to_owned() }
    );
}

#[test]
fn fault_of_the_root_is_told_in_words() {
    let fault = SchemaError::MissingTitle { property: None };
    assert_eq!(fault.message(), "the root object has no title");
    let fault = SchemaError::MissingProperties { property: None, title: None };
    assert_eq!(fault.message(), "the root object has no properties");
    let fault = SchemaError::MissingProperties { property: None, title: Some("Person".to_owned()) };
    assert_eq!(fault.message(), "the root object titled `Person` has no properties");
    let fault = SchemaError::UnsupportedRootType { type_tag: "boolean".to_owned() };
    assert_eq!(
        fault.message(),
        "the root has the type `boolean`, but only an object can be turned into records"
    );
}

#[test]
fn fault_of_a_property_is_told_in_words() {
    let fault = SchemaError::MissingTitle { property: Some("home".to_owned()) };
    assert_eq!(fault.message(), "the object under the property `home` has no title");
    let fault = SchemaError::MissingProperties {
        property: Some("home".to_owned()),
        title: Some("Address".to_owned()),
    };
    assert_eq!(
        fault.message(),
        "the object under the property `home` titled `Address` has no properties"
    );
    let fault = SchemaError::UnsupportedFieldType {
        key: "isAdult".to_owned(),
        type_tag: "boolean".to_owned(),
    };
    assert_eq!(
        fault.message(),
        "the property `isAdult` has the type `boolean`, which no field type stands for"
    );
}
