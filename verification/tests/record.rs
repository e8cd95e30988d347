use json_schema::text::text_eq;
use json_schema::{Field, Struct, StructsTemplate};

#[test]
fn field_hands_out_what_it_was_made_of() {
    let field = Field::new("first_name", "String", Some("first name".to_owned()));
    assert_eq!(field.name(), "first_name");
    assert_eq!(field.field_type(), "String");
    assert_eq!(field.description(), Some("first name"));
    let bare = Field::new("age", "i64", None);
    assert_eq!(bare.description(), None);
    assert_ne!(field, bare);
}

#[test]
fn record_hands_out_what_it_was_made_of() {
    let record = Struct::new(
        "Person",
        Some("a person".to_owned()),
        vec![Field::new("age", "i64", None), Field::new("name", "String", None)],
    );
    assert_eq!(record.name(), "Person");
    assert_eq!(record.description(), Some("a person"));
    assert_eq!(record.fields().len(), 2);
    assert_eq!(record.fields()[0], Field::new("age", "i64", None));
    assert_eq!(record.fields()[1], Field::new("name", "String", None));
    let bare = Struct::new("Person", None, vec![]);
    assert_eq!(bare.description(), None);
    assert!(bare.fields().is_empty());
}

#[test]
fn template_holds_the_records_in_their_order() {
    let template = StructsTemplate {
        structs: vec![Struct::new("Address", None, vec![]), Struct::new("Person", None, vec![])],
    };
    assert_eq!(template.structs.len(), 2);
    assert_eq!(template.structs[0].name(), "Address");
    assert_eq!(template.structs[1].name(), "Person");
}

#[test]
fn equal_texts_are_found_equal() {
    assert!(text_eq("", ""));
    assert!(text_eq("object", "object"));
    assert!(text_eq("stra\u{df}e", "stra\u{df}e"));
}

#[test]
fn different_texts_are_found_different() {
    assert!(!text_eq("object", "objects"));
    assert!(!text_eq("object", "objecT"));
    assert!(!text_eq("", "a"));
    assert!(!text_eq("a", ""));
    assert!(!text_eq("stra\u{df}e", "strasse"));
    assert!(!text_eq("\u{e9}", "e\u{301}"));
}
