use json_schema::naming::{as_pascal_case, as_snake_case};

#[test]
fn pascal_case_joins_capitalised_words() {
    assert_eq!(as_pascal_case("firstName"), "FirstName");
    assert_eq!(as_pascal_case("first name"), "FirstName");
    assert_eq!(as_pascal_case("first-name"), "FirstName");
    assert_eq!(as_pascal_case("first__name"), "FirstName");
    assert_eq!(as_pascal_case("person"), "Person");
    assert_eq!(as_pascal_case("XMLHttpRequest"), "XmlHttpRequest");
    assert_eq!(as_pascal_case(""), "");
}

#[test]
fn snake_case_joins_lower_case_words_with_underscores() {
    assert_eq!(as_snake_case("firstName"), "first_name");
    assert_eq!(as_snake_case("first name"), "first_name");
    assert_eq!(as_snake_case("first-name"), "first_name");
    assert_eq!(as_snake_case("first__name"), "first_name");
    assert_eq!(as_snake_case("XMLHttpRequest"), "xml_http_request");
    assert_eq!(as_snake_case(""), "");
}

#[test]
fn converted_names_stay_as_they_are_when_converted_again() {
    for text in ["hello_world", "HelloWorld", "firstName", "first name", "kebab-case", "person"] {
        let pascal = as_pascal_case(text);
        assert_eq!(as_pascal_case(&pascal), pascal);
        let snake = as_snake_case(text);
        assert_eq!(as_snake_case(&snake), snake);
    }
}

#[test]
fn word_of_mixed_case_changes_when_converted_twice() {
    let once = as_pascal_case("aB");
    assert_eq!(once, "AB");
    assert_eq!(as_pascal_case(&once), "Ab");
}
