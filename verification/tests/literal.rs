use json_schema::literal::{get_string_literal, NotAStringLiteral};

#[test]
fn string_literal_gives_the_text_between_its_quotes() {
    assert_eq!(get_string_literal(Some("\"schema.json\"")), Ok("schema.json".to_owned()));
    assert_eq!(get_string_literal(Some("\"\"")), Ok(String::new()));
    assert_eq!(get_string_literal(Some("\"data/pers\u{f6}n.json\"")), Ok("data/pers\u{f6}n.json".to_owned()));
}

#[test]
fn escapes_of_a_string_literal_are_resolved() {
    assert_eq!(get_string_literal(Some("\"a\\tb\\\\c\"")), Ok("a\tb\\c".to_owned()));
    assert_eq!(get_string_literal(Some("\"say \\\"hi\\\"\"")), Ok("say \"hi\"".to_owned()));
    assert_eq!(get_string_literal(Some("\"\\u{e9}\\x41\"")), Ok("\u{e9}A".to_owned()));
}

#[test]
fn raw_string_literal_is_taken_as_it_stands() {
    assert_eq!(get_string_literal(Some("r\"dir\\file.json\"")), Ok("dir\\file.json".to_owned()));
    assert_eq!(get_string_literal(Some("r#\"a \"b\" c\"#")), Ok("a \"b\" c".to_owned()));
}

#[test]
fn missing_argument_is_refused() {
    assert_eq!(get_string_literal(None), Err(NotAStringLiteral {}));
}

#[test]
fn other_tokens_are_refused() {
    for token in ["42", "4.5", "'c'", "true", "false", "b\"bytes\"", "b'x'", "schema", "r", "+", ""] {
        assert_eq!(get_string_literal(Some(token)), Err(NotAStringLiteral {}));
    }
}

#[test]
fn broken_string_literals_are_refused() {
    for token in ["\"open", "open\"", "\"bad \\q escape\"", "\"a\" \"b\"", "r#\"open\"", " \"a\""] {
        assert_eq!(get_string_literal(Some(token)), Err(NotAStringLiteral {}));
    }
}

#[test]
fn fault_says_what_is_expected() {
    assert_eq!(NotAStringLiteral {}.message(), "Only string literal can be received");
}
