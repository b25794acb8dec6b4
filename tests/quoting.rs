use pg_replicate::quoting::{quote_identifier, quote_literal};

#[test]
pub fn test_quote_identifier() {
    assert_eq!(quote_identifier(""), r#""""#);
    assert_eq!(quote_identifier("test"), r#""test""#);
    assert_eq!(quote_identifier("TeSt"), r#""TeSt""#);
    assert_eq!(quote_identifier(r#"Te"St"#), r#""Te""St""#);
}

#[test]
fn quote_literal_plain() {
    assert_eq!(quote_literal("abc"), "'abc'");
    assert_eq!(quote_literal(""), "''");
}

#[test]
fn quote_literal_doubles_quotes() {
    assert_eq!(quote_literal("it's"), "'it''s'");
}

#[test]
fn quote_literal_backslash_gets_escape_prefix() {
    assert_eq!(quote_literal(r"a\b"), r"E'a\\b'");
    assert_eq!(quote_literal(r"'\"), r"E'''\\'");
}
