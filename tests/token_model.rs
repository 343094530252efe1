use html_tokenizer::token::Token;
use html_tokenizer::tokenizer::resolve_numeric_reference;
use html_tokenizer::parse_error::ParseError;

fn tag() -> Token {
    Token::StartTag { name: "a".to_string(), self_closing: false, attributes: Vec::new() }
}

#[test]
fn add_attribute_keeps_first_value() {
    let mut t = tag();
    t.add_attribute("href".to_string(), "1".to_string());
    t.add_attribute("href".to_string(), "2".to_string());
    t.add_attribute("id".to_string(), "x".to_string());
    assert_eq!(
        t,
        Token::StartTag {
            name: "a".to_string(),
            self_closing: false,
            attributes: vec![
                ("href".to_string(), "1".to_string()),
                ("id".to_string(), "x".to_string())
            ],
        }
    );
    assert!(t.attribute_exists("href"));
    assert!(!t.attribute_exists("class"));
}

#[test]
fn attributes_on_other_tokens_are_ignored() {
    let mut c = Token::Comment { data: "x".to_string() };
    c.add_attribute("a".to_string(), "b".to_string());
    assert_eq!(c, Token::Comment { data: "x".to_string() });
    assert!(!c.attribute_exists("a"));
    c.set_self_closing_flag(true);
    assert_eq!(c, Token::Comment { data: "x".to_string() });
}

#[test]
fn self_closing_flag() {
    let mut t = tag();
    t.set_self_closing_flag(true);
    assert_eq!(t, Token::StartTag { name: "a".to_string(), self_closing: true, attributes: Vec::new() });
    let mut e = Token::EndTag { name: "a".to_string(), self_closing: false, attributes: Vec::new() };
    e.set_self_closing_flag(true);
    assert_eq!(e, Token::EndTag { name: "a".to_string(), self_closing: true, attributes: Vec::new() });
}

#[test]
fn numeric_reference_table() {
    assert_eq!(resolve_numeric_reference(0x41), ('A', None));
    assert_eq!(resolve_numeric_reference(0x9F), ('\u{178}', Some(ParseError::ControlCharacterReference)));
    assert_eq!(resolve_numeric_reference(0x81), ('\u{81}', Some(ParseError::ControlCharacterReference)));
    assert_eq!(resolve_numeric_reference(0xFFFE), ('\u{FFFE}', Some(ParseError::NoncharacterCharacterReference)));
    assert_eq!(resolve_numeric_reference(0x0A), ('\n', None));
    assert_eq!(resolve_numeric_reference(0x0D), ('\r', Some(ParseError::ControlCharacterReference)));
}
