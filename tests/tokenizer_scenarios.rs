use html_tokenizer::entities::EntityTable;
use html_tokenizer::parse_error::ParseError;
use html_tokenizer::token::Token;
use html_tokenizer::tokenizer::{ContentModel, Tokenizer, TokenizerState};

fn run(input: &str) -> (Vec<Token>, Vec<ParseError>) {
    let mut t = Tokenizer::new(input.as_bytes());
    t.run();
    (t.tokens().clone(), t.errors().clone())
}

fn run_with(input: &str, table: EntityTable) -> (Vec<Token>, Vec<ParseError>) {
    let mut t = Tokenizer::with_entities(input.as_bytes(), table);
    t.run();
    (t.tokens().clone(), t.errors().clone())
}

fn start(name: &str, self_closing: bool, attrs: &[(&str, &str)]) -> Token {
    Token::StartTag {
        name: name.to_string(),
        self_closing,
        attributes: attrs.iter().map(|(a, b)| (a.to_string(), b.to_string())).collect(),
    }
}

fn end(name: &str) -> Token {
    Token::EndTag { name: name.to_string(), self_closing: false, attributes: Vec::new() }
}

fn ch(c: char) -> Token {
    Token::Character { data: c }
}

fn amp_table() -> EntityTable {
    let mut table = EntityTable::new();
    assert!(table.insert("&amp;", vec![38], "&".to_string()));
    assert!(table.insert("&amp", vec![38], "&".to_string()));
    assert!(table.insert("&not", vec![172], "\u{AC}".to_string()));
    assert!(table.insert("&notin;", vec![8713], "\u{2209}".to_string()));
    table
}

#[test]
fn paragraph_with_text() {
    let (tokens, errors) = run("<p>hi</p>");
    assert_eq!(tokens, vec![start("p", false, &[]), ch('h'), ch('i'), end("p"), Token::EndOfFile]);
    assert!(errors.is_empty());
}

#[test]
fn self_closing_br() {
    let (tokens, _) = run("<br />");
    assert_eq!(tokens, vec![start("br", true, &[]), Token::EndOfFile]);
}

#[test]
fn attribute_value_with_named_reference() {
    let (tokens, errors) = run_with("<a href=\"x&amp;y\">", amp_table());
    assert_eq!(tokens, vec![start("a", false, &[("href", "x&y")]), Token::EndOfFile]);
    assert!(errors.is_empty());
}

#[test]
fn doctype_html() {
    let (tokens, errors) = run("<!DOCTYPE html>");
    assert_eq!(
        tokens,
        vec![
            Token::Doctype { name: Some("html".to_string()), public_id: None, system_id: None, force_quirks: false },
            Token::EndOfFile
        ]
    );
    assert!(errors.is_empty());
}

#[test]
fn nested_comment_is_reported() {
    let (tokens, errors) = run("<!--a<!--b-->");
    assert_eq!(tokens, vec![Token::Comment { data: "a<!--b".to_string() }, Token::EndOfFile]);
    assert!(errors.contains(&ParseError::NestedComment));
    assert_eq!(ParseError::NestedComment.code(), "nested-comment");
}

#[test]
fn duplicate_attribute_keeps_first() {
    let (tokens, errors) = run("<x a=\"1\" a=\"2\">");
    assert_eq!(tokens, vec![start("x", false, &[("a", "1")]), Token::EndOfFile]);
    assert_eq!(errors, vec![ParseError::DuplicateAttribute]);
    assert_eq!(ParseError::DuplicateAttribute.code(), "duplicate-attribute");
}

#[test]
fn empty_input_gives_only_end_of_file() {
    let (tokens, errors) = run("");
    assert_eq!(tokens, vec![Token::EndOfFile]);
    assert!(errors.is_empty());
}

#[test]
fn plain_text_round_trips() {
    let input = "Hello, world! 1 > 0; \"quoted\" 'x'\n";
    let (tokens, _) = run(input);
    let mut expected: Vec<Token> = input.chars().map(ch).collect();
    expected.push(Token::EndOfFile);
    assert_eq!(tokens, expected);
}

#[test]
fn tag_and_attribute_names_are_lowercased() {
    let (tokens, _) = run("<DIV ClAsS=Big ID='k'></DiV>");
    assert_eq!(
        tokens,
        vec![start("div", false, &[("class", "Big"), ("id", "k")]), end("div"), Token::EndOfFile]
    );
}

#[test]
fn unquoted_and_valueless_attributes() {
    let (tokens, errors) = run("<input disabled value=a=b>");
    assert_eq!(
        tokens,
        vec![start("input", false, &[("disabled", ""), ("value", "a=b")]), Token::EndOfFile]
    );
    assert_eq!(errors, vec![ParseError::UnexpectedCharacterInUnquotedAttributeValue]);
}

#[test]
fn lone_less_than_is_text() {
    let (tokens, errors) = run("a < b");
    assert_eq!(tokens, vec![ch('a'), ch(' '), ch('<'), ch(' '), ch('b'), Token::EndOfFile]);
    assert_eq!(errors, vec![ParseError::InvalidFirstCharacterOfTagName]);
}

#[test]
fn eof_after_less_than() {
    let (tokens, errors) = run("<");
    assert_eq!(tokens, vec![ch('<'), Token::EndOfFile]);
    assert_eq!(errors, vec![ParseError::EofBeforeTagName]);
}

#[test]
fn eof_in_tag_drops_the_tag() {
    let (tokens, errors) = run("<div class=\"a");
    assert_eq!(tokens, vec![Token::EndOfFile]);
    assert_eq!(errors, vec![ParseError::EofInTag]);
}

#[test]
fn question_mark_opens_bogus_comment() {
    let (tokens, errors) = run("<?xml version?>");
    assert_eq!(tokens, vec![Token::Comment { data: "?xml version?".to_string() }, Token::EndOfFile]);
    assert_eq!(errors, vec![ParseError::UnexpectedQuestionMarkInsteadOfTagName]);
}

#[test]
fn cdata_in_html_is_bogus_comment() {
    let (tokens, errors) = run("<![CDATA[x]]>");
    assert_eq!(tokens, vec![Token::Comment { data: "[CDATA[x]]".to_string() }, Token::EndOfFile]);
    assert_eq!(errors, vec![ParseError::CdataInHtmlContent]);
}

#[test]
fn cdata_in_foreign_content_is_text() {
    let mut t = Tokenizer::new("<![CDATA[a<b]]>".as_bytes());
    t.set_foreign_content(true);
    t.run();
    assert_eq!(t.tokens().clone(), vec![ch('a'), ch('<'), ch('b'), Token::EndOfFile]);
}

#[test]
fn abrupt_empty_comments() {
    let (tokens, errors) = run("<!--><!--->");
    assert_eq!(
        tokens,
        vec![
            Token::Comment { data: String::new() },
            Token::Comment { data: String::new() },
            Token::EndOfFile
        ]
    );
    assert_eq!(
        errors,
        vec![ParseError::AbruptClosingOfEmptyComment, ParseError::AbruptClosingOfEmptyComment]
    );
}

#[test]
fn well_formed_comment() {
    let (tokens, errors) = run("<!-- a comment -->");
    assert_eq!(tokens, vec![Token::Comment { data: " a comment ".to_string() }, Token::EndOfFile]);
    assert!(errors.is_empty());
}

#[test]
fn eof_in_comment_emits_it_first() {
    let (tokens, errors) = run("<!--abc");
    assert_eq!(tokens, vec![Token::Comment { data: "abc".to_string() }, Token::EndOfFile]);
    assert_eq!(errors, vec![ParseError::EofInComment]);
}

#[test]
fn doctype_with_public_and_system_ids() {
    let (tokens, errors) = run("<!doctype HTML PUBLIC \"-//W3C//DTD HTML 4.01//EN\" 'http://x/y'>");
    assert_eq!(
        tokens,
        vec![
            Token::Doctype {
                name: Some("html".to_string()),
                public_id: Some("-//W3C//DTD HTML 4.01//EN".to_string()),
                system_id: Some("http://x/y".to_string()),
                force_quirks: false,
            },
            Token::EndOfFile
        ]
    );
    assert!(errors.is_empty());
}

#[test]
fn doctype_at_eof_forces_quirks() {
    let (tokens, errors) = run("<!DOCTYPE");
    assert_eq!(
        tokens,
        vec![
            Token::Doctype { name: None, public_id: None, system_id: None, force_quirks: true },
            Token::EndOfFile
        ]
    );
    assert_eq!(errors, vec![ParseError::EofInDoctype]);
}

#[test]
fn doctype_without_name() {
    let (tokens, errors) = run("<!DOCTYPE>");
    assert_eq!(
        tokens,
        vec![
            Token::Doctype { name: None, public_id: None, system_id: None, force_quirks: true },
            Token::EndOfFile
        ]
    );
    assert_eq!(errors, vec![ParseError::MissingDoctypeName]);
}

#[test]
fn end_tag_with_attributes_is_reported() {
    let (tokens, errors) = run("</p class=x>");
    assert_eq!(
        tokens,
        vec![
            Token::EndTag {
                name: "p".to_string(),
                self_closing: false,
                attributes: vec![("class".to_string(), "x".to_string())],
            },
            Token::EndOfFile
        ]
    );
    assert_eq!(errors, vec![ParseError::EndTagWithAttributes]);
}

#[test]
fn missing_end_tag_name() {
    let (tokens, errors) = run("</>");
    assert_eq!(tokens, vec![Token::EndOfFile]);
    assert_eq!(errors, vec![ParseError::MissingEndTagName]);
}

#[test]
fn null_in_data_passes_through() {
    let (tokens, errors) = run("a\0");
    assert_eq!(tokens, vec![ch('a'), ch('\0'), Token::EndOfFile]);
    assert_eq!(errors, vec![ParseError::UnexpectedNullCharacter]);
}

#[test]
fn null_in_tag_name_is_replaced() {
    let (tokens, errors) = run("<a\0>");
    assert_eq!(tokens, vec![start("a\u{FFFD}", false, &[]), Token::EndOfFile]);
    assert_eq!(errors, vec![ParseError::UnexpectedNullCharacter]);
}

#[test]
fn utf8_text_is_decoded() {
    let (tokens, _) = run("é€");
    assert_eq!(tokens, vec![ch('é'), ch('€'), Token::EndOfFile]);
}

#[test]
fn invalid_utf8_byte_becomes_replacement() {
    let mut t = Tokenizer::new(&[0x61, 0xFF, 0x62]);
    t.run();
    assert_eq!(t.tokens().clone(), vec![ch('a'), ch('\u{FFFD}'), ch('b'), Token::EndOfFile]);
}

#[test]
fn rcdata_needs_appropriate_end_tag() {
    let mut t = Tokenizer::new("<textarea>a</b></textarea>".as_bytes());
    t.run_until_emit();
    assert_eq!(t.tokens().clone(), vec![start("textarea", false, &[])]);
    t.set_content_model(ContentModel::Rcdata);
    assert_eq!(t.state(), TokenizerState::RCDATA);
    t.run();
    assert_eq!(
        t.tokens().clone(),
        vec![
            start("textarea", false, &[]),
            ch('a'),
            ch('<'),
            ch('/'),
            ch('b'),
            ch('>'),
            end("textarea"),
            Token::EndOfFile
        ]
    );
}

#[test]
fn rawtext_keeps_markup_as_text() {
    let mut t = Tokenizer::new("<style><b>&amp;</style>".as_bytes());
    t.run_until_emit();
    t.set_content_model(ContentModel::Rawtext);
    t.run();
    let text: String = t.tokens().iter().filter_map(|tok| match tok {
        Token::Character { data } => Some(*data),
        _ => None,
    }).collect();
    assert_eq!(text, "<b>&amp;");
    assert_eq!(t.tokens()[t.tokens().len() - 2], end("style"));
}

#[test]
fn script_double_escape() {
    let mut t = Tokenizer::new("<script><!--<script></script>--></script>".as_bytes());
    t.run_until_emit();
    t.set_content_model(ContentModel::ScriptData);
    t.run();
    let text: String = t.tokens().iter().filter_map(|tok| match tok {
        Token::Character { data } => Some(*data),
        _ => None,
    }).collect();
    assert_eq!(text, "<!--<script></script>-->");
    assert_eq!(t.tokens()[t.tokens().len() - 2], end("script"));
}

#[test]
fn plaintext_reads_to_the_end() {
    let mut t = Tokenizer::new("<plaintext></plaintext>".as_bytes());
    t.run_until_emit();
    t.set_content_model(ContentModel::Plaintext);
    t.run();
    assert_eq!(t.tokens().len(), 1 + "</plaintext>".len() + 1);
}

#[test]
fn numeric_references() {
    let (tokens, errors) = run("&#65;&#x42;&#X63");
    assert_eq!(tokens, vec![ch('A'), ch('B'), ch('c'), Token::EndOfFile]);
    assert_eq!(errors, vec![ParseError::MissingSemicolonAfterCharacterReference]);
}

#[test]
fn numeric_reference_replacements() {
    let (tokens, errors) = run("&#0;&#x80;&#xD800;&#x110000;");
    assert_eq!(tokens, vec![ch('\u{FFFD}'), ch('€'), ch('\u{FFFD}'), ch('\u{FFFD}'), Token::EndOfFile]);
    assert_eq!(
        errors,
        vec![
            ParseError::NullCharacterReference,
            ParseError::ControlCharacterReference,
            ParseError::SurrogateCharacterReference,
            ParseError::CharacterReferenceOutsideUnicodeRange
        ]
    );
}

#[test]
fn numeric_reference_without_digits() {
    let (tokens, errors) = run("&#;");
    assert_eq!(tokens, vec![ch('&'), ch('#'), ch(';'), Token::EndOfFile]);
    assert_eq!(errors, vec![ParseError::AbsenceOfDigitsInNumericCharacterReference]);
}

#[test]
fn named_reference_longest_match() {
    let (tokens, errors) = run_with("&notin;&notit;", amp_table());
    assert_eq!(
        tokens,
        vec![ch('\u{2209}'), ch('\u{AC}'), ch('i'), ch('t'), ch(';'), Token::EndOfFile]
    );
    assert_eq!(errors, vec![ParseError::MissingSemicolonAfterCharacterReference]);
}

#[test]
fn unknown_named_reference_is_ambiguous_ampersand() {
    let (tokens, errors) = run_with("&zz;", amp_table());
    assert_eq!(tokens, vec![ch('&'), ch('z'), ch('z'), ch(';'), Token::EndOfFile]);
    assert_eq!(errors, vec![ParseError::UnknownNamedCharacterReference]);
}

#[test]
fn legacy_reference_in_attribute_stays_literal() {
    let (tokens, errors) = run_with("<a href=\"?x=1&amp=2&amp;\">", amp_table());
    assert_eq!(tokens, vec![start("a", false, &[("href", "?x=1&amp=2&")]), Token::EndOfFile]);
    assert!(errors.is_empty());
}

#[test]
fn parse_error_codes_are_kebab_case() {
    assert_eq!(ParseError::UnexpectedNullCharacter.code(), "unexpected-null-character");
    assert_eq!(ParseError::EofInTag.code(), "eof-in-tag");
    assert_eq!(ParseError::AbruptClosingOfEmptyComment.code(), "abrupt-closing-of-empty-comment");
}

#[test]
fn unacknowledged_self_closing_flag_is_reported() {
    let mut t = Tokenizer::new("<div/>x<br/>y".as_bytes());
    t.run_until_emit();
    assert_eq!(t.tokens().clone(), vec![start("div", true, &[])]);
    t.run_until_emit();
    assert_eq!(t.errors().clone(), vec![ParseError::NonVoidHtmlElementStartTagWithTrailingSolidus]);
    t.run_until_emit();
    t.acknowledge_self_closing();
    t.run_until_emit();
    assert_eq!(t.errors().len(), 1);
    assert_eq!(t.tokens().clone(), vec![start("div", true, &[]), ch('x'), start("br", true, &[]), ch('y')]);
}

#[test]
fn comment_in_the_middle_of_text() {
    let (tokens, errors) = run("ab<!--x y-->cd");
    assert_eq!(
        tokens,
        vec![ch('a'), ch('b'), Token::Comment { data: "x y".to_string() }, ch('c'), ch('d'), Token::EndOfFile]
    );
    assert!(errors.is_empty());
}
