use html_tokenizer::entities::EntityTable;
use html_tokenizer::html_select_element::{HTMLOptionElement, HTMLSelectElement};
use html_tokenizer::stream::ByteStream;

#[test]
fn entity_insert_strips_ampersands() {
    let mut table = EntityTable::new();
    assert!(table.insert("&&lt;", vec![60], "<".to_string()));
    assert!(table.insert("lt;", vec![60], "<".to_string()));
    assert!(!table.insert("&", vec![38], "&".to_string()));
    assert_eq!(table.len(), 1);
    assert_eq!(table.find(b"lt;"), Some(0));
    assert_eq!(table.key(0), b"lt;");
    assert_eq!(table.entity(0).codepoints, vec![60]);
    assert_eq!(table.entity(0).characters, "<");
}

#[test]
fn entity_longest_match() {
    let mut table = EntityTable::new();
    table.insert("not", vec![172], "\u{AC}".to_string());
    table.insert("notin;", vec![8713], "\u{2209}".to_string());
    table.insert("no", vec![1], "\u{1}".to_string());
    assert_eq!(table.longest_match(b"notin;x"), Some(1));
    assert_eq!(table.longest_match(b"notit;"), Some(0));
    assert_eq!(table.longest_match(b"nox"), Some(2));
    assert_eq!(table.longest_match(b"xyz"), None);
    assert_eq!(table.longest_match(b""), None);
}

#[test]
fn stream_cursor_moves() {
    let mut s = ByteStream::new(b"ab");
    assert_eq!(s.current(), Some(b'a'));
    s.reconsume();
    assert_eq!(s.position_of(), 0);
    s.advance();
    s.advance();
    assert!(s.is_eof());
    s.advance();
    assert_eq!(s.position_of(), 2);
    s.reconsume();
    assert_eq!(s.current(), Some(b'b'));
    assert_eq!(s.lookahead(1), None);
}

#[test]
fn stream_match_literal() {
    let mut s = ByteStream::new(b"DocType html");
    assert!(!s.match_literal(b"DOCTYPE", false));
    assert_eq!(s.position_of(), 0);
    assert!(s.match_literal(b"DOCTYPE", true));
    assert_eq!(s.position_of(), 7);
    assert!(!s.match_literal(b" html!", false));
    assert_eq!(s.position_of(), 7);
}

#[test]
fn stream_slices() {
    let s = ByteStream::new(b"hello");
    assert_eq!(s.slice(1, 3), b"ell");
    assert_eq!(s.slice_checked(3, 2), b"lo");
    assert_eq!(s.slice_checked(3, 5), b"");
    assert_eq!(s.slice_checked(usize::MAX, 2), b"");
}

#[test]
fn stream_decodes_utf8() {
    let s = ByteStream::new("é".as_bytes());
    assert_eq!(s.decode_char(), Some(('é', 2)));
    let s = ByteStream::new(&[0xF0, 0x9F, 0x98, 0x80]);
    assert_eq!(s.decode_char(), Some(('\u{1F600}', 4)));
    let s = ByteStream::new(&[0xED, 0xA0, 0x80]);
    assert_eq!(s.decode_char(), Some(('\u{FFFD}', 1)));
    let s = ByteStream::new(b"");
    assert_eq!(s.decode_char(), None);
}

#[test]
fn select_element_attributes() {
    let mut s = HTMLSelectElement::new();
    assert_eq!(s.autocomplete(), "");
    assert_eq!(s.select_type(), "select-one");
    s.set_multiple(true);
    assert!(s.multiple());
    assert_eq!(s.select_type(), "select-multiple");
    s.set_name("choice".to_string());
    assert_eq!(s.name(), "choice");
    s.set_autocomplete("off".to_string());
    assert_eq!(s.autocomplete(), "off");
    s.set_disabled(true);
    assert!(s.disabled());
    s.set_required(true);
    assert!(s.required());
    s.set_size(4);
    assert_eq!(s.size(), 4);
    s.set_length(2);
    assert_eq!(s.length(), 2);
    s.set_selected_index(-1);
    assert_eq!(s.selected_index(), -1);
    s.set_value("v".to_string());
    assert_eq!(s.value(), "v");
    s.set_custom_validity("bad");
    assert_eq!(s.validation_message(), "bad");
    assert!(!s.will_validate());
    assert!(!s.check_validity());
    assert!(!s.report_validity());
    assert!(s.form().is_none());
    assert!(s.item(0).is_none());
    assert!(s.named_item("x").is_none());
    s.add(HTMLOptionElement::default(), None);
    s.remove_at(0);
    s.set_at(0, None);
    s.remove();
    s.show_picker();
    let _ = s.options();
    let _ = s.validity();
    let _ = s.labels();
    let _ = s.selected_options();
    assert_eq!(s.name(), "choice");
    assert_eq!(s.size(), 4);
}
