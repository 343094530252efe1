use vstd::prelude::*;
use crate::entities::{is_prefix, longest_key_len, EntityTable};
use crate::parse_error::ParseError;
use crate::stream::{ascii_lower, starts_with_literal, utf8_at, ByteStream};
use crate::text::{char_from_u32, is_upper, no_upper, push_char};
use crate::token::{attrs_ok, find_attribute, has_attr, token_ok, Token};

verus! {


// Bytes the states test for.
const NULL: u8 = 0x00;
const BANG: u8 = 0x21;
const QUOTATION_MARK: u8 = 0x22;
const NUMBER_SIGN: u8 = 0x23;
const AMPERSAND: u8 = 0x26;
const APOSTROPHE: u8 = 0x27;
const HYPHEN: u8 = 0x2D;
const SOLIDUS: u8 = 0x2F;
const SEMICOLON: u8 = 0x3B;
const LESS_THAN: u8 = 0x3C;
const EQUALS_SIGN: u8 = 0x3D;
const GREATER_THAN: u8 = 0x3E;
const QUESTION_MARK: u8 = 0x3F;
const LATIN_CAPITAL_X: u8 = 0x58;
const RIGHT_BRACKET: u8 = 0x5D;
const GRAVE_ACCENT: u8 = 0x60;
const LATIN_SMALL_X: u8 = 0x78;

/// The named states of the tokenizer.
#[derive(Debug, PartialEq, Eq, Clone, Copy, Structural)]
pub enum TokenizerState {
    Data,
    RCDATA,
    RAWTEXT,
    ScriptData,
    PLAINTEXT,
    TagOpen,
    EndTagOpen,
    TagName,
    RCDATALessThanSign,
    RCDATAEndTagOpen,
    RCDATAEndTagName,
    RAWTEXTLessThanSign,
    RAWTEXTEndTagOpen,
    RAWTEXTEndTagName,
    ScriptDataLessThanSign,
    ScriptDataEndTagOpen,
    ScriptDataEndTagName,
    ScriptDataEscapeStart,
    ScriptDataEscapeStartDash,
    ScriptDataEscaped,
    ScriptDataEscapedDash,
    ScriptDataEscapedDashDash,
    ScriptDataEscapedLessThanSign,
    ScriptDataEscapedEndTagOpen,
    ScriptDataEscapedEndTagName,
    ScriptDataDoubleEscapeStart,
    ScriptDataDoubleEscaped,
    ScriptDataDoubleEscapedDash,
    ScriptDataDoubleEscapedDashDash,
    ScriptDataDoubleEscapedLessThanSign,
    ScriptDataDoubleEscapeEnd,
    BeforeAttributeName,
    AttributeName,
    AfterAttributeName,
    BeforeAttributeValue,
    AttributeValueDoubleQuoted,
    AttributeValueSingleQuoted,
    AttributeValueUnquoted,
    AfterAttributeValueQuoted,
    SelfClosingStartTag,
    BogusComment,
    MarkupDeclarationOpen,
    CommentStart,
    CommentStartDash,
    Comment,
    CommentLessThanSign,
    CommentLessThanSignBang,
    CommentLessThanSignBangDash,
    CommentLessThanSignBangDashDash,
    CommentEndDash,
    CommentEnd,
    CommentEndBang,
    DOCTYPE,
    BeforeDOCTYPEName,
    DOCTYPEName,
    AfterDOCTYPEName,
    AfterDOCTYPEPublicKeyword,
    BeforeDOCTYPEPublicIdentifier,
    DOCTYPEPublicIdentifierDoubleQuoted,
    DOCTYPEPublicIdentifierSingleQuoted,
    AfterDOCTYPEPublicIdentifier,
    BetweenDOCTYPEPublicAndSystemIdentifiers,
    AfterDOCTYPESystemKeyword,
    BeforeDOCTYPESystemIdentifier,
    DOCTYPESystemIdentifierDoubleQuoted,
    DOCTYPESystemIdentifierSingleQuoted,
    AfterDOCTYPESystemIdentifier,
    BogusDOCTYPE,
    CDATASection,
    CDATASectionBracket,
    CDATASectionEnd,
    CharacterReference,
    NamedCharacterReference,
    AmbiguousAmpersand,
    NumericCharacterReference,
    HexadecimalCharacterReferenceStart,
    DecimalCharacterReferenceStart,
    HexadecimalCharacterReference,
    DecimalCharacterReference,
    NumericCharacterReferenceEnd,
}

/// The lexical sub-language that the tree constructor can put the tokenizer in.
#[derive(Debug, PartialEq, Eq, Clone, Copy, Structural)]
pub enum ContentModel {
    Data,
    Rcdata,
    Rawtext,
    ScriptData,
    Plaintext,
}

/// States that a character reference returns to.
pub open spec fn is_return_state(s: TokenizerState) -> bool {
    s == TokenizerState::Data || s == TokenizerState::RCDATA
        || s == TokenizerState::AttributeValueDoubleQuoted
        || s == TokenizerState::AttributeValueSingleQuoted
        || s == TokenizerState::AttributeValueUnquoted
}

/// Tab, line feed, form feed or space.
pub open spec fn is_ws(b: u8) -> bool {
    b == 0x09 || b == 0x0A || b == 0x0C || b == 0x20
}

/// How far a state is from one that reads the next byte. A state that
/// hands the current byte on without reading it always hands it to a state
/// of lower rank, which is what makes the machine stop.
pub open spec fn rank(s: TokenizerState, c: Option<u8>) -> nat {
    match s {
        TokenizerState::AttributeName => if c is None || is_ws(c->0) || c->0 == 0x2F || c->0 == 0x3E {
            1
        } else {
            0
        },
        TokenizerState::AfterAttributeName => if c is None || is_ws(c->0) || c->0 == 0x2F || c->0
            == 0x3D || c->0 == 0x3E {
            0
        } else {
            1
        },
        TokenizerState::TagOpen | TokenizerState::RCDATALessThanSign
        | TokenizerState::RCDATAEndTagName | TokenizerState::RAWTEXTLessThanSign
        | TokenizerState::RAWTEXTEndTagName | TokenizerState::ScriptDataLessThanSign
        | TokenizerState::ScriptDataEndTagName | TokenizerState::ScriptDataEscapeStart
        | TokenizerState::ScriptDataEscapeStartDash | TokenizerState::ScriptDataEscapedEndTagName
        | TokenizerState::ScriptDataDoubleEscapeStart
        | TokenizerState::ScriptDataDoubleEscapedLessThanSign
        | TokenizerState::ScriptDataDoubleEscapeEnd | TokenizerState::BeforeAttributeValue
        | TokenizerState::MarkupDeclarationOpen | TokenizerState::CommentStart
        | TokenizerState::CommentStartDash | TokenizerState::CommentLessThanSign
        | TokenizerState::CommentLessThanSignBang | TokenizerState::CommentEndDash
        | TokenizerState::CommentEnd | TokenizerState::CommentEndBang | TokenizerState::DOCTYPE
        | TokenizerState::AfterDOCTYPEName | TokenizerState::AfterDOCTYPEPublicKeyword
        | TokenizerState::BeforeDOCTYPEPublicIdentifier
        | TokenizerState::AfterDOCTYPEPublicIdentifier
        | TokenizerState::BetweenDOCTYPEPublicAndSystemIdentifiers
        | TokenizerState::AfterDOCTYPESystemKeyword
        | TokenizerState::BeforeDOCTYPESystemIdentifier
        | TokenizerState::AfterDOCTYPESystemIdentifier | TokenizerState::CDATASectionBracket
        | TokenizerState::CDATASectionEnd | TokenizerState::AmbiguousAmpersand
        | TokenizerState::NumericCharacterReferenceEnd => 1,
        TokenizerState::EndTagOpen | TokenizerState::RCDATAEndTagOpen
        | TokenizerState::RAWTEXTEndTagOpen | TokenizerState::ScriptDataEndTagOpen
        | TokenizerState::ScriptDataEscapedLessThanSign
        | TokenizerState::ScriptDataEscapedEndTagOpen | TokenizerState::BeforeAttributeName
        | TokenizerState::CommentLessThanSignBangDash
        | TokenizerState::CommentLessThanSignBangDashDash
        | TokenizerState::NamedCharacterReference
        | TokenizerState::HexadecimalCharacterReference
        | TokenizerState::DecimalCharacterReference => 2,
        TokenizerState::AfterAttributeValueQuoted | TokenizerState::SelfClosingStartTag
        | TokenizerState::CharacterReference | TokenizerState::HexadecimalCharacterReferenceStart
        | TokenizerState::DecimalCharacterReferenceStart => 3,
        TokenizerState::NumericCharacterReference => 4,
        _ => 0,
    }
}

/// The list ends with exactly one end-of-file token.
pub open spec fn eof_terminated(ts: Seq<Token>) -> bool {
    &&& ts.len() > 0
    &&& ts.last() is EndOfFile
    &&& forall|i: int| 0 <= i < ts.len() - 1 ==> !(#[trigger] ts[i] is EndOfFile)
}

/// The list holds no end-of-file token.
pub open spec fn no_eof(ts: Seq<Token>) -> bool {
    forall|i: int| 0 <= i < ts.len() ==> !(#[trigger] ts[i] is EndOfFile)
}

/// Every tag token of the list has a lower-case name and distinct,
/// lower-case attribute names.
#[verifier::opaque]
pub open spec fn tags_ok(ts: Seq<Token>) -> bool {
    forall|i: int| 0 <= i < ts.len() ==> token_ok(#[trigger] ts[i])
}

/// ASCII other than `<`, `&` and U+0000.
pub open spec fn plain_byte(b: u8) -> bool {
    0 < b < 0x80 && b != 0x3C && b != 0x26
}

/// Text that the data state turns into character tokens one byte each:
/// ASCII other than `<`, `&` and U+0000.
pub open spec fn plain_text(s: Seq<u8>) -> bool {
    forall|i: int| 0 <= i < s.len() ==> plain_byte(#[trigger] s[i])
}

/// A byte that the comment state appends as it is: ASCII other than U+0000,
/// `-` and `<`.
pub open spec fn plain_comment_byte(b: u8) -> bool {
    0 < b < 0x80 && b != 0x2D && b != 0x3C
}

/// The characters of ASCII bytes.
pub open spec fn ascii_chars(s: Seq<u8>) -> Seq<char> {
    s.map_values(|b: u8| b as char)
}

/// The last token is a comment holding `text`.
pub open spec fn ends_with_comment(ts: Seq<Token>, text: Seq<char>) -> bool {
    &&& ts.len() > 0
    &&& ts.last() matches Token::Comment { data } && data@ == text
}

/// A plain comment starts at `p` of `s` and its closing `-->` at `q`: `<!--`,
/// plain comment bytes not starting with `>`, then `-->`.
pub open spec fn plain_comment_at(s: Seq<u8>, p: int, q: int) -> bool {
    &&& 0 <= p && p + 4 <= q && q + 3 <= s.len()
    &&& s[p] == 0x3C && s[p + 1] == 0x21 && s[p + 2] == 0x2D && s[p + 3] == 0x2D
    &&& forall|i: int| p + 4 <= i < q ==> plain_comment_byte(#[trigger] s[i])
    &&& s[q] == 0x2D && s[q + 1] == 0x2D && s[q + 2] == 0x3E
    &&& q > p + 4 ==> s[p + 4] != 0x3E
}

/// Token `k` of the list is a comment holding `text`.
pub open spec fn comment_token_at(ts: Seq<Token>, k: int, text: Seq<char>) -> bool {
    &&& 0 <= k < ts.len()
    &&& ts[k] matches Token::Comment { data } && data@ == text
}

proof fn lemma_comment_end_unique(s: Seq<u8>, p: int, q1: int, q2: int)
    requires
        plain_comment_at(s, p, q1),
        plain_comment_at(s, p, q2),
    ensures
        q1 == q2,
{
    if q1 < q2 {
        assert(plain_comment_byte(s[q1]));
    } else if q2 < q1 {
        assert(plain_comment_byte(s[q2]));
    }
}

/// An ASCII letter.
pub open spec fn is_letter(b: u8) -> bool {
    (0x41 <= b && b <= 0x5A) || (0x61 <= b && b <= 0x7A)
}

/// The characters of ASCII bytes, lower-cased.
pub open spec fn lower_chars(s: Seq<u8>) -> Seq<char> {
    s.map_values(|b: u8| ascii_lower(b) as char)
}

/// Where the name of a tag that starts at `p` begins.
pub open spec fn name_start(p: int, is_end: bool) -> int {
    if is_end {
        p + 2
    } else {
        p + 1
    }
}

/// A tag without attributes starts at `p` of `s` and closes at `q`: `<` (or
/// `</` for an end tag), one or more ASCII letters, then `>`.
pub open spec fn simple_tag_at(s: Seq<u8>, p: int, q: int, is_end: bool) -> bool {
    &&& 0 <= p && name_start(p, is_end) < q < s.len()
    &&& s[p] == 0x3C
    &&& is_end ==> s[p + 1] == 0x2F
    &&& forall|i: int| name_start(p, is_end) <= i < q ==> is_letter(#[trigger] s[i])
    &&& s[q] == 0x3E
}

/// Token `k` of the list is a start tag (or an end tag) with this name,
/// this self-closing flag and this many attributes.
pub open spec fn tag_token_at(
    ts: Seq<Token>,
    k: int,
    is_end: bool,
    name: Seq<char>,
    self_closing: bool,
    n_attrs: nat,
) -> bool {
    &&& 0 <= k < ts.len()
    &&& if is_end {
        ts[k] matches Token::EndTag { name: n, self_closing: sc, attributes } && n@ == name && sc
            == self_closing && attributes@.len() == n_attrs
    } else {
        ts[k] matches Token::StartTag { name: n, self_closing: sc, attributes } && n@ == name && sc
            == self_closing && attributes@.len() == n_attrs
    }
}

proof fn lemma_simple_tag_unique(s: Seq<u8>, p: int, q1: int, e1: bool, q2: int, e2: bool)
    requires
        simple_tag_at(s, p, q1, e1),
        simple_tag_at(s, p, q2, e2),
    ensures
        q1 == q2 && e1 == e2,
{
    if e1 != e2 {
        if e1 {
            assert(is_letter(s[p + 1]));
        } else {
            assert(is_letter(s[p + 1]));
        }
    } else if q1 < q2 {
        assert(is_letter(s[q1]));
    } else if q2 < q1 {
        assert(is_letter(s[q2]));
    }
}

/// From index `start` on, the list is one character token per character of
/// `text`.
pub open spec fn text_at(ts: Seq<Token>, start: int, text: Seq<char>) -> bool {
    &&& ts.len() == start + text.len()
    &&& forall|i: int| 0 <= i < text.len() ==> #[trigger] ts[start + i] == Token::Character { data: text[i] }
}

/// An optional string that holds exactly the optional text.
pub open spec fn opt_text(o: Option<String>, v: Option<Seq<char>>) -> bool {
    match o {
        Some(s) => v is Some && s@ == v->0,
        None => v is None,
    }
}

/// The text of a builder field that is only there when its flag is set.
pub open spec fn opt_view(present: bool, s: Seq<char>) -> Option<Seq<char>> {
    if present {
        Some(s)
    } else {
        None
    }
}

/// A DOCTYPE token with these fields.
pub open spec fn doctype_token(
    t: Token,
    name: Option<Seq<char>>,
    public_id: Option<Seq<char>>,
    system_id: Option<Seq<char>>,
    force_quirks: bool,
) -> bool {
    match t {
        Token::Doctype { name: n, public_id: p, system_id: s, force_quirks: f } => opt_text(n, name)
            && opt_text(p, public_id) && opt_text(s, system_id) && f == force_quirks,
        _ => false,
    }
}

proof fn lemma_concat_push<A>(a: Seq<A>, b: Seq<A>, x: A)
    ensures
        (a + b).push(x) == a + b.push(x),
{
    assert((a + b).push(x) =~= a + b.push(x));
}

proof fn lemma_concat_empty_prefix<A>(a: Seq<A>, b: Seq<A>)
    ensures
        a + b.subrange(0, 0) == a,
{
    assert(a + b.subrange(0, 0) =~= a);
}

/// The scalar value that one code point of an entity expands to: itself,
/// or U+FFFD where it is no scalar value.
pub open spec fn expansion_value(cp: u32) -> u32 {
    if (0xD800 <= cp && cp <= 0xDFFF) || cp > 0x10FFFF {
        0xFFFD
    } else {
        cp
    }
}

/// An ASCII letter or digit.
pub open spec fn is_alnum_byte(b: u8) -> bool {
    (0x30 <= b && b <= 0x39) || (0x41 <= b && b <= 0x5A) || (0x61 <= b && b <= 0x7A)
}

/// The word that switches script data between its escaped layers.
pub open spec fn script_word() -> Seq<char> {
    seq!['s', 'c', 'r', 'i', 'p', 't']
}

/// The bytes `[CDATA[`.
pub open spec fn cdata_open() -> Seq<u8> {
    seq![0x5Bu8, 0x43u8, 0x44u8, 0x41u8, 0x54u8, 0x41u8, 0x5Bu8]
}

/// The end and kind of the tag without attributes that starts at `p`, if
/// one does.
pub open spec fn tag_choice(s: Seq<u8>, p: int) -> (int, bool) {
    choose|q: int, e: bool| simple_tag_at(s, p, q, e)
}

/// Where the `-->` of the plain comment that starts at `p` stands, if one
/// does.
pub open spec fn comment_choice(s: Seq<u8>, p: int) -> int {
    choose|q: int| plain_comment_at(s, p, q)
}

/// A tag without attributes starts at `p`.
pub open spec fn tag_seg(s: Seq<u8>, p: int) -> bool {
    exists|q: int, e: bool| simple_tag_at(s, p, q, e)
}

/// A plain comment starts at `p`.
pub open spec fn comment_seg(s: Seq<u8>, p: int) -> bool {
    exists|q: int| plain_comment_at(s, p, q)
}

/// Where the segment that starts at `p` ends: one plain text byte, a tag
/// without attributes, or a plain comment; `p` itself where none starts.
pub open spec fn segment_end(s: Seq<u8>, p: int) -> int {
    if 0 <= p < s.len() && plain_byte(s[p]) {
        p + 1
    } else if tag_seg(s, p) {
        tag_choice(s, p).0 + 1
    } else if comment_seg(s, p) {
        comment_choice(s, p) + 3
    } else {
        p
    }
}

/// Token `k` is the token of the segment that starts at `p`.
pub open spec fn segment_token(ts: Seq<Token>, k: int, s: Seq<u8>, p: int) -> bool {
    if 0 <= p < s.len() && plain_byte(s[p]) {
        0 <= k < ts.len() && ts[k] == Token::Character { data: s[p] as char }
    } else if tag_seg(s, p) {
        let (q, e) = tag_choice(s, p);
        tag_token_at(ts, k, e, lower_chars(s.subrange(name_start(p, e), q)), false, 0)
    } else {
        comment_token_at(ts, k, ascii_chars(s.subrange(p + 4, comment_choice(s, p))))
    }
}

/// From `p` to its end the input is plain text bytes, tags without
/// attributes and plain comments.
pub open spec fn simple_doc(s: Seq<u8>, p: int) -> bool
    decreases s.len() - p,
{
    if p >= s.len() {
        p == s.len()
    } else if p < segment_end(s, p) <= s.len() {
        simple_doc(s, segment_end(s, p))
    } else {
        false
    }
}

/// From index `k` on, the list is one token per segment of the input from
/// `p`, then the end-of-file token.
pub open spec fn doc_tokens(ts: Seq<Token>, k: int, s: Seq<u8>, p: int) -> bool
    decreases s.len() - p,
{
    if p >= s.len() {
        0 <= k && ts.len() == k + 1 && ts[k] is EndOfFile
    } else if p < segment_end(s, p) <= s.len() {
        segment_token(ts, k, s, p) && doc_tokens(ts, k + 1, s, segment_end(s, p))
    } else {
        false
    }
}

proof fn lemma_segment_facts(s: Seq<u8>, p: int)
    requires
        0 <= p < s.len(),
        !plain_byte(s[p]),
    ensures
        tag_seg(s, p) ==> simple_tag_at(s, p, tag_choice(s, p).0, tag_choice(s, p).1),
        comment_seg(s, p) ==> plain_comment_at(s, p, comment_choice(s, p)),
        tag_seg(s, p) ==> !comment_seg(s, p),
{
    if tag_seg(s, p) && comment_seg(s, p) {
        let (q, e) = tag_choice(s, p);
        let c = comment_choice(s, p);
        if e {
        } else {
            assert(is_letter(s[p + 1]));
        }
    }
}

/// The bytes `DOCTYPE`.
pub open spec fn doctype_word() -> Seq<u8> {
    seq![0x44u8, 0x4Fu8, 0x43u8, 0x54u8, 0x59u8, 0x50u8, 0x45u8]
}

/// A DOCTYPE with only a name starts at `p` of `s` and closes at `q`:
/// `<!`, the word DOCTYPE in any case, one whitespace byte, one or more ASCII
/// letters, then `>`.
pub open spec fn simple_doctype_at(s: Seq<u8>, p: int, q: int) -> bool {
    &&& 0 <= p && p + 10 < q < s.len()
    &&& s[p] == 0x3C && s[p + 1] == 0x21
    &&& forall|i: int| 0 <= i < 7 ==> ascii_lower(#[trigger] s[p + 2 + i]) == ascii_lower(doctype_word()[i])
    &&& is_ws(s[p + 9])
    &&& forall|i: int| p + 10 <= i < q ==> is_letter(#[trigger] s[i])
    &&& s[q] == 0x3E
}

proof fn lemma_doctype_end_unique(s: Seq<u8>, p: int, q1: int, q2: int)
    requires
        simple_doctype_at(s, p, q1),
        simple_doctype_at(s, p, q2),
    ensures
        q1 == q2,
{
    if q1 < q2 {
        assert(is_letter(s[q1]));
    } else if q2 < q1 {
        assert(is_letter(s[q2]));
    }
}

/// A self-closing start tag without attributes starts at `p` of `s`: `<`,
/// ASCII letters up to `m`, an optional whitespace byte, then `/>` ending at
/// `q`.
pub open spec fn self_closing_tag_at(s: Seq<u8>, p: int, m: int, q: int) -> bool {
    &&& 0 <= p && p + 1 < m && q < s.len()
    &&& s[p] == 0x3C
    &&& forall|i: int| p + 1 <= i < m ==> is_letter(#[trigger] s[i])
    &&& ((q == m + 1 && s[m] == 0x2F) || (q == m + 2 && is_ws(s[m]) && s[m + 1] == 0x2F))
    &&& s[q] == 0x3E
}

proof fn lemma_self_closing_unique(s: Seq<u8>, p: int, m1: int, q1: int, m2: int, q2: int)
    requires
        self_closing_tag_at(s, p, m1, q1),
        self_closing_tag_at(s, p, m2, q2),
    ensures
        m1 == m2 && q1 == q2,
{
    if m1 < m2 {
        assert(is_letter(s[m1]));
    } else if m2 < m1 {
        assert(is_letter(s[m2]));
    }
}

/// One character token per byte.
pub open spec fn char_tokens(s: Seq<u8>) -> Seq<Token> {
    s.map_values(|b: u8| Token::Character { data: b as char })
}

/// The tag under construction, with the attribute being read.
struct TagBuilder {
    is_end: bool,
    name: String,
    self_closing: bool,
    attributes: Vec<(String, String)>,
    attr_name: String,
    attr_value: String,
    attr_pending: bool,
}

/// The DOCTYPE under construction.
struct DoctypeBuilder {
    name: String,
    has_name: bool,
    public_id: String,
    has_public_id: bool,
    system_id: String,
    has_system_id: bool,
    force_quirks: bool,
}

/// The tokenizer: a state machine that reads bytes and emits tokens.
pub struct Tokenizer {
    input: ByteStream,
    state: TokenizerState,
    return_state: TokenizerState,
    tag: TagBuilder,
    comment: String,
    doctype: DoctypeBuilder,
    temporary_buffer: Vec<char>,
    char_ref_code: u32,
    last_start_tag: Option<String>,
    tokens: Vec<Token>,
    errors: Vec<ParseError>,
    entities: EntityTable,
    in_foreign_content: bool,
    self_closing_unacknowledged: bool,
    done: bool,
}

fn empty_tag() -> (t: TagBuilder)
    ensures
        t.name@.len() == 0,
        t.attributes@.len() == 0,
        t.attr_name@.len() == 0,
        !t.attr_pending,
        !t.self_closing,
        !t.is_end,
        t.attr_value@.len() == 0,
{
    TagBuilder {
        is_end: false,
        name: String::new(),
        self_closing: false,
        attributes: Vec::new(),
        attr_name: String::new(),
        attr_value: String::new(),
        attr_pending: false,
    }
}

fn empty_doctype() -> (d: DoctypeBuilder)
    ensures
        !d.has_name && !d.has_public_id && !d.has_system_id && !d.force_quirks,
        d.name@.len() == 0 && d.public_id@.len() == 0 && d.system_id@.len() == 0,
        d.name@ == Seq::<char>::empty(),
{
    let d = DoctypeBuilder {
        name: String::new(),
        has_name: false,
        public_id: String::new(),
        has_public_id: false,
        system_id: String::new(),
        has_system_id: false,
        force_quirks: false,
    };
    assert(d.name@ =~= Seq::<char>::empty());
    d
}

fn is_alpha(b: u8) -> (r: bool)
    ensures
        r == ((0x41 <= b && b <= 0x5A) || (0x61 <= b && b <= 0x7A)),
{
    (0x41 <= b && b <= 0x5A) || (0x61 <= b && b <= 0x7A)
}

fn is_upper_byte(b: u8) -> (r: bool)
    ensures
        r == (0x41 <= b && b <= 0x5A),
{
    0x41 <= b && b <= 0x5A
}

fn is_digit(b: u8) -> (r: bool)
    ensures
        r == (0x30 <= b && b <= 0x39),
{
    0x30 <= b && b <= 0x39
}

fn is_hex_digit(b: u8) -> (r: bool)
    ensures
        r == ((0x30 <= b && b <= 0x39) || (0x41 <= b && b <= 0x46) || (0x61 <= b && b <= 0x66)),
{
    (0x30 <= b && b <= 0x39) || (0x41 <= b && b <= 0x46) || (0x61 <= b && b <= 0x66)
}

fn is_space(b: u8) -> (r: bool)
    ensures
        r == is_ws(b),
{
    b == 0x09 || b == 0x0A || b == 0x0C || b == 0x20
}

/// The lower-case letter of an upper-case ASCII byte.
fn lower_char(b: u8) -> (c: char)
    requires
        0x41 <= b <= 0x5A,
    ensures
        !is_upper(c),
        c == ((b + 0x20) as u8) as char,
{
    (b + 0x20) as char
}

/// The character that a C1 control code stands for in Windows-1252, for the
/// codes that have one; any other code is returned as it is.
pub open spec fn c1_replacement(code: u32) -> u32 {
    match code {
        0x80 => 0x20AC,
        0x82 => 0x201A,
        0x83 => 0x0192,
        0x84 => 0x201E,
        0x85 => 0x2026,
        0x86 => 0x2020,
        0x87 => 0x2021,
        0x88 => 0x02C6,
        0x89 => 0x2030,
        0x8A => 0x0160,
        0x8B => 0x2039,
        0x8C => 0x0152,
        0x8E => 0x017D,
        0x91 => 0x2018,
        0x92 => 0x2019,
        0x93 => 0x201C,
        0x94 => 0x201D,
        0x95 => 0x2022,
        0x96 => 0x2013,
        0x97 => 0x2014,
        0x98 => 0x02DC,
        0x99 => 0x2122,
        0x9A => 0x0161,
        0x9B => 0x203A,
        0x9C => 0x0153,
        0x9E => 0x017E,
        0x9F => 0x0178,
        _ => code,
    }
}

/// The scalar value that a numeric character reference resolves to.
pub open spec fn reference_value(code: u32) -> u32 {
    if code == 0 || code > 0x10FFFF || (0xD800 <= code && code <= 0xDFFF) {
        0xFFFD
    } else if 0x80 <= code && code <= 0x9F {
        c1_replacement(code)
    } else {
        code
    }
}

/// The parse error that a numeric character reference raises, if any.
pub open spec fn reference_error(code: u32) -> Option<ParseError> {
    if code == 0 {
        Some(ParseError::NullCharacterReference)
    } else if code > 0x10FFFF {
        Some(ParseError::CharacterReferenceOutsideUnicodeRange)
    } else if 0xD800 <= code && code <= 0xDFFF {
        Some(ParseError::SurrogateCharacterReference)
    } else if (0xFDD0 <= code && code <= 0xFDEF) || code % 0x10000 >= 0xFFFE {
        Some(ParseError::NoncharacterCharacterReference)
    } else if code == 0x0D || ((code <= 0x1F || (0x7F <= code && code <= 0x9F)) && !(code == 0x09
        || code == 0x0A || code == 0x0C || code == 0x20)) {
        Some(ParseError::ControlCharacterReference)
    } else {
        None
    }
}

fn c1_replacement_exec(code: u32) -> (r: u32)
    ensures
        r == c1_replacement(code),
{
    match code {
        0x80 => 0x20AC,
        0x82 => 0x201A,
        0x83 => 0x0192,
        0x84 => 0x201E,
        0x85 => 0x2026,
        0x86 => 0x2020,
        0x87 => 0x2021,
        0x88 => 0x02C6,
        0x89 => 0x2030,
        0x8A => 0x0160,
        0x8B => 0x2039,
        0x8C => 0x0152,
        0x8E => 0x017D,
        0x91 => 0x2018,
        0x92 => 0x2019,
        0x93 => 0x201C,
        0x94 => 0x201D,
        0x95 => 0x2022,
        0x96 => 0x2013,
        0x97 => 0x2014,
        0x98 => 0x02DC,
        0x99 => 0x2122,
        0x9A => 0x0161,
        0x9B => 0x203A,
        0x9C => 0x0153,
        0x9E => 0x017E,
        0x9F => 0x0178,
        _ => code,
    }
}

/// Resolves the number read by a numeric character reference to a
/// character, with the parse error it raises.
pub fn resolve_numeric_reference(code: u32) -> (r: (char, Option<ParseError>))
    ensures
        r.0 as u32 == reference_value(code),
        r.1 == reference_error(code),
{
    let err = if code == 0 {
        Some(ParseError::NullCharacterReference)
    } else if code > 0x10FFFF {
        Some(ParseError::CharacterReferenceOutsideUnicodeRange)
    } else if 0xD800 <= code && code <= 0xDFFF {
        Some(ParseError::SurrogateCharacterReference)
    } else if (0xFDD0 <= code && code <= 0xFDEF) || code % 0x10000 >= 0xFFFE {
        Some(ParseError::NoncharacterCharacterReference)
    } else if code == 0x0D || ((code <= 0x1F || (0x7F <= code && code <= 0x9F)) && !(code == 0x09
        || code == 0x0A || code == 0x0C || code == 0x20)) {
        Some(ParseError::ControlCharacterReference)
    } else {
        None
    };
    let v = if code == 0 || code > 0x10FFFF || (0xD800 <= code && code <= 0xDFFF) {
        0xFFFD
    } else if 0x80 <= code && code <= 0x9F {
        c1_replacement_exec(code)
    } else {
        code
    };
    match char_from_u32(v) {
        Some(c) => (c, err),
        None => ('\u{FFFD}', err),
    }
}

/// Adds one digit to the number of a numeric character reference; past
/// U+10FFFF the number stays at 0x110000.
fn accumulate_digit(code: u32, base: u32, digit: u32) -> (r: u32)
    requires
        base <= 16,
        digit < base,
    ensures
        code > 0x10FFFF ==> r == 0x110000,
        code <= 0x10FFFF ==> r == if code * base + digit > 0x10FFFF {
            0x110000
        } else {
            code * base + digit
        },
{
    if code > 0x10FFFF {
        0x110000
    } else {
        assert(code * base <= 0x10FFFF * 16) by (nonlinear_arith)
            requires
                code <= 0x10FFFF,
                base <= 16,
        ;
        let v = code * base + digit;
        if v > 0x10FFFF {
            0x110000
        } else {
            v
        }
    }
}

fn is_alnum(b: u8) -> (r: bool)
    ensures
        r == ((0x30 <= b && b <= 0x39) || (0x41 <= b && b <= 0x5A) || (0x61 <= b && b <= 0x7A)),
{
    (0x30 <= b && b <= 0x39) || (0x41 <= b && b <= 0x5A) || (0x61 <= b && b <= 0x7A)
}

/// The value of an ASCII hexadecimal digit.
fn hex_value(b: u8) -> (r: u32)
    requires
        (0x30 <= b && b <= 0x39) || (0x41 <= b && b <= 0x46) || (0x61 <= b && b <= 0x66),
    ensures
        r < 16,
{
    if b <= 0x39 {
        (b - 0x30) as u32
    } else if b <= 0x46 {
        (b - 0x41 + 10) as u32
    } else {
        (b - 0x61 + 10) as u32
    }
}

/// One step on a tag without attributes keeps the machine on that tag's
/// path, and the step that reads its `>` emits it and returns to data.
proof fn lemma_tag_phase_step(
    old: Tokenizer,
    new: Tokenizer,
    data: Seq<u8>,
    p0: int,
    q: int,
    e: bool,
    ts0: Seq<Token>,
)
    requires
        simple_tag_at(data, p0, q, e),
        old.input.data() == data,
        !old.done,
        old.tag_phase_at(data, p0, q, e, ts0),
        new.moved_on(&old),
        new.tag_path(&old),
        new.comment_path(&old),
    ensures
        new.tag_phase_at(data, p0, q, e, ts0),
        old.input.position() <= q < new.input.position() ==> new.state == TokenizerState::Data
            && !new.done && new.input.position() == q + 1 && new.tokens@.len() == ts0.len() + 1,
{
    let p = old.input.position() as int;
    let st = old.state;
    let ts = old.tokens@;
    let ns = name_start(p0, e);
    if ns <= p <= q && st == TokenizerState::TagName {
        if p < q {
            assert(is_letter(data[p]));
            assert(lower_chars(data.subrange(ns, p + 1)) =~= lower_chars(data.subrange(ns, p)).push(
                ascii_lower(data[p]) as char,
            ));
        } else {
            assert(new.tokens@.drop_last() == ts);
        }
    } else if ns <= p <= q {
        assert(is_letter(data[ns]));
        assert(lower_chars(data.subrange(ns, ns)) =~= Seq::<char>::empty());
        assert(new.tag.name@ =~= Seq::<char>::empty());
    } else if p > q {
        assert(new.tokens@[ts0.len() as int] == ts[ts0.len() as int]);
    }
}

/// One step on a plain comment keeps the machine on that comment's path,
/// and the step that reads its closing `>` emits it and returns to data.
proof fn lemma_comment_phase_step(
    old: Tokenizer,
    new: Tokenizer,
    data: Seq<u8>,
    p0: int,
    q: int,
    ts0: Seq<Token>,
)
    requires
        plain_comment_at(data, p0, q),
        old.input.data() == data,
        !old.done,
        old.comment_phase_at(data, p0, q, ts0),
        new.moved_on(&old),
        new.comment_path(&old),
    ensures
        new.comment_phase_at(data, p0, q, ts0),
        old.input.position() <= q + 2 < new.input.position() ==> new.state == TokenizerState::Data
            && !new.done && new.input.position() == q + 3 && new.tokens@.len() == ts0.len() + 1,
{
    let p = old.input.position() as int;
    let st = old.state;
    let ts = old.tokens@;
    if st == TokenizerState::MarkupDeclarationOpen && p == p0 + 2 {
        assert(data.subrange(p0 + 4, p0 + 4) =~= Seq::<u8>::empty());
        assert(ascii_chars(data.subrange(p0 + 4, p0 + 4)) =~= Seq::<char>::empty());
        assert(new.comment@ =~= Seq::<char>::empty());
    } else if p0 + 4 <= p < q && st == TokenizerState::Comment {
        assert(plain_comment_byte(data[p]));
        assert(ascii_chars(data.subrange(p0 + 4, p + 1)) =~= ascii_chars(data.subrange(p0 + 4, p)).push(
            data[p] as char,
        ));
    } else if p == p0 + 4 && st == TokenizerState::CommentStart && q > p0 + 4 {
        assert(plain_comment_byte(data[p]));
    } else if p == q + 2 {
        assert(new.tokens@.drop_last() == ts);
        assert(new.tokens@[ts0.len() as int] == new.tokens@.last());
    } else if p >= q + 3 {
        assert(new.tokens@[ts0.len() as int] == ts[ts0.len() as int]);
    }
}

/// One step on a DOCTYPE with only a name keeps the machine on its path.
proof fn lemma_doctype_phase_step(old: Tokenizer, new: Tokenizer, data: Seq<u8>, p0: int, q: int, ts0: Seq<Token>)
    requires
        simple_doctype_at(data, p0, q),
        old.input.data() == data,
        !old.done,
        old.doctype_phase_at(data, p0, q, ts0),
        new.moved_on(&old),
        new.comment_path(&old),
        new.doctype_path(&old),
        new.before_doctype_name_step(&old) || old.state != TokenizerState::BeforeDOCTYPEName,
    ensures
        new.doctype_phase_at(data, p0, q, ts0),
{
    let p = old.input.position() as int;
    let st = old.state;
    let ts = old.tokens@;
    if p == p0 + 2 {
        assert(old.input.rest()[0] == data[p0 + 2]);
        assert(starts_with_literal(old.input.rest(), doctype_word(), true)) by {
            assert forall|i: int| 0 <= i < 7 implies ascii_lower(#[trigger] old.input.rest()[i]) == ascii_lower(
                doctype_word()[i],
            ) by {
                assert(old.input.rest()[i] == data[p0 + 2 + i]);
            }
        }
    } else if p == p0 + 10 {
        let b = data[p];
        assert(is_letter(b));
        assert(lower_chars(data.subrange(p0 + 10, p + 1)) =~= seq![ascii_lower(b) as char]);
        assert(new.doctype.name@ =~= seq![ascii_lower(b) as char]);
    } else if p0 + 10 < p < q {
        assert(is_letter(data[p]));
        assert(lower_chars(data.subrange(p0 + 10, p + 1)) =~= lower_chars(data.subrange(p0 + 10, p)).push(
            ascii_lower(data[p]) as char,
        ));
    } else if p == q {
        assert(new.tokens@.drop_last() == ts);
        assert(new.tokens@.len() == ts0.len() + 1);
        assert(new.tokens@[ts0.len() as int] == new.tokens@.last());
        assert(old.built_doctype(new.tokens@.last(), false));
    } else if p > q {
        assert(new.tokens@[ts0.len() as int] == ts[ts0.len() as int]);
    }
}

/// One step on a self-closing tag without attributes keeps the machine on
/// its path.
proof fn lemma_self_closing_phase_step(
    old: Tokenizer,
    new: Tokenizer,
    data: Seq<u8>,
    p0: int,
    m: int,
    q: int,
    ts0: Seq<Token>,
)
    requires
        self_closing_tag_at(data, p0, m, q),
        old.input.data() == data,
        !old.done,
        old.self_closing_phase_at(data, p0, m, q, ts0),
        new.moved_on(&old),
        new.comment_path(&old),
        new.tag_path(&old),
        new.solidus_path(&old),
    ensures
        new.self_closing_phase_at(data, p0, m, q, ts0),
{
    let p = old.input.position() as int;
    let st = old.state;
    let ts = old.tokens@;
    if p == p0 + 1 && st == TokenizerState::TagOpen {
        assert(is_letter(data[p0 + 1]));
        assert(lower_chars(data.subrange(p0 + 1, p0 + 1)) =~= Seq::<char>::empty());
        assert(new.tag.name@ =~= Seq::<char>::empty());
    } else if p0 + 1 <= p < m {
        assert(is_letter(data[p]));
        assert(lower_chars(data.subrange(p0 + 1, p + 1)) =~= lower_chars(data.subrange(p0 + 1, p)).push(
            ascii_lower(data[p]) as char,
        ));
    } else if p == q {
        assert(new.tokens@[ts0.len() as int] == new.tokens@.last());
    } else if p > q {
        assert(new.tokens@[ts0.len() as int] == ts[ts0.len() as int]);
    }
}

impl Tokenizer {
    /// The tokens emitted so far.
    pub closed spec fn token_seq(&self) -> Seq<Token> {
        self.tokens@
    }

    /// The whole input.
    pub closed spec fn input_bytes(&self) -> Seq<u8> {
        self.input.data()
    }

    /// The index of the next input byte.
    pub closed spec fn position(&self) -> nat {
        self.input.position()
    }

    /// In the data state and not finished.
    pub closed spec fn in_data_state(&self) -> bool {
        self.state == TokenizerState::Data && !self.done
    }

    /// Whether `<![CDATA[` is read as a CDATA section.
    pub closed spec fn foreign_content(&self) -> bool {
        self.in_foreign_content
    }

    /// Whether the self-closing flag of the last start tag awaits its
    /// acknowledgement.
    pub closed spec fn self_closing_pending(&self) -> bool {
        self.self_closing_unacknowledged
    }

    /// The state a character reference returns to.
    pub closed spec fn return_state_of(&self) -> TokenizerState {
        self.return_state
    }

    /// The temporary buffer.
    pub closed spec fn temporary_buffer_view(&self) -> Seq<char> {
        self.temporary_buffer@
    }

    /// The name of the last start tag emitted, if any.
    pub closed spec fn last_start_tag_view(&self) -> Option<Seq<char>> {
        match self.last_start_tag {
            Some(n) => Some(n@),
            None => None,
        }
    }

    /// The tag, attribute, comment and DOCTYPE builders are empty.
    pub closed spec fn builders_empty(&self) -> bool {
        &&& self.tag.name@.len() == 0
        &&& !self.tag.is_end
        &&& !self.tag.self_closing
        &&& self.tag.attributes@.len() == 0
        &&& self.tag.attr_name@.len() == 0
        &&& self.tag.attr_value@.len() == 0
        &&& !self.tag.attr_pending
        &&& self.comment@.len() == 0
        &&& !self.doctype.has_name && !self.doctype.has_public_id && !self.doctype.has_system_id
        &&& !self.doctype.force_quirks
    }

    /// The entity table that named references are resolved through.
    pub closed spec fn entity_table(&self) -> EntityTable {
        self.entities
    }

    /// The current state.
    pub closed spec fn current_state(&self) -> TokenizerState {
        self.state
    }

    /// The parse errors raised so far.
    pub closed spec fn error_seq(&self) -> Seq<ParseError> {
        self.errors@
    }

    /// Whether the end-of-file token has been emitted.
    pub closed spec fn is_done(&self) -> bool {
        self.done
    }

    /// In the data state at the start of the input, with nothing emitted.
    pub closed spec fn at_start_in_data(&self) -> bool {
        self.state == TokenizerState::Data && self.input.position() == 0 && self.tokens@.len() == 0
            && !self.done
    }

    pub closed spec fn wf(&self) -> bool {
        &&& self.input.wf()
        &&& is_return_state(self.return_state)
        &&& self.entities.wf()
        &&& no_upper(self.tag.name@)
        &&& attrs_ok(self.tag.attributes@)
        &&& no_upper(self.tag.attr_name@)
        &&& tags_ok(self.tokens@)
        &&& if self.done {
            eof_terminated(self.tokens@)
        } else {
            no_eof(self.tokens@)
        }
    }

    spec fn ready(&self, s: TokenizerState) -> bool {
        self.wf() && !self.done && self.state == s
    }

    /// One step of the machine: it read input, finished, or moved to a
    /// state of lower rank on the same byte.
    spec fn moved_on(&self, old: &Self) -> bool {
        &&& self.wf()
        &&& self.input.data() == old.input.data()
        &&& old.input.position() <= self.input.position()
        &&& old.tokens@.is_prefix_of(self.tokens@)
        &&& old.errors@.is_prefix_of(self.errors@)
        &&& (self.done || self.input.position() > old.input.position() || rank(
            self.state,
            self.input.peek(),
        ) < rank(old.state, old.input.peek()))
    }

    /// What the data state does with plain text and with the end of input.
    spec fn data_step(&self, old: &Self) -> bool {
        &&& (old.input.peek() is Some && plain_byte(old.input.peek()->0)) ==> {
            &&& self.state == TokenizerState::Data
            &&& !self.done
            &&& self.input.position() == old.input.position() + 1
            &&& self.tokens@ == old.tokens@.push(Token::Character { data: old.input.peek()->0 as char })
        }
        &&& old.input.peek() is None ==> self.tokens@ == old.tokens@.push(Token::EndOfFile)
            && self.state == TokenizerState::Data && self.done
    }

    /// What the states on the path of a plain comment do with the bytes of
    /// that path.
    spec fn comment_path(&self, old: &Self) -> bool {
        let b = old.input.peek();
        let p = old.input.position();
        let same = self.tokens@ == old.tokens@ && !self.done && self.comment@ == old.comment@;
        &&& (old.state == TokenizerState::Data && b == Some(0x3Cu8)) ==> self.state
            == TokenizerState::TagOpen && self.input.position() == p + 1 && self.tokens@
            == old.tokens@ && !self.done
        &&& (old.state == TokenizerState::TagOpen && b == Some(0x21u8)) ==> self.state
            == TokenizerState::MarkupDeclarationOpen && self.input.position() == p + 1
            && self.tokens@ == old.tokens@ && !self.done
        &&& (old.state == TokenizerState::MarkupDeclarationOpen && p + 2 <= old.input.data().len()
            && old.input.data()[p as int] == 0x2D && old.input.data()[p + 1 as int] == 0x2D) ==> self.state
            == TokenizerState::CommentStart && self.input.position() == p + 2 && self.tokens@
            == old.tokens@ && !self.done && self.comment@.len() == 0
        &&& (old.state == TokenizerState::CommentStart && b == Some(0x2Du8)) ==> self.state
            == TokenizerState::CommentStartDash && self.input.position() == p + 1 && same
        &&& (old.state == TokenizerState::CommentStart && b is Some && b->0 != 0x2D && b->0 != 0x3E)
            ==> self.state == TokenizerState::Comment && self.input.position() == p && same
        &&& (old.state == TokenizerState::CommentStartDash && b == Some(0x2Du8)) ==> self.state
            == TokenizerState::CommentEnd && self.input.position() == p + 1 && same
        &&& (old.state == TokenizerState::Comment && b is Some && plain_comment_byte(b->0))
            ==> self.state == TokenizerState::Comment && self.input.position() == p + 1
            && self.tokens@ == old.tokens@ && !self.done && self.comment@ == old.comment@.push(
            b->0 as char,
        )
        &&& (old.state == TokenizerState::Comment && b == Some(0x2Du8)) ==> self.state
            == TokenizerState::CommentEndDash && self.input.position() == p + 1 && same
        &&& (old.state == TokenizerState::CommentEndDash && b == Some(0x2Du8)) ==> self.state
            == TokenizerState::CommentEnd && self.input.position() == p + 1 && same
        &&& (old.state == TokenizerState::CommentEnd && b == Some(0x3Eu8)) ==> self.state
            == TokenizerState::Data && self.input.position() == p + 1 && !self.done
            && self.tokens@.drop_last() == old.tokens@ && ends_with_comment(self.tokens@, old.comment@)
    }

    /// Where the machine stands on a plain comment that starts at `p0` and
    /// closes at `q`, entered in the data state with `ts0` emitted.
    spec fn comment_phase_at(&self, data: Seq<u8>, p0: int, q: int, ts0: Seq<Token>) -> bool {
        let p = self.input.position() as int;
        if self.done || p >= q + 3 {
            comment_token_at(self.tokens@, ts0.len() as int, ascii_chars(data.subrange(p0 + 4, q)))
        } else if p == p0 {
            self.state == TokenizerState::Data && self.tokens@ == ts0
        } else if p == p0 + 1 {
            self.state == TokenizerState::TagOpen && self.tokens@ == ts0
        } else if p == p0 + 2 {
            self.state == TokenizerState::MarkupDeclarationOpen && self.tokens@ == ts0
        } else if p0 + 4 <= p <= q {
            &&& (self.state == TokenizerState::Comment || (self.state == TokenizerState::CommentStart
                && p == p0 + 4))
            &&& self.comment@ == ascii_chars(data.subrange(p0 + 4, p))
            &&& self.tokens@ == ts0
        } else if p == q + 1 {
            &&& (self.state == TokenizerState::CommentEndDash || (self.state
                == TokenizerState::CommentStartDash && q == p0 + 4))
            &&& self.comment@ == ascii_chars(data.subrange(p0 + 4, q))
            &&& self.tokens@ == ts0
        } else if p == q + 2 {
            self.state == TokenizerState::CommentEnd && self.comment@ == ascii_chars(
                data.subrange(p0 + 4, q),
            ) && self.tokens@ == ts0
        } else {
            false
        }
    }

    /// A tag builder with nothing in it.
    spec fn fresh_tag(&self, is_end: bool) -> bool {
        &&& self.tag.name@.len() == 0
        &&& self.tag.is_end == is_end
        &&& !self.tag.self_closing
        &&& self.tag.attributes@.len() == 0
        &&& !self.tag.attr_pending
    }

    /// What the states on the path of a tag without attributes do with the
    /// bytes of that path.
    spec fn tag_path(&self, old: &Self) -> bool {
        let b = old.input.peek();
        let p = old.input.position();
        &&& (old.state == TokenizerState::TagOpen && b == Some(0x2Fu8)) ==> self.state
            == TokenizerState::EndTagOpen && self.input.position() == p + 1 && self.tokens@
            == old.tokens@ && !self.done
        &&& (old.state == TokenizerState::TagOpen && b is Some && is_letter(b->0)) ==> self.state
            == TokenizerState::TagName && self.input.position() == p && self.tokens@ == old.tokens@
            && !self.done && self.fresh_tag(false)
        &&& (old.state == TokenizerState::EndTagOpen && b is Some && is_letter(b->0)) ==> self.state
            == TokenizerState::TagName && self.input.position() == p && self.tokens@ == old.tokens@
            && !self.done && self.fresh_tag(true)
        &&& (old.state == TokenizerState::TagName && b is Some && is_letter(b->0)) ==> self.state
            == TokenizerState::TagName && self.input.position() == p + 1 && self.tokens@
            == old.tokens@ && !self.done && self.tag.name@ == old.tag.name@.push(
            ascii_lower(b->0) as char,
        ) && self.tag.is_end == old.tag.is_end && self.tag.self_closing == old.tag.self_closing
            && self.tag.attributes@.len() == old.tag.attributes@.len() && self.tag.attr_pending
            == old.tag.attr_pending
        &&& (old.state == TokenizerState::TagName && b == Some(0x3Eu8) && !old.tag.attr_pending)
            ==> self.state == TokenizerState::Data && self.input.position() == p + 1 && !self.done
            && self.tokens@.drop_last() == old.tokens@ && tag_token_at(
            self.tokens@,
            old.tokens@.len() as int,
            old.tag.is_end,
            old.tag.name@,
            old.tag.self_closing,
            old.tag.attributes@.len(),
        )
    }

    /// Where the machine stands on a tag without attributes that starts at
    /// `p0` and closes at `q`, entered in the data state with `ts0` emitted.
    spec fn tag_phase_at(&self, data: Seq<u8>, p0: int, q: int, is_end: bool, ts0: Seq<Token>) -> bool {
        let p = self.input.position() as int;
        let ns = name_start(p0, is_end);
        if self.done || p > q {
            tag_token_at(self.tokens@, ts0.len() as int, is_end, lower_chars(data.subrange(ns, q)), false, 0)
        } else if p == p0 {
            self.state == TokenizerState::Data && self.tokens@ == ts0
        } else if is_end && p == p0 + 1 {
            self.state == TokenizerState::TagOpen && self.tokens@ == ts0
        } else if ns <= p <= q {
            &&& self.tokens@ == ts0
            &&& if self.state == TokenizerState::TagName {
                &&& self.tag.name@ == lower_chars(data.subrange(ns, p))
                &&& self.tag.is_end == is_end
                &&& !self.tag.self_closing
                &&& self.tag.attributes@.len() == 0
                &&& !self.tag.attr_pending
            } else {
                p == ns && ((!is_end && self.state == TokenizerState::TagOpen) || (is_end && self.state
                    == TokenizerState::EndTagOpen))
            }
        } else {
            false
        }
    }

    /// The DOCTYPE token that the builder holds, with the given quirks flag.
    spec fn built_doctype(&self, t: Token, force_quirks: bool) -> bool {
        doctype_token(
            t,
            opt_view(self.doctype.has_name, self.doctype.name@),
            opt_view(self.doctype.has_public_id, self.doctype.public_id@),
            opt_view(self.doctype.has_system_id, self.doctype.system_id@),
            force_quirks,
        )
    }

    /// The end tag being read has the name of the last start tag emitted.
    spec fn appropriate(&self) -> bool {
        &&& self.tag.is_end
        &&& self.last_start_tag is Some
        &&& self.last_start_tag->0@ == self.tag.name@
    }

    /// Nothing emitted, no error raised, and not finished if it was not.
    spec fn same_output(&self, old: &Self) -> bool {
        self.tokens@ == old.tokens@ && self.errors@ == old.errors@ && self.done == old.done
    }

    /// The DOCTYPE builder is cleared.
    spec fn doctype_empty(&self) -> bool {
        !self.doctype.has_name && !self.doctype.has_public_id && !self.doctype.has_system_id
            && !self.doctype.force_quirks
    }

    /// The DOCTYPE builder holds only a name, with this text.
    spec fn doctype_named(&self, name: Seq<char>) -> bool {
        &&& self.doctype.has_name
        &&& self.doctype.name@ == name
        &&& !self.doctype.has_public_id
        &&& !self.doctype.has_system_id
        &&& !self.doctype.force_quirks
    }

    /// End of input in a DOCTYPE state: the DOCTYPE so far is emitted with
    /// `force_quirks` set, then end of file, with an eof-in-doctype error.
    spec fn doctype_eof_step(&self, old: &Self, fresh: bool) -> bool {
        let n = old.tokens@.len() as int;
        &&& self.done
        &&& self.tokens@.len() == n + 2
        &&& self.tokens@.subrange(0, n) == old.tokens@
        &&& (if fresh {
            doctype_token(self.tokens@[n], None, None, None, true)
        } else {
            old.built_doctype(self.tokens@[n], true)
        })
        &&& self.tokens@.last() is EndOfFile
        &&& self.errors@ == old.errors@.push(ParseError::EofInDoctype)
    }

    /// The DOCTYPE so far is emitted with `force_quirks` set and the state
    /// goes back to data, with the given error.
    spec fn doctype_quirks_emit_step(&self, old: &Self, e: ParseError) -> bool {
        &&& self.state == TokenizerState::Data
        &&& self.input.position() == old.input.position() + 1
        &&& self.tokens@.len() == old.tokens@.len() + 1
        &&& self.tokens@.drop_last() == old.tokens@
        &&& old.built_doctype(self.tokens@.last(), true)
        &&& self.errors@ == old.errors@.push(e)
        &&& self.doctype_empty()
    }

    /// What the before-DOCTYPE-name state does with each input.
    spec fn before_doctype_name_step(&self, old: &Self) -> bool {
        let b = old.input.peek();
        let p = old.input.position();
        let n = old.tokens@.len() as int;
        &&& b is None ==> self.doctype_eof_step(old, true)
        &&& (b is Some && is_ws(b->0)) ==> self.state == TokenizerState::BeforeDOCTYPEName
            && self.input.position() == p + 1 && self.same_output(old)
        &&& (b is Some && 0x41 <= b->0 <= 0x5A) ==> self.state == TokenizerState::DOCTYPEName
            && self.input.position() == p + 1 && self.same_output(old) && self.doctype_named(
            seq![ascii_lower(b->0) as char],
        )
        &&& b == Some(0u8) ==> self.state == TokenizerState::DOCTYPEName && self.input.position() == p
            + 1 && self.tokens@ == old.tokens@ && self.errors@ == old.errors@.push(
            ParseError::UnexpectedNullCharacter,
        ) && self.doctype_named(seq!['\u{FFFD}'])
        &&& b == Some(0x3Eu8) ==> self.state == TokenizerState::Data && self.input.position() == p + 1
            && self.tokens@.len() == n + 1 && self.tokens@.drop_last() == old.tokens@ && doctype_token(
            self.tokens@.last(),
            None,
            None,
            None,
            true,
        ) && self.errors@ == old.errors@.push(ParseError::MissingDoctypeName) && self.doctype_empty()
        &&& (b is Some && !is_ws(b->0) && !(0x41 <= b->0 <= 0x5A) && b->0 != 0 && b->0 != 0x3E)
            ==> self.state == TokenizerState::DOCTYPEName && self.input.position() > p
            && self.same_output(old) && self.doctype.has_name && self.doctype.name@.len() == 1
            && !self.doctype.has_public_id && !self.doctype.has_system_id
            && !self.doctype.force_quirks && (b->0 < 0x80 ==> self.doctype.name@[0] == b->0 as char
            && self.input.position() == p + 1)
    }

    /// The identifier is started empty and every other DOCTYPE field kept.
    spec fn doctype_id_started(&self, old: &Self, system: bool) -> bool {
        &&& self.doctype.has_name == old.doctype.has_name
        &&& self.doctype.name@ == old.doctype.name@
        &&& self.doctype.force_quirks == old.doctype.force_quirks
        &&& if system {
            &&& self.doctype.has_system_id && self.doctype.system_id@.len() == 0
            &&& self.doctype.has_public_id == old.doctype.has_public_id
            &&& self.doctype.public_id@ == old.doctype.public_id@
        } else {
            &&& self.doctype.has_public_id && self.doctype.public_id@.len() == 0
            &&& self.doctype.has_system_id == old.doctype.has_system_id
            &&& self.doctype.system_id@ == old.doctype.system_id@
        }
    }

    /// What a state before a public or system identifier does with each
    /// input: `ws_state` is where whitespace leads, `ws_error` the error for
    /// a quote without whitespace before it (if any).
    spec fn before_id_step(
        &self,
        old: &Self,
        system: bool,
        ws_state: TokenizerState,
        ws_error: Option<ParseError>,
        dq_state: TokenizerState,
        sq_state: TokenizerState,
        missing_id: ParseError,
        missing_quote: ParseError,
    ) -> bool {
        let b = old.input.peek();
        let p = old.input.position();
        let quote_errors = match ws_error {
            Some(e) => old.errors@.push(e),
            None => old.errors@,
        };
        &&& b is None ==> self.doctype_eof_step(old, false)
        &&& (b is Some && is_ws(b->0)) ==> self.state == ws_state && self.input.position() == p + 1
            && self.same_output(old) && self.doctype == old.doctype
        &&& b == Some(0x22u8) ==> self.state == dq_state && self.input.position() == p + 1
            && self.tokens@ == old.tokens@ && self.errors@ == quote_errors && self.doctype_id_started(
            old,
            system,
        )
        &&& b == Some(0x27u8) ==> self.state == sq_state && self.input.position() == p + 1
            && self.tokens@ == old.tokens@ && self.errors@ == quote_errors && self.doctype_id_started(
            old,
            system,
        )
        &&& b == Some(0x3Eu8) ==> self.doctype_quirks_emit_step(old, missing_id)
        &&& (b is Some && !is_ws(b->0) && b->0 != 0x22 && b->0 != 0x27 && b->0 != 0x3E) ==> self.state
            == TokenizerState::BogusDOCTYPE && self.input.position() == p && self.tokens@
            == old.tokens@ && self.errors@ == old.errors@.push(missing_quote)
            && self.doctype.force_quirks && self.doctype.has_name == old.doctype.has_name
            && self.doctype.name@ == old.doctype.name@ && self.doctype.has_public_id
            == old.doctype.has_public_id && self.doctype.public_id@ == old.doctype.public_id@
            && self.doctype.has_system_id == old.doctype.has_system_id && self.doctype.system_id@
            == old.doctype.system_id@
    }

    /// What an end-tag-name state of a text content model does with each
    /// input; `text_state` is the text state it falls back to.
    spec fn end_tag_name_step(&self, old: &Self, text_state: TokenizerState) -> bool {
        let b = old.input.peek();
        let p = old.input.position();
        let n = old.tokens@.len() as int;
        let letter = b is Some && is_letter(b->0);
        let closes = b is Some && (is_ws(b->0) || b->0 == 0x2F || b->0 == 0x3E) && old.appropriate();
        &&& (b is Some && is_ws(b->0) && old.appropriate()) ==> self.state
            == TokenizerState::BeforeAttributeName && self.input.position() == p + 1
            && self.same_output(old) && self.tag == old.tag
        &&& (b == Some(0x2Fu8) && old.appropriate()) ==> self.state
            == TokenizerState::SelfClosingStartTag && self.input.position() == p + 1
            && self.same_output(old) && self.tag == old.tag
        &&& (b == Some(0x3Eu8) && old.appropriate() && !old.tag.attr_pending) ==> self.state
            == TokenizerState::Data && self.input.position() == p + 1 && self.tokens@.drop_last()
            == old.tokens@ && tag_token_at(
            self.tokens@,
            n,
            old.tag.is_end,
            old.tag.name@,
            old.tag.self_closing,
            old.tag.attributes@.len(),
        )
        &&& letter ==> self.state == old.state && self.input.position() == p + 1
            && self.same_output(old) && self.tag.name@ == old.tag.name@.push(
            ascii_lower(b->0) as char,
        ) && self.temporary_buffer@ == old.temporary_buffer@.push(b->0 as char)
        &&& (!letter && !closes) ==> self.state == text_state && self.input.position() == p
            && old.tokens@.is_prefix_of(self.tokens@) && text_at(
            self.tokens@,
            n,
            seq!['<', '/'] + old.temporary_buffer@,
        ) && self.errors@ == old.errors@ && self.temporary_buffer@.len() == 0
    }

    /// End of input inside a comment: the comment so far is emitted, then
    /// end of file, with an eof-in-comment error.
    spec fn comment_eof_step(&self, old: &Self) -> bool {
        let n = old.tokens@.len() as int;
        &&& self.done
        &&& self.tokens@.len() == n + 2
        &&& self.tokens@.subrange(0, n) == old.tokens@
        &&& comment_token_at(self.tokens@, n, old.comment@)
        &&& self.tokens@.last() is EndOfFile
        &&& self.errors@ == old.errors@.push(ParseError::EofInComment)
    }

    /// `>` closes the comment at once: it is emitted with the given error
    /// and the state goes back to data.
    spec fn abrupt_comment_step(&self, old: &Self) -> bool {
        &&& self.state == TokenizerState::Data
        &&& self.input.position() == old.input.position() + 1
        &&& self.tokens@.drop_last() == old.tokens@
        &&& ends_with_comment(self.tokens@, old.comment@)
        &&& self.errors@ == old.errors@.push(ParseError::AbruptClosingOfEmptyComment)
    }

    /// The state changed to `next` and nothing else happened.
    spec fn only_moved_to(&self, old: &Self, next: TokenizerState, advanced: nat) -> bool {
        &&& self.state == next
        &&& self.input.position() == old.input.position() + advanced
        &&& self.same_output(old)
        &&& self.comment@ == old.comment@
        &&& self.tag == old.tag
    }

    /// The temporary buffer was handed on as `flush_code_points` does.
    spec fn flushed(&self, old: &Self) -> bool {
        &&& old.tokens@.is_prefix_of(self.tokens@)
        &&& self.in_attribute_mode() ==> self.tokens@ == old.tokens@ && self.tag.attr_value@
            == old.tag.attr_value@ + self.temporary_buffer@
        &&& !self.in_attribute_mode() ==> text_at(
            self.tokens@,
            old.tokens@.len() as int,
            self.temporary_buffer@,
        )
    }

    /// What a named character reference that matched entry `i` of the table
    /// leaves in the temporary buffer, and the error it raises.
    spec fn reference_text(&self, old: &Self, i: int) -> bool {
        let rest = old.input.rest();
        let key = old.entities.keys()[i];
        let k = key.len() as int;
        let cps = old.entities.values()[i].codepoints@;
        let historical = old.in_attribute_mode() && key[k - 1] != 0x3B && k < rest.len() && (
        rest[k] == 0x3D || is_alnum_byte(rest[k]));
        &&& historical ==> self.temporary_buffer@.len() == old.temporary_buffer@.len() + k
            && self.temporary_buffer@.subrange(0, old.temporary_buffer@.len() as int)
            == old.temporary_buffer@ && (forall|j: int|
            0 <= j < k ==> #[trigger] self.temporary_buffer@[old.temporary_buffer@.len() + j]
                == key[j] as char) && self.errors@ == old.errors@
        &&& !historical ==> self.temporary_buffer@.len() == cps.len() && (forall|j: int|
            0 <= j < cps.len() ==> #[trigger] self.temporary_buffer@[j] as u32 == expansion_value(
                cps[j],
            ))
        &&& (!historical && key[k - 1] != 0x3B) ==> self.errors@ == old.errors@.push(
            ParseError::MissingSemicolonAfterCharacterReference,
        )
        &&& (!historical && key[k - 1] == 0x3B) ==> self.errors@ == old.errors@
    }

    /// What the character-reference state does: the temporary buffer is set
    /// to `&`, then `#` leads to a numeric reference, a letter or digit to a
    /// named one, and anything else hands `&` back as text.
    spec fn char_ref_step(&self, old: &Self) -> bool {
        let b = old.input.peek();
        let p = old.input.position();
        &&& b == Some(0x23u8) ==> self.state == TokenizerState::NumericCharacterReference
            && self.input.position() == p + 1 && self.temporary_buffer@ == seq!['&', '#']
            && self.same_output(old)
        &&& (b is Some && is_alnum_byte(b->0)) ==> self.state == TokenizerState::NamedCharacterReference
            && self.input.position() == p && self.temporary_buffer@ == seq!['&'] && self.same_output(old)
        &&& (b is None || (b->0 != 0x23 && !is_alnum_byte(b->0))) ==> self.state == old.return_state
            && self.input.position() == p && self.temporary_buffer@ == seq!['&'] && self.flushed(old)
            && self.errors@ == old.errors@
    }

    /// What the named-character-reference state does: the longest entity
    /// name the input starts with is read and its expansion handed on;
    /// without one the state becomes the ambiguous-ampersand state.
    spec fn named_ref_step(&self, old: &Self) -> bool {
        let rest = old.input.rest();
        let keys = old.entities.keys();
        let k = longest_key_len(keys, rest);
        let p = old.input.position();
        &&& k == 0 ==> self.state == TokenizerState::AmbiguousAmpersand && self.input.position() == p
            && self.temporary_buffer@ == old.temporary_buffer@ && self.errors@ == old.errors@
            && self.flushed(old)
        &&& k > 0 ==> self.state == old.return_state && self.input.position() == p + k
            && self.flushed(old) && exists|i: int|
            0 <= i < keys.len() && keys[i].len() == k && is_prefix(keys[i], rest)
                && #[trigger] self.reference_text(old, i)
    }

    /// What a quoted public or system identifier state does with each input.
    spec fn quoted_id_step(&self, old: &Self, system: bool, quote: u8, after: TokenizerState, abrupt: ParseError) -> bool {
        let b = old.input.peek();
        let p = old.input.position();
        let id = if system { self.doctype.system_id@ } else { self.doctype.public_id@ };
        let old_id = if system { old.doctype.system_id@ } else { old.doctype.public_id@ };
        let has = if system { self.doctype.has_system_id } else { self.doctype.has_public_id };
        let old_has = if system { old.doctype.has_system_id } else { old.doctype.has_public_id };
        &&& (b is Some && b->0 != 0x3E) ==> has == old_has
        &&& b is None ==> self.doctype_eof_step(old, false)
        &&& b == Some(quote) ==> self.state == after && self.input.position() == p + 1
            && self.same_output(old) && self.doctype == old.doctype
        &&& b == Some(0u8) ==> self.state == old.state && self.input.position() == p + 1
            && self.tokens@ == old.tokens@ && self.errors@ == old.errors@.push(
            ParseError::UnexpectedNullCharacter,
        ) && id == old_id.push('\u{FFFD}')
        &&& b == Some(0x3Eu8) ==> self.doctype_quirks_emit_step(old, abrupt)
        &&& (b is Some && b->0 != quote && b->0 != 0 && b->0 != 0x3E) ==> self.state == old.state
            && self.input.position() > p && self.same_output(old) && id.len() == old_id.len() + 1
            && id == old_id.push(id.last()) && (b->0 < 0x80 ==> id.last() == b->0
            as char) && id.last() as u32 == utf8_at(old.input.data(), p as int).0
    }

    /// What the states that look for the word `script` do with each input.
    spec fn script_word_step(&self, old: &Self, if_script: TokenizerState, otherwise: TokenizerState) -> bool {
        let b = old.input.peek();
        let p = old.input.position();
        &&& (b is Some && (is_ws(b->0) || b->0 == 0x2F || b->0 == 0x3E)) ==> self.input.position() == p
            + 1 && self.state == (if old.temporary_buffer@ == script_word() {
            if_script
        } else {
            otherwise
        }) && self.tokens@ == old.tokens@.push(Token::Character { data: b->0 as char })
            && self.errors@ == old.errors@
        &&& (b is Some && is_letter(b->0)) ==> self.state == old.state && self.input.position() == p + 1
            && self.temporary_buffer@ == old.temporary_buffer@.push(ascii_lower(b->0) as char)
            && self.tokens@ == old.tokens@.push(Token::Character { data: b->0 as char })
            && self.errors@ == old.errors@
        &&& (b is None || !(is_ws(b->0) || b->0 == 0x2F || b->0 == 0x3E || is_letter(b->0)))
            ==> self.state == otherwise && self.input.position() == p && self.same_output(old)
    }

    /// Where the machine stands on an input of segments that started at
    /// `p0` with `ts0` emitted: the current segment starts at `ps`, with
    /// `sts` emitted before it.
    spec fn doc_phase(&self, data: Seq<u8>, p0: int, ts0: Seq<Token>, ps: int, sts: Seq<Token>) -> bool {
        let p = self.input.position() as int;
        &&& self.wf()
        &&& self.input.data() == data
        &&& p0 <= ps <= data.len()
        &&& simple_doc(data, ps)
        &&& sts.is_prefix_of(self.tokens@)
        &&& forall|ts: Seq<Token>|
            self.tokens@.is_prefix_of(ts) && #[trigger] doc_tokens(ts, sts.len() as int, data, ps)
                ==> doc_tokens(ts, ts0.len() as int, data, p0)
        &&& self.done ==> doc_tokens(self.tokens@, sts.len() as int, data, ps)
        &&& (!self.done && (ps == data.len() || plain_byte(data[ps]))) ==> self.state
            == TokenizerState::Data && p == ps && self.tokens@ == sts
        &&& (!self.done && ps < data.len() && !plain_byte(data[ps]) && tag_seg(data, ps)) ==> {
            let (q, e) = tag_choice(data, ps);
            self.tag_phase_at(data, ps, q, e, sts) && p <= q
        }
        &&& (!self.done && ps < data.len() && !plain_byte(data[ps]) && !tag_seg(data, ps)) ==> {
            let q = comment_choice(data, ps);
            self.comment_phase_at(data, ps, q, sts) && p <= q + 2
        }
    }

    /// A step keeps `doc_phase`, moving on to the next segment where the
    /// current one is done.
    proof fn doc_phase_step(
        &self,
        old: Tokenizer,
        data: Seq<u8>,
        p0: int,
        ts0: Seq<Token>,
        ps: int,
        sts: Seq<Token>,
    ) -> (r: (int, Seq<Token>))
        requires
            old.doc_phase(data, p0, ts0, ps, sts),
            !old.done,
            self.moved_on(&old),
            self.tag_path(&old),
            self.comment_path(&old),
            old.state == TokenizerState::Data ==> self.data_step(&old),
        ensures
            self.doc_phase(data, p0, ts0, r.0, r.1),
    {
        let p = old.input.position() as int;
        let n = data.len() as int;
        let k = sts.len() as int;
        assert forall|ts: Seq<Token>|
            self.tokens@.is_prefix_of(ts) && #[trigger] doc_tokens(ts, k, data, ps) implies doc_tokens(
            ts,
            ts0.len() as int,
            data,
            p0,
        ) by {
            assert(old.tokens@.is_prefix_of(ts));
        }
        if ps == n {
            assert(self.tokens@ =~= sts.push(Token::EndOfFile));
            (ps, sts)
        } else if plain_byte(data[ps]) {
            let ps2 = ps + 1;
            let sts2 = self.tokens@;
            self.lemma_next_segment(old, data, p0, ts0, ps, sts, ps2, sts2);
            (ps2, sts2)
        } else {
            lemma_segment_facts(data, ps);
            if tag_seg(data, ps) {
                let (q, e) = tag_choice(data, ps);
                lemma_tag_phase_step(old, *self, data, ps, q, e, sts);
                if q < self.input.position() {
                    let ps2 = q + 1;
                    let sts2 = self.tokens@;
                    assert(sts.is_prefix_of(sts2));
                    self.lemma_next_segment(old, data, p0, ts0, ps, sts, ps2, sts2);
                    (ps2, sts2)
                } else {
                    (ps, sts)
                }
            } else {
                let q = comment_choice(data, ps);
                lemma_comment_phase_step(old, *self, data, ps, q, sts);
                if q + 2 < self.input.position() {
                    let ps2 = q + 3;
                    let sts2 = self.tokens@;
                    self.lemma_next_segment(old, data, p0, ts0, ps, sts, ps2, sts2);
                    (ps2, sts2)
                } else {
                    (ps, sts)
                }
            }
        }
    }

    /// Once the token of the segment at `ps` is out, the machine stands at
    /// the start of the next segment.
    proof fn lemma_next_segment(
        &self,
        old: Tokenizer,
        data: Seq<u8>,
        p0: int,
        ts0: Seq<Token>,
        ps: int,
        sts: Seq<Token>,
        ps2: int,
        sts2: Seq<Token>,
    )
        requires
            old.doc_phase(data, p0, ts0, ps, sts),
            self.wf(),
            self.input.data() == data,
            !self.done,
            ps < data.len(),
            ps2 == segment_end(data, ps),
            sts2 == self.tokens@,
            sts2.len() == sts.len() + 1,
            sts.is_prefix_of(sts2),
            segment_token(sts2, sts.len() as int, data, ps),
            self.state == TokenizerState::Data,
            self.input.position() == ps2,
            old.tokens@.is_prefix_of(self.tokens@),
        ensures
            self.doc_phase(data, p0, ts0, ps2, sts2),
    {
        let k = sts.len() as int;
        assert(simple_doc(data, ps2));
        assert forall|ts: Seq<Token>|
            self.tokens@.is_prefix_of(ts) && #[trigger] doc_tokens(ts, sts2.len() as int, data, ps2)
                implies doc_tokens(ts, ts0.len() as int, data, p0) by {
            assert(ts[k] == sts2[k]);
            assert(segment_token(ts, k, data, ps)) by {
                if plain_byte(data[ps]) {
                } else if tag_seg(data, ps) {
                    let (q, e) = tag_choice(data, ps);
                    assert(tag_token_at(sts2, k, e, lower_chars(data.subrange(name_start(ps, e), q)), false, 0));
                } else {
                    assert(comment_token_at(sts2, k, ascii_chars(data.subrange(ps + 4, comment_choice(data, ps)))));
                }
            }
            assert(doc_tokens(ts, k, data, ps));
            assert(old.tokens@.is_prefix_of(ts));
        }
        if ps2 < data.len() && !plain_byte(data[ps2]) {
            lemma_segment_facts(data, ps2);
            if tag_seg(data, ps2) {
                assert(self.tag_phase_at(data, ps2, tag_choice(data, ps2).0, tag_choice(data, ps2).1, sts2));
            }
        }
    }

    /// What the states on the path of a DOCTYPE with only a name do with the
    /// bytes of that path.
    spec fn doctype_path(&self, old: &Self) -> bool {
        let b = old.input.peek();
        let p = old.input.position();
        &&& (old.state == TokenizerState::MarkupDeclarationOpen && starts_with_literal(
            old.input.rest(),
            doctype_word(),
            true,
        )) ==> self.state == TokenizerState::DOCTYPE && self.input.position() == p + 7
            && self.same_output(old)
        &&& (old.state == TokenizerState::DOCTYPE && b is Some && is_ws(b->0)) ==> self.state
            == TokenizerState::BeforeDOCTYPEName && self.input.position() == p + 1 && self.same_output(old)
        &&& (old.state == TokenizerState::DOCTYPEName && b is Some && is_letter(b->0)) ==> self.state
            == TokenizerState::DOCTYPEName && self.input.position() == p + 1 && self.same_output(old)
            && self.doctype.name@ == old.doctype.name@.push(ascii_lower(b->0) as char)
            && self.doctype.has_name == old.doctype.has_name && self.doctype.has_public_id
            == old.doctype.has_public_id && self.doctype.has_system_id == old.doctype.has_system_id
            && self.doctype.force_quirks == old.doctype.force_quirks
        &&& (old.state == TokenizerState::DOCTYPEName && b == Some(0x3Eu8)) ==> self.state
            == TokenizerState::Data && self.input.position() == p + 1 && !self.done
            && self.tokens@.len() == old.tokens@.len() + 1
            && self.tokens@.drop_last() == old.tokens@ && old.built_doctype(
            self.tokens@.last(),
            old.doctype.force_quirks,
        )
    }

    /// Where the machine stands on a DOCTYPE with only a name that starts at
    /// `p0` and closes at `q`, entered in the data state with `ts0` emitted.
    spec fn doctype_phase_at(&self, data: Seq<u8>, p0: int, q: int, ts0: Seq<Token>) -> bool {
        let p = self.input.position() as int;
        if self.done || p > q {
            0 <= ts0.len() < self.tokens@.len() && doctype_token(
                self.tokens@[ts0.len() as int],
                Some(lower_chars(data.subrange(p0 + 10, q))),
                None,
                None,
                false,
            )
        } else if p == p0 {
            self.state == TokenizerState::Data && self.tokens@ == ts0
        } else if p == p0 + 1 {
            self.state == TokenizerState::TagOpen && self.tokens@ == ts0
        } else if p == p0 + 2 {
            self.state == TokenizerState::MarkupDeclarationOpen && self.tokens@ == ts0
        } else if p == p0 + 9 {
            self.state == TokenizerState::DOCTYPE && self.tokens@ == ts0
        } else if p == p0 + 10 {
            self.state == TokenizerState::BeforeDOCTYPEName && self.tokens@ == ts0
        } else if p0 + 10 < p <= q {
            &&& self.state == TokenizerState::DOCTYPEName
            &&& self.tokens@ == ts0
            &&& self.doctype.name@ == lower_chars(data.subrange(p0 + 10, p))
            &&& self.doctype.has_name && !self.doctype.has_public_id && !self.doctype.has_system_id
            &&& !self.doctype.force_quirks
        } else {
            false
        }
    }

    /// What the states after a tag name do with whitespace and `/`.
    spec fn solidus_path(&self, old: &Self) -> bool {
        let b = old.input.peek();
        let p = old.input.position();
        &&& (old.state == TokenizerState::TagName && b is Some && is_ws(b->0)) ==> self.state
            == TokenizerState::BeforeAttributeName && self.input.position() == p + 1
            && self.same_output(old) && self.tag == old.tag
        &&& (old.state == TokenizerState::TagName && b == Some(0x2Fu8)) ==> self.state
            == TokenizerState::SelfClosingStartTag && self.input.position() == p + 1
            && self.same_output(old) && self.tag == old.tag
        &&& (old.state == TokenizerState::BeforeAttributeName && b == Some(0x2Fu8)) ==> self.state
            == TokenizerState::AfterAttributeName && self.input.position() == p && self.same_output(old)
            && self.tag == old.tag
        &&& (old.state == TokenizerState::AfterAttributeName && b == Some(0x2Fu8)) ==> self.state
            == TokenizerState::SelfClosingStartTag && self.input.position() == p + 1
            && self.same_output(old) && self.tag == old.tag
        &&& (old.state == TokenizerState::SelfClosingStartTag && b == Some(0x3Eu8)
            && !old.tag.attr_pending) ==> self.state == TokenizerState::Data && self.input.position()
            == p + 1 && !self.done && self.tokens@.len() == old.tokens@.len() + 1 && self.tokens@.drop_last()
            == old.tokens@ && tag_token_at(
            self.tokens@,
            old.tokens@.len() as int,
            old.tag.is_end,
            old.tag.name@,
            true,
            old.tag.attributes@.len(),
        )
    }

    /// Where the machine stands on a self-closing tag without attributes that
    /// starts at `p0`, entered in the data state with `ts0` emitted.
    spec fn self_closing_phase_at(&self, data: Seq<u8>, p0: int, m: int, q: int, ts0: Seq<Token>) -> bool {
        let p = self.input.position() as int;
        let fresh_tag = self.tag.is_end == false && !self.tag.self_closing && self.tag.attributes@.len()
            == 0 && !self.tag.attr_pending && self.tag.name@ == lower_chars(data.subrange(p0 + 1, m));
        if self.done || p > q {
            tag_token_at(self.tokens@, ts0.len() as int, false, lower_chars(data.subrange(p0 + 1, m)), true, 0)
        } else if p == p0 {
            self.state == TokenizerState::Data && self.tokens@ == ts0
        } else if p == p0 + 1 && self.state != TokenizerState::TagName {
            self.state == TokenizerState::TagOpen && self.tokens@ == ts0
        } else if p0 + 1 <= p <= m {
            &&& self.state == TokenizerState::TagName
            &&& self.tokens@ == ts0
            &&& self.tag.name@ == lower_chars(data.subrange(p0 + 1, p))
            &&& self.tag.is_end == false && !self.tag.self_closing && self.tag.attributes@.len() == 0
            &&& !self.tag.attr_pending
        } else if p == q - 1 {
            &&& (self.state == TokenizerState::BeforeAttributeName || self.state
                == TokenizerState::AfterAttributeName)
            &&& q == m + 2
            &&& self.tokens@ == ts0
            &&& fresh_tag
        } else if p == q {
            self.state == TokenizerState::SelfClosingStartTag && self.tokens@ == ts0 && fresh_tag
        } else {
            false
        }
    }

    spec fn keeps_control(&self, old: &Self) -> bool {
        &&& self.input == old.input
        &&& self.state == old.state
        &&& self.return_state == old.return_state
        &&& self.done == old.done
    }

    /// A tokenizer over `input` in the data state, with an empty entity table.
    pub fn new(input: &[u8]) -> (t: Tokenizer)
        ensures
            t.wf(),
            t.at_start_in_data(),
            t.input_bytes() == input@,
            t.return_state_of() == TokenizerState::Data,
            t.temporary_buffer_view().len() == 0,
            t.last_start_tag_view() is None,
            t.builders_empty(),
            t.error_seq().len() == 0,
            !t.foreign_content(),
            !t.self_closing_pending(),
            t.entity_table().keys().len() == 0,
            t.current_state() == TokenizerState::Data,
            t.position() == 0,
            t.token_seq().len() == 0,
            t.in_data_state(),
            !t.is_done(),
    {
        let t = Tokenizer::with_entities(input, EntityTable::new());
        t
    }

    /// A tokenizer over `input` in the data state that resolves named
    /// character references through `entities`.
    pub fn with_entities(input: &[u8], entities: EntityTable) -> (t: Tokenizer)
        requires
            entities.wf(),
        ensures
            t.wf(),
            t.at_start_in_data(),
            t.input_bytes() == input@,
            t.return_state_of() == TokenizerState::Data,
            t.temporary_buffer_view().len() == 0,
            t.last_start_tag_view() is None,
            t.builders_empty(),
            t.error_seq().len() == 0,
            !t.foreign_content(),
            !t.self_closing_pending(),
            t.entity_table() == entities,
            t.current_state() == TokenizerState::Data,
            t.position() == 0,
            t.token_seq().len() == 0,
            t.in_data_state(),
            !t.is_done(),
    {
        let t = Tokenizer {
            input: ByteStream::new(input),
            state: TokenizerState::Data,
            return_state: TokenizerState::Data,
            tag: empty_tag(),
            comment: String::new(),
            doctype: empty_doctype(),
            temporary_buffer: Vec::new(),
            char_ref_code: 0,
            last_start_tag: None,
            tokens: Vec::new(),
            errors: Vec::new(),
            entities,
            in_foreign_content: false,
            self_closing_unacknowledged: false,
            done: false,
        };
        assert(attrs_ok(t.tag.attributes@)) by {
            reveal(attrs_ok);
        }
        assert(tags_ok(t.tokens@)) by {
            reveal(tags_ok);
        }
        assert(t.temporary_buffer@ =~= Seq::<char>::empty());
        t
    }

    /// The tokens emitted so far.
    pub fn tokens(&self) -> (r: &Vec<Token>)
        ensures
            r@ == self.token_seq(),
    {
        &self.tokens
    }

    /// The parse errors raised so far, in order.
    pub fn errors(&self) -> (r: &Vec<ParseError>)
        ensures
            r@ == self.error_seq(),
    {
        &self.errors
    }

    /// The current state.
    pub fn state(&self) -> (r: TokenizerState)
        ensures
            r == self.current_state(),
    {
        self.state
    }

    /// Puts the tokenizer in the entry state of a content model, as the tree
    /// constructor does after `<textarea>`, `<script>` and the like.
    pub fn set_content_model(&mut self, model: ContentModel)
        requires
            old(self).wf(),
        ensures
            final(self).wf(),
            final(self).current_state() == match model {
                ContentModel::Data => TokenizerState::Data,
                ContentModel::Rcdata => TokenizerState::RCDATA,
                ContentModel::Rawtext => TokenizerState::RAWTEXT,
                ContentModel::ScriptData => TokenizerState::ScriptData,
                ContentModel::Plaintext => TokenizerState::PLAINTEXT,
            },
            final(self).token_seq() == old(self).token_seq(),
            final(self).is_done() == old(self).is_done(),
            final(self).input_bytes() == old(self).input_bytes(),
    {
        self.state = match model {
            ContentModel::Data => TokenizerState::Data,
            ContentModel::Rcdata => TokenizerState::RCDATA,
            ContentModel::Rawtext => TokenizerState::RAWTEXT,
            ContentModel::ScriptData => TokenizerState::ScriptData,
            ContentModel::Plaintext => TokenizerState::PLAINTEXT,
        };
    }

    /// Tells the tokenizer whether the adjusted current node is outside the
    /// HTML namespace, which decides how `<![CDATA[` is read.
    pub fn set_foreign_content(&mut self, foreign: bool)
        requires
            old(self).wf(),
        ensures
            final(self).wf(),
            final(self).token_seq() == old(self).token_seq(),
            final(self).is_done() == old(self).is_done(),
            final(self).input_bytes() == old(self).input_bytes(),
            final(self).foreign_content() == foreign,
            final(self).current_state() == old(self).current_state(),
    {
        self.in_foreign_content = foreign;
    }

    /// Runs the machine until the end-of-file token has been emitted.
    ///
    /// The tokens emitted before are kept, and the list then ends with
    /// exactly one end-of-file token. Every tag token has a lower-case name
    /// and distinct, lower-case attribute names. Plain ASCII text read from
    /// the start comes out as one character token per byte. A comment with a
    /// plain body, a tag without attributes (self-closing or not), or a
    /// DOCTYPE with only a name, that the data state meets becomes the next
    /// token, with the body (or the lower-cased name) as it stood in the
    /// input. Where the whole input from the cursor is made of plain text
    /// bytes, `<name>` and `</name>` tags and such comments, the tokens added
    /// are exactly one per segment, then the end-of-file token.
    pub fn run(&mut self)
        requires
            old(self).wf(),
        ensures
            final(self).wf(),
            final(self).is_done(),
            final(self).input_bytes() == old(self).input_bytes(),
            old(self).token_seq().is_prefix_of(final(self).token_seq()),
            eof_terminated(final(self).token_seq()),
            tags_ok(final(self).token_seq()),
            old(self).at_start_in_data() && plain_text(old(self).input_bytes()) ==> final(self).token_seq() == char_tokens(old(self).input_bytes()).push(Token::EndOfFile),
            forall|q: int|
                old(self).in_data_state() && #[trigger] plain_comment_at(
                    old(self).input_bytes(),
                    old(self).position() as int,
                    q,
                ) ==> comment_token_at(
                    final(self).token_seq(),
                    old(self).token_seq().len() as int,
                    ascii_chars(old(self).input_bytes().subrange(old(self).position() + 4 as int, q)),
                ),
            forall|m: int, q: int|
                old(self).in_data_state() && #[trigger] self_closing_tag_at(
                    old(self).input_bytes(),
                    old(self).position() as int,
                    m,
                    q,
                ) ==> tag_token_at(
                    final(self).token_seq(),
                    old(self).token_seq().len() as int,
                    false,
                    lower_chars(old(self).input_bytes().subrange(old(self).position() + 1 as int, m)),
                    true,
                    0,
                ),
            forall|q: int|
                old(self).in_data_state() && #[trigger] simple_doctype_at(
                    old(self).input_bytes(),
                    old(self).position() as int,
                    q,
                ) ==> 0 <= old(self).token_seq().len() < final(self).token_seq().len() && doctype_token(
                    final(self).token_seq()[old(self).token_seq().len() as int],
                    Some(lower_chars(old(self).input_bytes().subrange(old(self).position() + 10 as int, q))),
                    None,
                    None,
                    false,
                ),
            old(self).in_data_state() && simple_doc(old(self).input_bytes(), old(self).position() as int)
                ==> doc_tokens(
                final(self).token_seq(),
                old(self).token_seq().len() as int,
                old(self).input_bytes(),
                old(self).position() as int,
            ),
            forall|q: int, is_end: bool|
                old(self).in_data_state() && #[trigger] simple_tag_at(
                    old(self).input_bytes(),
                    old(self).position() as int,
                    q,
                    is_end,
                ) ==> tag_token_at(
                    final(self).token_seq(),
                    old(self).token_seq().len() as int,
                    is_end,
                    lower_chars(
                        old(self).input_bytes().subrange(
                            name_start(old(self).position() as int, is_end),
                            q,
                        ),
                    ),
                    false,
                    0,
                ),
    {
        let ghost plain = old(self).at_start_in_data() && plain_text(old(self).input_bytes());
        let ghost data = old(self).input_bytes();
        let ghost p0 = old(self).input.position() as int;
        let ghost ts0 = old(self).tokens@;
        let ghost has = old(self).in_data_state() && exists|q: int| plain_comment_at(data, p0, q);
        let ghost q0 = if has {
            choose|q: int| plain_comment_at(data, p0, q)
        } else {
            0
        };
        let ghost htag = old(self).in_data_state() && exists|q: int, e: bool|
            simple_tag_at(data, p0, q, e);
        let ghost tq_te: (int, bool) = if htag {
            choose|q: int, e: bool| simple_tag_at(data, p0, q, e)
        } else {
            (0, false)
        };
        let ghost tq = tq_te.0;
        let ghost te = tq_te.1;
        let ghost doc = old(self).in_data_state() && simple_doc(data, p0);
        let ghost hsc = old(self).in_data_state() && exists|m: int, q: int| self_closing_tag_at(data, p0, m, q);
        let ghost sc_mq: (int, int) = if hsc {
            choose|m: int, q: int| self_closing_tag_at(data, p0, m, q)
        } else {
            (0, 0)
        };
        let ghost hdt = old(self).in_data_state() && exists|q: int| simple_doctype_at(data, p0, q);
        let ghost dq = if hdt {
            choose|q: int| simple_doctype_at(data, p0, q)
        } else {
            0
        };
        let ghost mut ps: int = p0;
        let ghost mut sts: Seq<Token> = ts0;
        while !self.done
            invariant
                doc ==> self.doc_phase(data, p0, ts0, ps, sts),
                hsc ==> self_closing_tag_at(data, p0, sc_mq.0, sc_mq.1) && self.self_closing_phase_at(
                    data,
                    p0,
                    sc_mq.0,
                    sc_mq.1,
                    ts0,
                ),
                hdt ==> simple_doctype_at(data, p0, dq) && self.doctype_phase_at(data, p0, dq, ts0),
                htag ==> simple_tag_at(data, p0, tq, te) && self.tag_phase_at(data, p0, tq, te, ts0),
                has ==> plain_comment_at(data, p0, q0) && self.comment_phase_at(data, p0, q0, ts0),
                ts0.is_prefix_of(self.tokens@),
                self.wf(),
                self.input.data() == data,
                plain ==> plain_text(data) && self.state == TokenizerState::Data,
                plain && !self.done ==> self.tokens@ == char_tokens(
                    data.subrange(0, self.input.position() as int),
                ),
                plain && self.done ==> self.tokens@ == char_tokens(data).push(Token::EndOfFile),
            decreases (if self.done {
                0nat
            } else {
                1nat
            }), self.input.data().len() - self.input.position(), rank(
                self.state,
                self.input.peek(),
            ),
        {
            let ghost p = self.input.position();
            let ghost st = self.state;
            let ghost cm = self.comment@;
            let ghost ts = self.tokens@;
            let ghost s0 = *self;
            self.step();
            proof {
                if hsc {
                    lemma_self_closing_phase_step(s0, *self, data, p0, sc_mq.0, sc_mq.1, ts0);
                }
                if hdt {
                    lemma_doctype_phase_step(s0, *self, data, p0, dq, ts0);
                }
                if doc {
                    let ghost r = self.doc_phase_step(s0, data, p0, ts0, ps, sts);
                    ps = r.0;
                    sts = r.1;
                }
                if htag {
                    lemma_tag_phase_step(s0, *self, data, p0, tq, te, ts0);
                }
                if has {
                    lemma_comment_phase_step(s0, *self, data, p0, q0, ts0);
                }
                if plain {
                    if self.done {
                        assert(data.subrange(0, data.len() as int) =~= data);
                    } else {
                        assert(char_tokens(data.subrange(0, p + 1 as int)) =~= char_tokens(
                            data.subrange(0, p as int),
                        ).push(Token::Character { data: data[p as int] as char }));
                    }
                }
            }
        }
        assert forall|q: int|
            old(self).in_data_state() && #[trigger] plain_comment_at(data, p0, q) implies comment_token_at(
            self.tokens@,
            ts0.len() as int,
            ascii_chars(data.subrange(p0 + 4, q)),
        ) by {
            lemma_comment_end_unique(data, p0, q, q0);
        }
        proof {
            if doc {
                assert(doc_tokens(self.tokens@, sts.len() as int, data, ps));
                assert(self.tokens@.is_prefix_of(self.tokens@));
            }
        }
        assert forall|m: int, q: int|
            old(self).in_data_state() && #[trigger] self_closing_tag_at(data, p0, m, q) implies tag_token_at(
            self.tokens@,
            ts0.len() as int,
            false,
            lower_chars(data.subrange(p0 + 1, m)),
            true,
            0,
        ) by {
            lemma_self_closing_unique(data, p0, m, q, sc_mq.0, sc_mq.1);
        }
        assert forall|q: int|
            old(self).in_data_state() && #[trigger] simple_doctype_at(data, p0, q) implies 0
            <= ts0.len() < self.tokens@.len() && doctype_token(
            self.tokens@[ts0.len() as int],
            Some(lower_chars(data.subrange(p0 + 10, q))),
            None,
            None,
            false,
        ) by {
            lemma_doctype_end_unique(data, p0, q, dq);
        }
        assert forall|q: int, is_end: bool|
            old(self).in_data_state() && #[trigger] simple_tag_at(data, p0, q, is_end) implies tag_token_at(
            self.tokens@,
            ts0.len() as int,
            is_end,
            lower_chars(data.subrange(name_start(p0, is_end), q)),
            false,
            0,
        ) by {
            lemma_simple_tag_unique(data, p0, q, is_end, tq, te);
        }
    }

    /// The tree constructor honoured the self-closing flag of the last
    /// start tag.
    pub fn acknowledge_self_closing(&mut self)
        requires
            old(self).wf(),
        ensures
            final(self).wf(),
            final(self).token_seq() == old(self).token_seq(),
            final(self).is_done() == old(self).is_done(),
            final(self).input_bytes() == old(self).input_bytes(),
            !final(self).self_closing_pending(),
            final(self).current_state() == old(self).current_state(),
    {
        self.self_closing_unacknowledged = false;
    }

    /// Runs the machine until it has emitted at least one more token. A
    /// self-closing flag of the previous start tag that was not acknowledged
    /// is reported first.
    pub fn run_until_emit(&mut self)
        requires
            old(self).wf(),
        ensures
            final(self).wf(),
            final(self).input_bytes() == old(self).input_bytes(),
            final(self).is_done() || final(self).token_seq().len() > old(self).token_seq().len(),
            old(self).token_seq().is_prefix_of(final(self).token_seq()),
            old(self).error_seq().is_prefix_of(final(self).error_seq()),
            old(self).self_closing_pending() ==> final(self).error_seq().len() > old(self).error_seq().len()
                && final(self).error_seq()[old(self).error_seq().len() as int]
                == ParseError::NonVoidHtmlElementStartTagWithTrailingSolidus,
    {
        if self.self_closing_unacknowledged {
            self.self_closing_unacknowledged = false;
            self.error(ParseError::NonVoidHtmlElementStartTagWithTrailingSolidus);
        }
        let ghost e0 = self.errors@;
        let start = self.tokens.len();
        while !self.done && self.tokens.len() == start
            invariant
                self.wf(),
                self.input.data() == old(self).input.data(),
                self.tokens@.len() >= start,
                old(self).tokens@.is_prefix_of(self.tokens@),
                e0.is_prefix_of(self.errors@),
                old(self).errors@.is_prefix_of(e0),
                old(self).self_closing_unacknowledged ==> e0.len() > old(self).errors@.len()
                    && e0[old(self).errors@.len() as int]
                    == ParseError::NonVoidHtmlElementStartTagWithTrailingSolidus,
            decreases (if self.done {
                0nat
            } else {
                1nat
            }), self.input.data().len() - self.input.position(), rank(
                self.state,
                self.input.peek(),
            ),
        {
            self.step();
        }
    }

    fn step(&mut self)
        requires
            old(self).wf(),
            !old(self).done,
        ensures
            final(self).moved_on(old(self)),
            final(self).tokens@.len() >= old(self).tokens@.len(),
            old(self).state == TokenizerState::Data ==> final(self).data_step(old(self)),
            final(self).comment_path(old(self)),
            final(self).tag_path(old(self)),
            final(self).doctype_path(old(self)),
            final(self).solidus_path(old(self)),
            old(self).state == TokenizerState::BeforeDOCTYPEName ==> final(self).before_doctype_name_step(old(self)),
    {
        match self.state {
            TokenizerState::Data => self.handle_data_state(),
            TokenizerState::RCDATA => self.handle_rcdata_state(),
            TokenizerState::RAWTEXT => self.handle_rawtext_state(),
            TokenizerState::ScriptData => self.handle_script_data_state(),
            TokenizerState::PLAINTEXT => self.handle_plaintext_state(),
            TokenizerState::TagOpen => self.handle_tag_open_state(),
            TokenizerState::EndTagOpen => self.handle_end_tag_open_state(),
            TokenizerState::TagName => self.handle_tag_name_state(),
            TokenizerState::RCDATALessThanSign => self.handle_rcdata_less_than_sign_state(),
            TokenizerState::RCDATAEndTagOpen => self.handle_rcdata_end_tag_open_state(),
            TokenizerState::RCDATAEndTagName => self.handle_rcdata_end_tag_name_state(),
            TokenizerState::RAWTEXTLessThanSign => self.handle_rawtext_less_than_sign_state(),
            TokenizerState::RAWTEXTEndTagOpen => self.handle_rawtext_end_tag_open_state(),
            TokenizerState::RAWTEXTEndTagName => self.handle_rawtext_end_tag_name_state(),
            TokenizerState::ScriptDataLessThanSign => self.handle_script_data_less_than_sign_state(),
            TokenizerState::ScriptDataEndTagOpen => self.handle_script_data_end_tag_open_state(),
            TokenizerState::ScriptDataEndTagName => self.handle_script_data_end_tag_name_state(),
            TokenizerState::ScriptDataEscapeStart => self.handle_script_data_escape_start_state(),
            TokenizerState::ScriptDataEscapeStartDash => self.handle_script_data_escape_start_dash_state(),
            TokenizerState::ScriptDataEscaped => self.handle_script_data_escaped_state(),
            TokenizerState::ScriptDataEscapedDash => self.handle_script_data_escaped_dash_state(),
            TokenizerState::ScriptDataEscapedDashDash => self.handle_script_data_escaped_dash_dash_state(),
            TokenizerState::ScriptDataEscapedLessThanSign => self.handle_script_data_escaped_less_than_sign_state(),
            TokenizerState::ScriptDataEscapedEndTagOpen => self.handle_script_data_escaped_end_tag_open_state(),
            TokenizerState::ScriptDataEscapedEndTagName => self.handle_script_data_escaped_end_tag_name_state(),
            TokenizerState::ScriptDataDoubleEscapeStart => self.handle_script_data_double_escape_start_state(),
            TokenizerState::ScriptDataDoubleEscaped => self.handle_script_data_double_escaped_state(),
            TokenizerState::ScriptDataDoubleEscapedDash => self.handle_script_data_double_escaped_dash_state(),
            TokenizerState::ScriptDataDoubleEscapedDashDash => self.handle_script_data_double_escaped_dash_dash_state(),
            TokenizerState::ScriptDataDoubleEscapedLessThanSign => self.handle_script_data_double_escaped_less_than_sign_state(),
            TokenizerState::ScriptDataDoubleEscapeEnd => self.handle_script_data_double_escape_end_state(),
            TokenizerState::BeforeAttributeName => self.handle_before_attribute_name_state(),
            TokenizerState::AttributeName => self.handle_attribute_name_state(),
            TokenizerState::AfterAttributeName => self.handle_after_attribute_name_state(),
            TokenizerState::BeforeAttributeValue => self.handle_before_attribute_value_state(),
            TokenizerState::AttributeValueDoubleQuoted => self.handle_attribute_value_double_quoted_state(),
            TokenizerState::AttributeValueSingleQuoted => self.handle_attribute_value_single_quoted_state(),
            TokenizerState::AttributeValueUnquoted => self.handle_attribute_value_unquoted_state(),
            TokenizerState::AfterAttributeValueQuoted => self.handle_after_attribute_value_quoted_state(),
            TokenizerState::SelfClosingStartTag => self.handle_self_closing_start_tag_state(),
            TokenizerState::BogusComment => self.handle_bogus_comment_state(),
            TokenizerState::MarkupDeclarationOpen => self.handle_markup_declaration_open_state(),
            TokenizerState::CommentStart => self.handle_comment_start_state(),
            TokenizerState::CommentStartDash => self.handle_comment_start_dash_state(),
            TokenizerState::Comment => self.handle_comment_state(),
            TokenizerState::CommentLessThanSign => self.handle_comment_less_than_sign_state(),
            TokenizerState::CommentLessThanSignBang => self.handle_comment_less_than_sign_bang_state(),
            TokenizerState::CommentLessThanSignBangDash => self.handle_comment_less_than_sign_bang_dash_state(),
            TokenizerState::CommentLessThanSignBangDashDash => self.handle_comment_less_than_sign_bang_dash_dash_state(),
            TokenizerState::CommentEndDash => self.handle_comment_end_dash_state(),
            TokenizerState::CommentEnd => self.handle_comment_end_state(),
            TokenizerState::CommentEndBang => self.handle_comment_end_bang_state(),
            TokenizerState::DOCTYPE => self.handle_doctype_state(),
            TokenizerState::BeforeDOCTYPEName => self.handle_before_doctype_name_state(),
            TokenizerState::DOCTYPEName => self.handle_doctype_name_state(),
            TokenizerState::AfterDOCTYPEName => self.handle_after_doctype_name_state(),
            TokenizerState::AfterDOCTYPEPublicKeyword => self.handle_after_doctype_public_keyword_state(),
            TokenizerState::BeforeDOCTYPEPublicIdentifier => self.handle_before_doctype_public_id_state(),
            TokenizerState::DOCTYPEPublicIdentifierDoubleQuoted => self.handle_doctype_public_id_double_quoted_state(),
            TokenizerState::DOCTYPEPublicIdentifierSingleQuoted => self.handle_doctype_public_id_single_quoted_state(),
            TokenizerState::AfterDOCTYPEPublicIdentifier => self.handle_after_doctype_public_id_state(),
            TokenizerState::BetweenDOCTYPEPublicAndSystemIdentifiers => self.handle_between_doctype_public_and_system_identifiers_state(),
            TokenizerState::AfterDOCTYPESystemKeyword => self.handle_after_doctype_system_keyword_state(),
            TokenizerState::BeforeDOCTYPESystemIdentifier => self.handle_before_doctype_system_identifier_state(),
            TokenizerState::DOCTYPESystemIdentifierDoubleQuoted => self.handle_doctype_system_identifier_double_quoted_state(),
            TokenizerState::DOCTYPESystemIdentifierSingleQuoted => self.handle_doctype_system_identifier_single_quoted_state(),
            TokenizerState::AfterDOCTYPESystemIdentifier => self.handle_after_doctype_system_identifier_state(),
            TokenizerState::BogusDOCTYPE => self.handle_bogus_doctype_state(),
            TokenizerState::CDATASection => self.handle_cdata_section_state(),
            TokenizerState::CDATASectionBracket => self.handle_cdata_section_bracket_state(),
            TokenizerState::CDATASectionEnd => self.handle_cdata_section_end_state(),
            TokenizerState::CharacterReference => self.handle_character_reference_state(),
            TokenizerState::NamedCharacterReference => self.handle_named_character_reference_state(),
            TokenizerState::AmbiguousAmpersand => self.handle_ambiguous_ampersand_state(),
            TokenizerState::NumericCharacterReference => self.handle_numeric_character_reference_state(),
            TokenizerState::HexadecimalCharacterReferenceStart => self.handle_hexadecimal_character_reference_start_state(),
            TokenizerState::DecimalCharacterReferenceStart => self.handle_decimal_character_reference_start_state(),
            TokenizerState::HexadecimalCharacterReference => self.handle_hexadecimal_character_reference_state(),
            TokenizerState::DecimalCharacterReference => self.handle_decimal_character_reference_state(),
            TokenizerState::NumericCharacterReferenceEnd => self.handle_numeric_character_reference_end_state(),
        }
    }

    // ---- emission and builders ----

    fn emit(&mut self, t: Token)
        requires
            old(self).wf(),
            !old(self).done,
            token_ok(t),
            !(t is EndOfFile),
        ensures
            final(self).wf(),
            final(self).keeps_control(old(self)),
            *final(self) == (Tokenizer { tokens: final(self).tokens, ..*old(self) }),
            final(self).tokens@ == old(self).tokens@.push(t),
            old(self).tokens@.is_prefix_of(final(self).tokens@),
    {
        self.tokens.push(t);
        proof {
            reveal(tags_ok);
        }
    }

    fn emit_char(&mut self, c: char)
        requires
            old(self).wf(),
            !old(self).done,
        ensures
            final(self).wf(),
            final(self).keeps_control(old(self)),
            *final(self) == (Tokenizer { tokens: final(self).tokens, ..*old(self) }),
            final(self).tokens@ == old(self).tokens@.push(Token::Character { data: c }),
            final(self).tokens@.len() == old(self).tokens@.len() + 1,
            old(self).tokens@.is_prefix_of(final(self).tokens@),
            forall|i: int| 0 <= i < old(self).tokens@.len() ==> final(self).tokens@[i] == old(self).tokens@[i],
            final(self).tokens@[old(self).tokens@.len() as int] == (Token::Character { data: c }),
    {
        self.emit(Token::Character { data: c });
    }

    fn emit_eof(&mut self)
        requires
            old(self).wf(),
            !old(self).done,
        ensures
            final(self).wf(),
            final(self).done,
            final(self).input == old(self).input,
            final(self).state == old(self).state,
            final(self).tokens@ == old(self).tokens@.push(Token::EndOfFile),
            old(self).tokens@.is_prefix_of(final(self).tokens@),
            *final(self) == (Tokenizer { tokens: final(self).tokens, done: true, ..*old(self) }),
    {
        self.tokens.push(Token::EndOfFile);
        self.done = true;
        proof {
            reveal(tags_ok);
        }
    }

    fn error(&mut self, e: ParseError)
        requires
            old(self).wf(),
        ensures
            final(self).wf(),
            final(self).keeps_control(old(self)),
            *final(self) == (Tokenizer { errors: final(self).errors, ..*old(self) }),
            final(self).tokens@ == old(self).tokens@,
            final(self).errors@ == old(self).errors@.push(e),
    {
        self.errors.push(e);
    }

    /// Reads the character at the cursor.
    fn consume_char(&mut self) -> (c: char)
        requires
            old(self).wf(),
            old(self).input.peek() is Some,
        ensures
            final(self).wf(),
            final(self).input.data() == old(self).input.data(),
            final(self).input.position() > old(self).input.position(),
            final(self).state == old(self).state,
            final(self).return_state == old(self).return_state,
            final(self).done == old(self).done,
            final(self).tokens == old(self).tokens,
            *final(self) == (Tokenizer { input: final(self).input, ..*old(self) }),
            old(self).input.peek()->0 < 0x80 ==> c == (old(self).input.peek()->0 as char)
                && final(self).input.position() == old(self).input.position() + 1,
            old(self).input.peek()->0 >= 0x80 ==> c as u32 >= 0x80,
            c as u32 == utf8_at(old(self).input.data(), old(self).input.position() as int).0,
    {
        match self.input.decode_char() {
            Some((c, n)) => {
                self.input.advance_by(n);
                c
            },
            None => '\u{FFFD}',
        }
    }


    /// Starts a new start or end tag.
    fn start_tag(&mut self, is_end: bool)
        requires
            old(self).wf(),
        ensures
            final(self).wf(),
            final(self).keeps_control(old(self)),
            final(self).tokens == old(self).tokens,
            final(self).fresh_tag(is_end),
            *final(self) == (Tokenizer { tag: final(self).tag, ..*old(self) }),
    {
        let mut t = empty_tag();
        t.is_end = is_end;
        self.tag = t;
        assert(attrs_ok(self.tag.attributes@)) by {
            reveal(attrs_ok);
        }
    }

    fn push_tag_name(&mut self, c: char)
        requires
            old(self).wf(),
            !is_upper(c),
        ensures
            final(self).wf(),
            final(self).keeps_control(old(self)),
            final(self).tokens == old(self).tokens,
            final(self).tag.name@ == old(self).tag.name@.push(c),
            final(self).tag.is_end == old(self).tag.is_end,
            final(self).tag.self_closing == old(self).tag.self_closing,
            final(self).tag.attributes == old(self).tag.attributes,
            final(self).tag.attr_pending == old(self).tag.attr_pending,
            *final(self) == (Tokenizer { tag: final(self).tag, ..*old(self) }),
    {
        push_char(&mut self.tag.name, c);
        assert forall|i: int| 0 <= i < self.tag.name@.len() implies !is_upper(#[trigger] self.tag.name@[i]) by {
            if i < old(self).tag.name@.len() {
                assert(self.tag.name@[i] == old(self).tag.name@[i]);
            }
        }
    }

    fn push_attr_name(&mut self, c: char)
        requires
            old(self).wf(),
            !is_upper(c),
        ensures
            final(self).wf(),
            final(self).keeps_control(old(self)),
            final(self).tokens == old(self).tokens,
            *final(self) == (Tokenizer { tag: final(self).tag, ..*old(self) }),
            final(self).tag.attr_name@ == old(self).tag.attr_name@.push(c),
            final(self).tag.attr_value == old(self).tag.attr_value,
            final(self).tag.attr_pending == old(self).tag.attr_pending,
            final(self).tag.name == old(self).tag.name,
            final(self).tag.attributes == old(self).tag.attributes,
            final(self).tag.is_end == old(self).tag.is_end,
            final(self).tag.self_closing == old(self).tag.self_closing,
    {
        push_char(&mut self.tag.attr_name, c);
        assert forall|i: int| 0 <= i < self.tag.attr_name@.len() implies !is_upper(#[trigger] self.tag.attr_name@[i]) by {
            if i < old(self).tag.attr_name@.len() {
                assert(self.tag.attr_name@[i] == old(self).tag.attr_name@[i]);
            }
        }
    }

    fn push_attr_value(&mut self, c: char)
        requires
            old(self).wf(),
        ensures
            final(self).wf(),
            final(self).keeps_control(old(self)),
            final(self).tokens == old(self).tokens,
            *final(self) == (Tokenizer { tag: final(self).tag, ..*old(self) }),
            final(self).tag.attr_value@ == old(self).tag.attr_value@.push(c),
            final(self).tag.name == old(self).tag.name,
            final(self).tag.attributes == old(self).tag.attributes,
            final(self).tag.attr_name == old(self).tag.attr_name,
            final(self).tag.is_end == old(self).tag.is_end,
            final(self).tag.self_closing == old(self).tag.self_closing,
            final(self).tag.attr_pending == old(self).tag.attr_pending,
    {
        push_char(&mut self.tag.attr_value, c);
    }

    /// Adds the attribute being read to the tag, unless its name is already
    /// there: then it is dropped with a duplicate-attribute error.
    fn commit_attribute(&mut self)
        requires
            old(self).wf(),
        ensures
            final(self).wf(),
            final(self).keeps_control(old(self)),
            final(self).tokens == old(self).tokens,
            !final(self).tag.attr_pending,
            !old(self).tag.attr_pending ==> *final(self) == *old(self),
            final(self).tag.name == old(self).tag.name,
            final(self).tag.is_end == old(self).tag.is_end,
            final(self).tag.self_closing == old(self).tag.self_closing,
            old(self).tag.attr_pending && has_attr(old(self).tag.attributes@, old(self).tag.attr_name@)
                ==> final(self).tag.attributes@ == old(self).tag.attributes@ && final(self).errors@
                == old(self).errors@.push(ParseError::DuplicateAttribute),
            old(self).tag.attr_pending && !has_attr(old(self).tag.attributes@, old(self).tag.attr_name@)
                ==> final(self).tag.attributes@.drop_last() == old(self).tag.attributes@
                && final(self).tag.attributes@.len() == old(self).tag.attributes@.len() + 1
                && final(self).tag.attributes@.last().0@ == old(self).tag.attr_name@
                && final(self).tag.attributes@.last().1@ == old(self).tag.attr_value@
                && final(self).errors@ == old(self).errors@,
            old(self).errors@.is_prefix_of(final(self).errors@),
    {
        if self.tag.attr_pending {
            self.tag.attr_pending = false;
            let exists = find_attribute(&self.tag.attributes, &self.tag.attr_name);
            if exists {
                self.error(ParseError::DuplicateAttribute);
            } else {
                let name = self.tag.attr_name.clone();
                let value = self.tag.attr_value.clone();
                let ghost before = self.tag.attributes@;
                let ghost key = name@;
                assert(!has_attr(before, key));
                assert(no_upper(key));
                self.tag.attributes.push((name, value));
                let ghost after = self.tag.attributes@;
                assert(after.drop_last() =~= before);
                assert(after.len() == before.len() + 1);
                assert(after[before.len() as int].0@ == key);
                assert(attrs_ok(after)) by {
                    reveal(attrs_ok);
                    assert forall|i: int, j: int|
                        0 <= i < after.len() && 0 <= j < after.len() && i != j implies #[trigger] after[i].0@
                        != #[trigger] after[j].0@ by {
                        if i < before.len() && j < before.len() {
                            assert(after[i] == before[i]);
                            assert(after[j] == before[j]);
                        } else if i < before.len() {
                            assert(after[i] == before[i]);
                            assert(before[i].0@ != key);
                        } else {
                            assert(after[j] == before[j]);
                            assert(before[j].0@ != key);
                        }
                    }
                    assert forall|i: int| 0 <= i < after.len() implies no_upper(#[trigger] after[i].0@) by {
                        if i < before.len() {
                            assert(after[i] == before[i]);
                        }
                    }
                }
            }
        }
    }

    /// Commits the attribute being read, then starts an empty one.
    fn start_attribute(&mut self)
        requires
            old(self).wf(),
        ensures
            final(self).wf(),
            final(self).keeps_control(old(self)),
            final(self).tokens == old(self).tokens,
            final(self).tag.attr_pending,
            final(self).tag.attr_name@ == Seq::<char>::empty(),
            final(self).tag.attr_value@ == Seq::<char>::empty(),
            final(self).errors@ == (if old(self).tag.attr_pending && has_attr(
                old(self).tag.attributes@,
                old(self).tag.attr_name@,
            ) {
                old(self).errors@.push(ParseError::DuplicateAttribute)
            } else {
                old(self).errors@
            }),
            old(self).errors@.is_prefix_of(final(self).errors@),
    {
        self.commit_attribute();
        self.tag.attr_name = String::new();
        self.tag.attr_value = String::new();
        self.tag.attr_pending = true;
        assert(self.tag.attr_name@ =~= Seq::<char>::empty());
        assert(self.tag.attr_value@ =~= Seq::<char>::empty());
    }

    /// Emits the tag under construction and clears the builder.
    fn emit_tag(&mut self)
        requires
            old(self).wf(),
            !old(self).done,
        ensures
            final(self).wf(),
            final(self).keeps_control(old(self)),
            final(self).tokens@.len() == old(self).tokens@.len() + 1,
            old(self).tokens@.is_prefix_of(final(self).tokens@),
            !old(self).tag.attr_pending ==> tag_token_at(
                final(self).tokens@,
                old(self).tokens@.len() as int,
                old(self).tag.is_end,
                old(self).tag.name@,
                old(self).tag.self_closing,
                old(self).tag.attributes@.len(),
            ),
            final(self).tokens@.drop_last() == old(self).tokens@,
            old(self).errors@.is_prefix_of(final(self).errors@),
    {
        self.commit_attribute();
        let mut attributes: Vec<(String, String)> = Vec::new();
        core::mem::swap(&mut attributes, &mut self.tag.attributes);
        let mut name = String::new();
        core::mem::swap(&mut name, &mut self.tag.name);
        let self_closing = self.tag.self_closing;
        self.tag.self_closing = false;
        assert(attrs_ok(self.tag.attributes@)) by {
            reveal(attrs_ok);
        }
        if self.tag.is_end {
            if attributes.len() > 0 {
                self.error(ParseError::EndTagWithAttributes);
            }
            if self_closing {
                self.error(ParseError::EndTagWithTrailingSolidus);
            }
            self.emit(Token::EndTag { name, self_closing, attributes });
        } else {
            self.last_start_tag = Some(name.clone());
            self.self_closing_unacknowledged = self_closing;
            self.emit(Token::StartTag { name, self_closing, attributes });
        }
    }

    /// Whether the end tag being read closes the last start tag emitted.
    fn is_appropriate_end_tag_token(&self) -> (r: bool)
        ensures
            r == self.appropriate(),
    {
        match &self.last_start_tag {
            Some(n) => self.tag.is_end && *n == self.tag.name,
            None => false,
        }
    }

    fn start_comment(&mut self)
        requires
            old(self).wf(),
        ensures
            final(self).wf(),
            final(self).keeps_control(old(self)),
            final(self).tokens == old(self).tokens,
            final(self).comment@.len() == 0,
            *final(self) == (Tokenizer { comment: final(self).comment, ..*old(self) }),
    {
        self.comment = String::new();
    }

    fn push_comment(&mut self, c: char)
        requires
            old(self).wf(),
        ensures
            final(self).wf(),
            final(self).keeps_control(old(self)),
            final(self).tokens == old(self).tokens,
            final(self).comment@ == old(self).comment@.push(c),
            *final(self) == (Tokenizer { comment: final(self).comment, ..*old(self) }),
    {
        push_char(&mut self.comment, c);
    }

    fn emit_comment(&mut self)
        requires
            old(self).wf(),
            !old(self).done,
        ensures
            final(self).wf(),
            final(self).keeps_control(old(self)),
            final(self).tokens@.len() == old(self).tokens@.len() + 1,
            final(self).tokens@.last() matches Token::Comment { data } && data@ == old(self).comment@,
            final(self).tokens@.drop_last() == old(self).tokens@,
            old(self).tokens@.is_prefix_of(final(self).tokens@),
            final(self).errors@ == old(self).errors@,
    {
        let mut data = String::new();
        core::mem::swap(&mut data, &mut self.comment);
        let ghost e0 = self.errors@;
        self.emit(Token::Comment { data });
        assert(self.tokens@.drop_last() =~= old(self).tokens@);
    }

    /// End of input inside a comment: emit it, then end of file.
    fn comment_eof(&mut self)
        requires
            old(self).wf(),
            !old(self).done,
        ensures
            final(self).wf(),
            final(self).input == old(self).input,
            final(self).state == old(self).state,
            old(self).tokens@.is_prefix_of(final(self).tokens@),
            final(self).comment_eof_step(old(self)),
    {
        self.error(ParseError::EofInComment);
        self.emit_comment();
        let ghost t1 = self.tokens@;
        self.emit_eof();
        assert(self.tokens@.subrange(0, old(self).tokens@.len() as int) =~= old(self).tokens@);
        assert(self.tokens@[old(self).tokens@.len() as int] == t1.last());
    }

    fn start_doctype(&mut self)
        requires
            old(self).wf(),
        ensures
            final(self).wf(),
            final(self).keeps_control(old(self)),
            final(self).tokens == old(self).tokens,
            *final(self) == (Tokenizer { doctype: final(self).doctype, ..*old(self) }),
            !final(self).doctype.has_name && !final(self).doctype.has_public_id
                && !final(self).doctype.has_system_id && !final(self).doctype.force_quirks,
            final(self).doctype.name@.len() == 0 && final(self).doctype.public_id@.len() == 0
                && final(self).doctype.system_id@.len() == 0,
            final(self).doctype.name@ == Seq::<char>::empty(),
    {
        self.doctype = empty_doctype();
    }

    fn emit_doctype(&mut self)
        requires
            old(self).wf(),
            !old(self).done,
        ensures
            final(self).wf(),
            final(self).keeps_control(old(self)),
            final(self).tokens@.len() == old(self).tokens@.len() + 1,
            old(self).tokens@.is_prefix_of(final(self).tokens@),
            final(self).tokens@.drop_last() == old(self).tokens@,
            old(self).built_doctype(final(self).tokens@.last(), old(self).doctype.force_quirks),
            final(self).errors@ == old(self).errors@,
            final(self).doctype_empty(),
    {
        let mut d = empty_doctype();
        core::mem::swap(&mut d, &mut self.doctype);
        let name = if d.has_name {
            Some(d.name)
        } else {
            None
        };
        let public_id = if d.has_public_id {
            Some(d.public_id)
        } else {
            None
        };
        let system_id = if d.has_system_id {
            Some(d.system_id)
        } else {
            None
        };
        self.emit(Token::Doctype { name, public_id, system_id, force_quirks: d.force_quirks });
        assert(self.tokens@.drop_last() =~= old(self).tokens@);
    }

    /// A character reference is being read inside an attribute value.
    spec fn in_attribute_mode(&self) -> bool {
        self.return_state == TokenizerState::AttributeValueDoubleQuoted || self.return_state
            == TokenizerState::AttributeValueSingleQuoted || self.return_state
            == TokenizerState::AttributeValueUnquoted
    }

    /// Whether a character reference is being read inside an attribute value.
    fn in_attribute_value(&self) -> (r: bool)
        ensures
            r == (self.return_state == TokenizerState::AttributeValueDoubleQuoted
                || self.return_state == TokenizerState::AttributeValueSingleQuoted
                || self.return_state == TokenizerState::AttributeValueUnquoted),
    {
        self.return_state == TokenizerState::AttributeValueDoubleQuoted || self.return_state
            == TokenizerState::AttributeValueSingleQuoted || self.return_state
            == TokenizerState::AttributeValueUnquoted
    }

    /// Hands the temporary buffer on: to the attribute value when a
    /// reference is read inside one, else as character tokens.
    fn flush_code_points(&mut self)
        requires
            old(self).wf(),
            !old(self).done,
        ensures
            final(self).wf(),
            final(self).keeps_control(old(self)),
            final(self).tokens@.len() >= old(self).tokens@.len(),
            old(self).tokens@.is_prefix_of(final(self).tokens@),
            final(self).errors@ == old(self).errors@,
            final(self).temporary_buffer == old(self).temporary_buffer,
            final(self).entities == old(self).entities,
            final(self).in_attribute_mode() ==> final(self).tokens@ == old(self).tokens@
                && final(self).tag.attr_value@ == old(self).tag.attr_value@
                + old(self).temporary_buffer@,
            !final(self).in_attribute_mode() ==> text_at(
                final(self).tokens@,
                old(self).tokens@.len() as int,
                old(self).temporary_buffer@,
            ),
    {
        let attr = self.in_attribute_value();
        let ghost n0 = self.tokens@.len();
        let ghost buf = self.temporary_buffer@;
        proof {
            lemma_concat_empty_prefix(old(self).tag.attr_value@, buf);
        }
        let mut i: usize = 0;
        while i < self.temporary_buffer.len()
            invariant
                self.wf(),
                !self.done,
                self.keeps_control(old(self)),
                self.temporary_buffer == old(self).temporary_buffer,
                self.entities == old(self).entities,
                buf == self.temporary_buffer@,
                i <= self.temporary_buffer@.len(),
                attr == self.in_attribute_mode(),
                self.tokens@.len() >= n0,
                old(self).tokens@.is_prefix_of(self.tokens@),
                self.errors@ == old(self).errors@,
                attr ==> self.tokens@ == old(self).tokens@ && self.tag.attr_value@
                    == old(self).tag.attr_value@ + buf.subrange(0, i as int),
                !attr ==> text_at(self.tokens@, n0 as int, buf.subrange(0, i as int)),
            decreases self.temporary_buffer@.len() - i,
        {
            let c = self.temporary_buffer[i];
            if attr {
                self.push_attr_value(c);
                proof {
                    assert(buf.subrange(0, i + 1 as int) =~= buf.subrange(0, i as int).push(c));
                    lemma_concat_push(old(self).tag.attr_value@, buf.subrange(0, i as int), c);
                }
            } else {
                let ghost before = self.tokens@;
                self.emit_char(c);
                proof {
                    let sub = buf.subrange(0, i + 1 as int);
                    assert forall|j: int| 0 <= j < sub.len() implies #[trigger] self.tokens@[n0 + j]
                        == Token::Character { data: sub[j] } by {
                        if j < i {
                            assert(before[n0 + j] == Token::Character { data: buf.subrange(0, i as int)[j] });
                        }
                    }
                }
            }
            i = i + 1;
        }
        assert(buf.subrange(0, i as int) =~= buf);
    }

    /// Emits `<`, `/` and the temporary buffer as characters: the end tag
    /// that was being read is text after all.
    fn emit_end_tag_text(&mut self)
        requires
            old(self).wf(),
            !old(self).done,
        ensures
            final(self).wf(),
            final(self).keeps_control(old(self)),
            final(self).tokens@.len() >= old(self).tokens@.len(),
            old(self).tokens@.is_prefix_of(final(self).tokens@),
            text_at(
                final(self).tokens@,
                old(self).tokens@.len() as int,
                seq!['<', '/'] + old(self).temporary_buffer@,
            ),
            final(self).errors@ == old(self).errors@,
            final(self).temporary_buffer@.len() == 0,
    {
        let mut rest: Vec<char> = Vec::new();
        core::mem::swap(&mut rest, &mut self.temporary_buffer);
        let mut text: Vec<char> = Vec::new();
        text.push('<');
        text.push('/');
        text.append(&mut rest);
        let ghost buf = text@;
        assert(buf =~= seq!['<', '/'] + old(self).temporary_buffer@);
        let ghost n0 = self.tokens@.len();
        let mut i: usize = 0;
        while i < text.len()
            invariant
                self.wf(),
                !self.done,
                self.keeps_control(old(self)),
                self.temporary_buffer@.len() == 0,
                buf == text@,
                n0 == old(self).tokens@.len(),
                i <= buf.len(),
                old(self).tokens@.is_prefix_of(self.tokens@),
                self.errors@ == old(self).errors@,
                text_at(self.tokens@, n0 as int, buf.subrange(0, i as int)),
            decreases buf.len() - i,
        {
            let c = text[i];
            let ghost before = self.tokens@;
            self.emit_char(c);
            proof {
                let sub = buf.subrange(0, i + 1 as int);
                assert forall|j: int| 0 <= j < sub.len() implies #[trigger] self.tokens@[n0 + j]
                    == Token::Character { data: sub[j] } by {
                    if j < i {
                        assert(before[n0 + j] == Token::Character { data: buf.subrange(0, i as int)[j] });
                    }
                }
            }
            i = i + 1;
        }
        assert(buf.subrange(0, i as int) =~= buf);
    }

    // ---- states ----

    fn handle_data_state(&mut self)
        requires
            old(self).ready(TokenizerState::Data),
        ensures
            final(self).moved_on(old(self)),
            final(self).tokens@.len() >= old(self).tokens@.len(),
            final(self).data_step(old(self)),
            final(self).comment_path(old(self)),
            old(self).input.peek() == Some(0u8) ==> final(self).state == TokenizerState::Data
                && final(self).input.position() == old(self).input.position() + 1 && final(self).tokens@
                == old(self).tokens@.push(Token::Character { data: '\0' }) && final(self).errors@
                == old(self).errors@.push(ParseError::UnexpectedNullCharacter),
    {
        match self.input.current() {
            Some(AMPERSAND) => {
                self.input.advance();
                self.return_state = TokenizerState::Data;
                self.state = TokenizerState::CharacterReference;
            },
            Some(LESS_THAN) => {
                self.input.advance();
                self.state = TokenizerState::TagOpen;
            },
            Some(NULL) => {
                self.input.advance();
                self.error(ParseError::UnexpectedNullCharacter);
                self.emit_char('\0');
            },
            None => self.emit_eof(),
            Some(_) => {
                let c = self.consume_char();
                self.emit_char(c);
            },
        }
    }
    fn handle_rcdata_state(&mut self)
        requires
            old(self).ready(TokenizerState::RCDATA),
        ensures
            final(self).moved_on(old(self)),
            final(self).tokens@.len() >= old(self).tokens@.len(),
    {
        match self.input.current() {
            Some(AMPERSAND) => {
                self.input.advance();
                self.return_state = TokenizerState::RCDATA;
                self.state = TokenizerState::CharacterReference;
            },
            Some(LESS_THAN) => {
                self.input.advance();
                self.state = TokenizerState::RCDATALessThanSign;
            },
            Some(NULL) => {
                self.input.advance();
                self.error(ParseError::UnexpectedNullCharacter);
                self.emit_char('\u{FFFD}');
            },
            None => self.emit_eof(),
            Some(_) => {
                let c = self.consume_char();
                self.emit_char(c);
            },
        }
    }

    fn handle_rawtext_state(&mut self)
        requires
            old(self).ready(TokenizerState::RAWTEXT),
        ensures
            final(self).moved_on(old(self)),
            final(self).tokens@.len() >= old(self).tokens@.len(),
    {
        match self.input.current() {
            Some(LESS_THAN) => {
                self.input.advance();
                self.state = TokenizerState::RAWTEXTLessThanSign;
            },
            Some(NULL) => {
                self.input.advance();
                self.error(ParseError::UnexpectedNullCharacter);
                self.emit_char('\u{FFFD}');
            },
            None => self.emit_eof(),
            Some(_) => {
                let c = self.consume_char();
                self.emit_char(c);
            },
        }
    }

    fn handle_script_data_state(&mut self)
        requires
            old(self).ready(TokenizerState::ScriptData),
        ensures
            final(self).moved_on(old(self)),
            final(self).tokens@.len() >= old(self).tokens@.len(),
    {
        match self.input.current() {
            Some(LESS_THAN) => {
                self.input.advance();
                self.state = TokenizerState::ScriptDataLessThanSign;
            },
            Some(NULL) => {
                self.input.advance();
                self.error(ParseError::UnexpectedNullCharacter);
                self.emit_char('\u{FFFD}');
            },
            None => self.emit_eof(),
            Some(_) => {
                let c = self.consume_char();
                self.emit_char(c);
            },
        }
    }

    fn handle_plaintext_state(&mut self)
        requires
            old(self).ready(TokenizerState::PLAINTEXT),
        ensures
            final(self).moved_on(old(self)),
            final(self).tokens@.len() >= old(self).tokens@.len(),
    {
        match self.input.current() {
            Some(NULL) => {
                self.input.advance();
                self.error(ParseError::UnexpectedNullCharacter);
                self.emit_char('\u{FFFD}');
            },
            None => self.emit_eof(),
            Some(_) => {
                let c = self.consume_char();
                self.emit_char(c);
            },
        }
    }

    fn handle_tag_open_state(&mut self)
        requires
            old(self).ready(TokenizerState::TagOpen),
        ensures
            final(self).moved_on(old(self)),
            final(self).tokens@.len() >= old(self).tokens@.len(),
            final(self).comment_path(old(self)),
            final(self).tag_path(old(self)),
            (old(self).input.peek() is Some && !is_letter(old(self).input.peek()->0)
                && old(self).input.peek() != Some(0x21u8) && old(self).input.peek() != Some(0x2Fu8)
                && old(self).input.peek() != Some(0x3Fu8)) ==> final(self).state == TokenizerState::Data
                && final(self).input.position() == old(self).input.position() && final(self).tokens@
                == old(self).tokens@.push(Token::Character { data: '<' }) && final(self).errors@
                == old(self).errors@.push(ParseError::InvalidFirstCharacterOfTagName),
            old(self).input.peek() == Some(0x3Fu8) ==> final(self).state == TokenizerState::BogusComment
                && final(self).input.position() == old(self).input.position() && final(self).tokens@
                == old(self).tokens@ && final(self).comment@.len() == 0 && final(self).errors@
                == old(self).errors@.push(ParseError::UnexpectedQuestionMarkInsteadOfTagName),
            old(self).input.peek() is None ==> final(self).done && final(self).tokens@ == old(self).tokens@.push(
                Token::Character { data: '<' },
            ).push(Token::EndOfFile) && final(self).errors@ == old(self).errors@.push(
                ParseError::EofBeforeTagName,
            ),
    {
        match self.input.current() {
            Some(BANG) => {
                self.input.advance();
                self.state = TokenizerState::MarkupDeclarationOpen;
            },
            Some(SOLIDUS) => {
                self.input.advance();
                self.state = TokenizerState::EndTagOpen;
            },
            Some(QUESTION_MARK) => {
                self.error(ParseError::UnexpectedQuestionMarkInsteadOfTagName);
                self.start_comment();
                self.state = TokenizerState::BogusComment;
            },
            None => {
                self.error(ParseError::EofBeforeTagName);
                self.emit_char('<');
                self.emit_eof();
            },
            Some(b) => {
                if is_alpha(b) {
                    self.start_tag(false);
                    self.state = TokenizerState::TagName;
                } else {
                    self.error(ParseError::InvalidFirstCharacterOfTagName);
                    self.emit_char('<');
                    self.state = TokenizerState::Data;
                }
            },
        }
    }

    fn handle_end_tag_open_state(&mut self)
        requires
            old(self).ready(TokenizerState::EndTagOpen),
        ensures
            final(self).moved_on(old(self)),
            final(self).tokens@.len() >= old(self).tokens@.len(),
            final(self).tag_path(old(self)),
    {
        match self.input.current() {
            Some(GREATER_THAN) => {
                self.input.advance();
                self.error(ParseError::MissingEndTagName);
                self.state = TokenizerState::Data;
            },
            None => {
                self.error(ParseError::EofBeforeTagName);
                self.emit_char('<');
                self.emit_char('/');
                self.emit_eof();
            },
            Some(b) => {
                if is_alpha(b) {
                    self.start_tag(true);
                    self.state = TokenizerState::TagName;
                } else {
                    self.error(ParseError::InvalidFirstCharacterOfTagName);
                    self.start_comment();
                    self.state = TokenizerState::BogusComment;
                }
            },
        }
    }

    fn handle_tag_name_state(&mut self)
        requires
            old(self).ready(TokenizerState::TagName),
        ensures
            final(self).moved_on(old(self)),
            final(self).tokens@.len() >= old(self).tokens@.len(),
            final(self).tag_path(old(self)),
            final(self).solidus_path(old(self)),
    {
        match self.input.current() {
            None => {
                self.error(ParseError::EofInTag);
                self.emit_eof();
            },
            Some(b) => {
                if is_space(b) {
                    self.input.advance();
                    self.state = TokenizerState::BeforeAttributeName;
                } else if b == SOLIDUS {
                    self.input.advance();
                    self.state = TokenizerState::SelfClosingStartTag;
                } else if b == GREATER_THAN {
                    self.input.advance();
                    self.state = TokenizerState::Data;
                    self.emit_tag();
                } else if is_upper_byte(b) {
                    self.input.advance();
                    self.push_tag_name(lower_char(b));
                } else if b == NULL {
                    self.input.advance();
                    self.error(ParseError::UnexpectedNullCharacter);
                    self.push_tag_name('\u{FFFD}');
                } else {
                    let c = self.consume_char();
                    self.push_tag_name(c);
                }
            },
        }
    }

    fn handle_rcdata_less_than_sign_state(&mut self)
        requires
            old(self).ready(TokenizerState::RCDATALessThanSign),
        ensures
            final(self).moved_on(old(self)),
            final(self).tokens@.len() >= old(self).tokens@.len(),
    {
        match self.input.current() {
            Some(SOLIDUS) => {
                self.input.advance();
                self.temporary_buffer.clear();
                self.state = TokenizerState::RCDATAEndTagOpen;
            },
            _ => {
                self.emit_char('<');
                self.state = TokenizerState::RCDATA;
            },
        }
    }

    fn handle_rawtext_less_than_sign_state(&mut self)
        requires
            old(self).ready(TokenizerState::RAWTEXTLessThanSign),
        ensures
            final(self).moved_on(old(self)),
            final(self).tokens@.len() >= old(self).tokens@.len(),
    {
        match self.input.current() {
            Some(SOLIDUS) => {
                self.input.advance();
                self.temporary_buffer.clear();
                self.state = TokenizerState::RAWTEXTEndTagOpen;
            },
            _ => {
                self.emit_char('<');
                self.state = TokenizerState::RAWTEXT;
            },
        }
    }

    fn handle_rcdata_end_tag_open_state(&mut self)
        requires
            old(self).ready(TokenizerState::RCDATAEndTagOpen),
        ensures
            final(self).moved_on(old(self)),
            final(self).tokens@.len() >= old(self).tokens@.len(),
    {
        match self.input.current() {
            Some(b) => {
                if is_alpha(b) {
                    self.start_tag(true);
                    self.state = TokenizerState::RCDATAEndTagName;
                } else {
                    self.emit_char('<');
                    self.emit_char('/');
                    self.state = TokenizerState::RCDATA;
                }
            },
            None => {
                self.emit_char('<');
                self.emit_char('/');
                self.state = TokenizerState::RCDATA;
            },
        }
    }

    fn handle_rawtext_end_tag_open_state(&mut self)
        requires
            old(self).ready(TokenizerState::RAWTEXTEndTagOpen),
        ensures
            final(self).moved_on(old(self)),
            final(self).tokens@.len() >= old(self).tokens@.len(),
    {
        match self.input.current() {
            Some(b) => {
                if is_alpha(b) {
                    self.start_tag(true);
                    self.state = TokenizerState::RAWTEXTEndTagName;
                } else {
                    self.emit_char('<');
                    self.emit_char('/');
                    self.state = TokenizerState::RAWTEXT;
                }
            },
            None => {
                self.emit_char('<');
                self.emit_char('/');
                self.state = TokenizerState::RAWTEXT;
            },
        }
    }

    fn handle_script_data_end_tag_open_state(&mut self)
        requires
            old(self).ready(TokenizerState::ScriptDataEndTagOpen),
        ensures
            final(self).moved_on(old(self)),
            final(self).tokens@.len() >= old(self).tokens@.len(),
    {
        match self.input.current() {
            Some(b) => {
                if is_alpha(b) {
                    self.start_tag(true);
                    self.state = TokenizerState::ScriptDataEndTagName;
                } else {
                    self.emit_char('<');
                    self.emit_char('/');
                    self.state = TokenizerState::ScriptData;
                }
            },
            None => {
                self.emit_char('<');
                self.emit_char('/');
                self.state = TokenizerState::ScriptData;
            },
        }
    }

    fn handle_script_data_escaped_end_tag_open_state(&mut self)
        requires
            old(self).ready(TokenizerState::ScriptDataEscapedEndTagOpen),
        ensures
            final(self).moved_on(old(self)),
            final(self).tokens@.len() >= old(self).tokens@.len(),
    {
        match self.input.current() {
            Some(b) => {
                if is_alpha(b) {
                    self.start_tag(true);
                    self.state = TokenizerState::ScriptDataEscapedEndTagName;
                } else {
                    self.emit_char('<');
                    self.emit_char('/');
                    self.state = TokenizerState::ScriptDataEscaped;
                }
            },
            None => {
                self.emit_char('<');
                self.emit_char('/');
                self.state = TokenizerState::ScriptDataEscaped;
            },
        }
    }

    fn handle_rcdata_end_tag_name_state(&mut self)
        requires
            old(self).ready(TokenizerState::RCDATAEndTagName),
        ensures
            final(self).moved_on(old(self)),
            final(self).tokens@.len() >= old(self).tokens@.len(),
            final(self).end_tag_name_step(old(self), TokenizerState::RCDATA),
    {
        match self.input.current() {
            Some(b) => {
                let appropriate = self.is_appropriate_end_tag_token();
                if is_space(b) && appropriate {
                    self.input.advance();
                    self.state = TokenizerState::BeforeAttributeName;
                } else if b == SOLIDUS && appropriate {
                    self.input.advance();
                    self.state = TokenizerState::SelfClosingStartTag;
                } else if b == GREATER_THAN && appropriate {
                    self.input.advance();
                    self.state = TokenizerState::Data;
                    self.emit_tag();
                } else if is_upper_byte(b) {
                    self.input.advance();
                    self.push_tag_name(lower_char(b));
                    self.temporary_buffer.push(b as char);
                } else if is_alpha(b) {
                    self.input.advance();
                    self.push_tag_name(b as char);
                    self.temporary_buffer.push(b as char);
                } else {
                    self.handle_rcdata_end_tag_name_state_anything_else();
                }
            },
            None => self.handle_rcdata_end_tag_name_state_anything_else(),
        }
    }

    /// The end tag being read is text after all: emit it as characters and
    /// go back to the enclosing text state with the current byte.
    fn handle_rcdata_end_tag_name_state_anything_else(&mut self)
        requires
            old(self).ready(TokenizerState::RCDATAEndTagName),
        ensures
            final(self).moved_on(old(self)),
            final(self).input == old(self).input,
            final(self).state == TokenizerState::RCDATA,
            final(self).tokens@.len() >= old(self).tokens@.len(),
            old(self).tokens@.is_prefix_of(final(self).tokens@),
            text_at(final(self).tokens@, old(self).tokens@.len() as int, seq!['<', '/'] + old(self).temporary_buffer@),
            final(self).errors@ == old(self).errors@,
            final(self).temporary_buffer@.len() == 0,
    {
        self.emit_end_tag_text();
        self.state = TokenizerState::RCDATA;
    }

    fn handle_rawtext_end_tag_name_state(&mut self)
        requires
            old(self).ready(TokenizerState::RAWTEXTEndTagName),
        ensures
            final(self).moved_on(old(self)),
            final(self).tokens@.len() >= old(self).tokens@.len(),
            final(self).end_tag_name_step(old(self), TokenizerState::RAWTEXT),
    {
        match self.input.current() {
            Some(b) => {
                let appropriate = self.is_appropriate_end_tag_token();
                if is_space(b) && appropriate {
                    self.input.advance();
                    self.state = TokenizerState::BeforeAttributeName;
                } else if b == SOLIDUS && appropriate {
                    self.input.advance();
                    self.state = TokenizerState::SelfClosingStartTag;
                } else if b == GREATER_THAN && appropriate {
                    self.input.advance();
                    self.state = TokenizerState::Data;
                    self.emit_tag();
                } else if is_upper_byte(b) {
                    self.input.advance();
                    self.push_tag_name(lower_char(b));
                    self.temporary_buffer.push(b as char);
                } else if is_alpha(b) {
                    self.input.advance();
                    self.push_tag_name(b as char);
                    self.temporary_buffer.push(b as char);
                } else {
                    self.handle_rawtext_end_tag_name_state_anything_else();
                }
            },
            None => self.handle_rawtext_end_tag_name_state_anything_else(),
        }
    }

    /// The end tag being read is text after all: emit it as characters and
    /// go back to the enclosing text state with the current byte.
    fn handle_rawtext_end_tag_name_state_anything_else(&mut self)
        requires
            old(self).ready(TokenizerState::RAWTEXTEndTagName),
        ensures
            final(self).moved_on(old(self)),
            final(self).input == old(self).input,
            final(self).state == TokenizerState::RAWTEXT,
            final(self).tokens@.len() >= old(self).tokens@.len(),
            old(self).tokens@.is_prefix_of(final(self).tokens@),
            text_at(final(self).tokens@, old(self).tokens@.len() as int, seq!['<', '/'] + old(self).temporary_buffer@),
            final(self).errors@ == old(self).errors@,
            final(self).temporary_buffer@.len() == 0,
    {
        self.emit_end_tag_text();
        self.state = TokenizerState::RAWTEXT;
    }

    fn handle_script_data_end_tag_name_state(&mut self)
        requires
            old(self).ready(TokenizerState::ScriptDataEndTagName),
        ensures
            final(self).moved_on(old(self)),
            final(self).tokens@.len() >= old(self).tokens@.len(),
            final(self).end_tag_name_step(old(self), TokenizerState::ScriptData),
    {
        match self.input.current() {
            Some(b) => {
                let appropriate = self.is_appropriate_end_tag_token();
                if is_space(b) && appropriate {
                    self.input.advance();
                    self.state = TokenizerState::BeforeAttributeName;
                } else if b == SOLIDUS && appropriate {
                    self.input.advance();
                    self.state = TokenizerState::SelfClosingStartTag;
                } else if b == GREATER_THAN && appropriate {
                    self.input.advance();
                    self.state = TokenizerState::Data;
                    self.emit_tag();
                } else if is_upper_byte(b) {
                    self.input.advance();
                    self.push_tag_name(lower_char(b));
                    self.temporary_buffer.push(b as char);
                } else if is_alpha(b) {
                    self.input.advance();
                    self.push_tag_name(b as char);
                    self.temporary_buffer.push(b as char);
                } else {
                    self.handle_script_end_tag_name_state_anything_else();
                }
            },
            None => self.handle_script_end_tag_name_state_anything_else(),
        }
    }

    /// The end tag being read is text after all: emit it as characters and
    /// go back to the enclosing text state with the current byte.
    fn handle_script_end_tag_name_state_anything_else(&mut self)
        requires
            old(self).ready(TokenizerState::ScriptDataEndTagName),
        ensures
            final(self).moved_on(old(self)),
            final(self).input == old(self).input,
            final(self).state == TokenizerState::ScriptData,
            final(self).tokens@.len() >= old(self).tokens@.len(),
            old(self).tokens@.is_prefix_of(final(self).tokens@),
            text_at(final(self).tokens@, old(self).tokens@.len() as int, seq!['<', '/'] + old(self).temporary_buffer@),
            final(self).errors@ == old(self).errors@,
            final(self).temporary_buffer@.len() == 0,
    {
        self.emit_end_tag_text();
        self.state = TokenizerState::ScriptData;
    }

    fn handle_script_data_escaped_end_tag_name_state(&mut self)
        requires
            old(self).ready(TokenizerState::ScriptDataEscapedEndTagName),
        ensures
            final(self).moved_on(old(self)),
            final(self).tokens@.len() >= old(self).tokens@.len(),
            final(self).end_tag_name_step(old(self), TokenizerState::ScriptDataEscaped),
    {
        match self.input.current() {
            Some(b) => {
                let appropriate = self.is_appropriate_end_tag_token();
                if is_space(b) && appropriate {
                    self.input.advance();
                    self.state = TokenizerState::BeforeAttributeName;
                } else if b == SOLIDUS && appropriate {
                    self.input.advance();
                    self.state = TokenizerState::SelfClosingStartTag;
                } else if b == GREATER_THAN && appropriate {
                    self.input.advance();
                    self.state = TokenizerState::Data;
                    self.emit_tag();
                } else if is_upper_byte(b) {
                    self.input.advance();
                    self.push_tag_name(lower_char(b));
                    self.temporary_buffer.push(b as char);
                } else if is_alpha(b) {
                    self.input.advance();
                    self.push_tag_name(b as char);
                    self.temporary_buffer.push(b as char);
                } else {
                    self.handle_script_data_escaped_end_tag_name_state_anything_else();
                }
            },
            None => self.handle_script_data_escaped_end_tag_name_state_anything_else(),
        }
    }

    /// The end tag being read is text after all: emit it as characters and
    /// go back to the enclosing text state with the current byte.
    fn handle_script_data_escaped_end_tag_name_state_anything_else(&mut self)
        requires
            old(self).ready(TokenizerState::ScriptDataEscapedEndTagName),
        ensures
            final(self).moved_on(old(self)),
            final(self).input == old(self).input,
            final(self).state == TokenizerState::ScriptDataEscaped,
            final(self).tokens@.len() >= old(self).tokens@.len(),
            old(self).tokens@.is_prefix_of(final(self).tokens@),
            text_at(final(self).tokens@, old(self).tokens@.len() as int, seq!['<', '/'] + old(self).temporary_buffer@),
            final(self).errors@ == old(self).errors@,
            final(self).temporary_buffer@.len() == 0,
    {
        self.emit_end_tag_text();
        self.state = TokenizerState::ScriptDataEscaped;
    }

    /// Whether the temporary buffer spells `script`.
    fn temporary_buffer_is_script(&self) -> (r: bool)
        ensures
            r == (self.temporary_buffer@ == script_word()),
    {
        let t = &self.temporary_buffer;
        let r = t.len() == 6 && t[0] == 's' && t[1] == 'c' && t[2] == 'r' && t[3] == 'i' && t[4] == 'p'
            && t[5] == 't';
        if r {
            assert(t@ =~= script_word());
        } else {
            proof {
                if t@ == script_word() {
                    assert(t@[0] == 's' && t@[1] == 'c' && t@[2] == 'r' && t@[3] == 'i' && t@[4] == 'p'
                        && t@[5] == 't');
                }
            }
        }
        r
    }

    fn handle_script_data_less_than_sign_state(&mut self)
        requires
            old(self).ready(TokenizerState::ScriptDataLessThanSign),
        ensures
            final(self).moved_on(old(self)),
            final(self).tokens@.len() >= old(self).tokens@.len(),
    {
        match self.input.current() {
            Some(SOLIDUS) => {
                self.input.advance();
                self.temporary_buffer.clear();
                self.state = TokenizerState::ScriptDataEndTagOpen;
            },
            Some(BANG) => {
                self.input.advance();
                self.state = TokenizerState::ScriptDataEscapeStart;
                self.emit_char('<');
                self.emit_char('!');
            },
            _ => {
                self.emit_char('<');
                self.state = TokenizerState::ScriptData;
            },
        }
    }

    fn handle_script_data_escape_start_state(&mut self)
        requires
            old(self).ready(TokenizerState::ScriptDataEscapeStart),
        ensures
            final(self).moved_on(old(self)),
            final(self).tokens@.len() >= old(self).tokens@.len(),
    {
        match self.input.current() {
            Some(HYPHEN) => {
                self.input.advance();
                self.state = TokenizerState::ScriptDataEscapeStartDash;
                self.emit_char('-');
            },
            _ => {
                self.state = TokenizerState::ScriptData;
            },
        }
    }

    fn handle_script_data_escape_start_dash_state(&mut self)
        requires
            old(self).ready(TokenizerState::ScriptDataEscapeStartDash),
        ensures
            final(self).moved_on(old(self)),
            final(self).tokens@.len() >= old(self).tokens@.len(),
    {
        match self.input.current() {
            Some(HYPHEN) => {
                self.input.advance();
                self.state = TokenizerState::ScriptDataEscapedDashDash;
                self.emit_char('-');
            },
            _ => {
                self.state = TokenizerState::ScriptData;
            },
        }
    }

    fn handle_script_data_escaped_state(&mut self)
        requires
            old(self).ready(TokenizerState::ScriptDataEscaped),
        ensures
            final(self).moved_on(old(self)),
            final(self).tokens@.len() >= old(self).tokens@.len(),
    {
        match self.input.current() {
            Some(HYPHEN) => {
                self.input.advance();
                self.state = TokenizerState::ScriptDataEscapedDash;
                self.emit_char('-');
            },
            Some(LESS_THAN) => {
                self.input.advance();
                self.state = TokenizerState::ScriptDataEscapedLessThanSign;
            },
            Some(NULL) => {
                self.input.advance();
                self.error(ParseError::UnexpectedNullCharacter);
                self.state = TokenizerState::ScriptDataEscaped;
                self.emit_char('\u{FFFD}');
            },
            None => {
                self.error(ParseError::EofInScriptHtmlCommentLikeText);
                self.emit_eof();
            },
            Some(_) => {
                let c = self.consume_char();
                self.state = TokenizerState::ScriptDataEscaped;
                self.emit_char(c);
            },
        }
    }

    fn handle_script_data_escaped_dash_state(&mut self)
        requires
            old(self).ready(TokenizerState::ScriptDataEscapedDash),
        ensures
            final(self).moved_on(old(self)),
            final(self).tokens@.len() >= old(self).tokens@.len(),
    {
        match self.input.current() {
            Some(HYPHEN) => {
                self.input.advance();
                self.state = TokenizerState::ScriptDataEscapedDashDash;
                self.emit_char('-');
            },
            Some(LESS_THAN) => {
                self.input.advance();
                self.state = TokenizerState::ScriptDataEscapedLessThanSign;
            },
            Some(NULL) => {
                self.input.advance();
                self.error(ParseError::UnexpectedNullCharacter);
                self.state = TokenizerState::ScriptDataEscaped;
                self.emit_char('\u{FFFD}');
            },
            None => {
                self.error(ParseError::EofInScriptHtmlCommentLikeText);
                self.emit_eof();
            },
            Some(_) => {
                let c = self.consume_char();
                self.state = TokenizerState::ScriptDataEscaped;
                self.emit_char(c);
            },
        }
    }

    fn handle_script_data_escaped_dash_dash_state(&mut self)
        requires
            old(self).ready(TokenizerState::ScriptDataEscapedDashDash),
        ensures
            final(self).moved_on(old(self)),
            final(self).tokens@.len() >= old(self).tokens@.len(),
    {
        match self.input.current() {
            Some(HYPHEN) => {
                self.input.advance();
                self.state = TokenizerState::ScriptDataEscapedDashDash;
                self.emit_char('-');
            },
            Some(LESS_THAN) => {
                self.input.advance();
                self.state = TokenizerState::ScriptDataEscapedLessThanSign;
            },
            Some(GREATER_THAN) => {
                self.input.advance();
                self.state = TokenizerState::ScriptData;
                self.emit_char('>');
            },
            Some(NULL) => {
                self.input.advance();
                self.error(ParseError::UnexpectedNullCharacter);
                self.state = TokenizerState::ScriptDataEscaped;
                self.emit_char('\u{FFFD}');
            },
            None => {
                self.error(ParseError::EofInScriptHtmlCommentLikeText);
                self.emit_eof();
            },
            Some(_) => {
                let c = self.consume_char();
                self.state = TokenizerState::ScriptDataEscaped;
                self.emit_char(c);
            },
        }
    }

    fn handle_script_data_double_escaped_state(&mut self)
        requires
            old(self).ready(TokenizerState::ScriptDataDoubleEscaped),
        ensures
            final(self).moved_on(old(self)),
            final(self).tokens@.len() >= old(self).tokens@.len(),
    {
        match self.input.current() {
            Some(HYPHEN) => {
                self.input.advance();
                self.state = TokenizerState::ScriptDataDoubleEscapedDash;
                self.emit_char('-');
            },
            Some(LESS_THAN) => {
                self.input.advance();
                self.state = TokenizerState::ScriptDataDoubleEscapedLessThanSign;
                self.emit_char('<');
            },
            Some(NULL) => {
                self.input.advance();
                self.error(ParseError::UnexpectedNullCharacter);
                self.state = TokenizerState::ScriptDataDoubleEscaped;
                self.emit_char('\u{FFFD}');
            },
            None => {
                self.error(ParseError::EofInScriptHtmlCommentLikeText);
                self.emit_eof();
            },
            Some(_) => {
                let c = self.consume_char();
                self.state = TokenizerState::ScriptDataDoubleEscaped;
                self.emit_char(c);
            },
        }
    }

    fn handle_script_data_double_escaped_dash_state(&mut self)
        requires
            old(self).ready(TokenizerState::ScriptDataDoubleEscapedDash),
        ensures
            final(self).moved_on(old(self)),
            final(self).tokens@.len() >= old(self).tokens@.len(),
    {
        match self.input.current() {
            Some(HYPHEN) => {
                self.input.advance();
                self.state = TokenizerState::ScriptDataDoubleEscapedDashDash;
                self.emit_char('-');
            },
            Some(LESS_THAN) => {
                self.input.advance();
                self.state = TokenizerState::ScriptDataDoubleEscapedLessThanSign;
                self.emit_char('<');
            },
            Some(NULL) => {
                self.input.advance();
                self.error(ParseError::UnexpectedNullCharacter);
                self.state = TokenizerState::ScriptDataDoubleEscaped;
                self.emit_char('\u{FFFD}');
            },
            None => {
                self.error(ParseError::EofInScriptHtmlCommentLikeText);
                self.emit_eof();
            },
            Some(_) => {
                let c = self.consume_char();
                self.state = TokenizerState::ScriptDataDoubleEscaped;
                self.emit_char(c);
            },
        }
    }

    fn handle_script_data_double_escaped_dash_dash_state(&mut self)
        requires
            old(self).ready(TokenizerState::ScriptDataDoubleEscapedDashDash),
        ensures
            final(self).moved_on(old(self)),
            final(self).tokens@.len() >= old(self).tokens@.len(),
    {
        match self.input.current() {
            Some(HYPHEN) => {
                self.input.advance();
                self.state = TokenizerState::ScriptDataDoubleEscapedDashDash;
                self.emit_char('-');
            },
            Some(LESS_THAN) => {
                self.input.advance();
                self.state = TokenizerState::ScriptDataDoubleEscapedLessThanSign;
                self.emit_char('<');
            },
            Some(GREATER_THAN) => {
                self.input.advance();
                self.state = TokenizerState::ScriptData;
                self.emit_char('>');
            },
            Some(NULL) => {
                self.input.advance();
                self.error(ParseError::UnexpectedNullCharacter);
                self.state = TokenizerState::ScriptDataDoubleEscaped;
                self.emit_char('\u{FFFD}');
            },
            None => {
                self.error(ParseError::EofInScriptHtmlCommentLikeText);
                self.emit_eof();
            },
            Some(_) => {
                let c = self.consume_char();
                self.state = TokenizerState::ScriptDataDoubleEscaped;
                self.emit_char(c);
            },
        }
    }

    fn handle_script_data_escaped_less_than_sign_state(&mut self)
        requires
            old(self).ready(TokenizerState::ScriptDataEscapedLessThanSign),
        ensures
            final(self).moved_on(old(self)),
            final(self).tokens@.len() >= old(self).tokens@.len(),
    {
        match self.input.current() {
            Some(SOLIDUS) => {
                self.input.advance();
                self.temporary_buffer.clear();
                self.state = TokenizerState::ScriptDataEscapedEndTagOpen;
            },
            Some(b) => {
                if is_alpha(b) {
                    self.temporary_buffer.clear();
                    self.emit_char('<');
                    self.state = TokenizerState::ScriptDataDoubleEscapeStart;
                } else {
                    self.emit_char('<');
                    self.state = TokenizerState::ScriptDataEscaped;
                }
            },
            None => {
                self.emit_char('<');
                self.state = TokenizerState::ScriptDataEscaped;
            },
        }
    }

    fn handle_script_data_double_escape_start_state(&mut self)
        requires
            old(self).ready(TokenizerState::ScriptDataDoubleEscapeStart),
        ensures
            final(self).moved_on(old(self)),
            final(self).tokens@.len() >= old(self).tokens@.len(),
            final(self).script_word_step(old(self), TokenizerState::ScriptDataDoubleEscaped, TokenizerState::ScriptDataEscaped),
    {
        match self.input.current() {
            Some(b) => {
                if is_space(b) || b == SOLIDUS || b == GREATER_THAN {
                    self.input.advance();
                    if self.temporary_buffer_is_script() {
                        self.state = TokenizerState::ScriptDataDoubleEscaped;
                    } else {
                        self.state = TokenizerState::ScriptDataEscaped;
                    }
                    self.emit_char(b as char);
                } else if is_upper_byte(b) {
                    self.input.advance();
                    self.temporary_buffer.push(lower_char(b));
                    self.emit_char(b as char);
                } else if is_alpha(b) {
                    self.input.advance();
                    self.temporary_buffer.push(b as char);
                    self.emit_char(b as char);
                } else {
                    self.state = TokenizerState::ScriptDataEscaped;
                }
            },
            None => {
                self.state = TokenizerState::ScriptDataEscaped;
            },
        }
    }

    fn handle_script_data_double_escape_end_state(&mut self)
        requires
            old(self).ready(TokenizerState::ScriptDataDoubleEscapeEnd),
        ensures
            final(self).moved_on(old(self)),
            final(self).tokens@.len() >= old(self).tokens@.len(),
            final(self).script_word_step(old(self), TokenizerState::ScriptDataEscaped, TokenizerState::ScriptDataDoubleEscaped),
    {
        match self.input.current() {
            Some(b) => {
                if is_space(b) || b == SOLIDUS || b == GREATER_THAN {
                    self.input.advance();
                    if self.temporary_buffer_is_script() {
                        self.state = TokenizerState::ScriptDataEscaped;
                    } else {
                        self.state = TokenizerState::ScriptDataDoubleEscaped;
                    }
                    self.emit_char(b as char);
                } else if is_upper_byte(b) {
                    self.input.advance();
                    self.temporary_buffer.push(lower_char(b));
                    self.emit_char(b as char);
                } else if is_alpha(b) {
                    self.input.advance();
                    self.temporary_buffer.push(b as char);
                    self.emit_char(b as char);
                } else {
                    self.state = TokenizerState::ScriptDataDoubleEscaped;
                }
            },
            None => {
                self.state = TokenizerState::ScriptDataDoubleEscaped;
            },
        }
    }

    fn handle_script_data_double_escaped_less_than_sign_state(&mut self)
        requires
            old(self).ready(TokenizerState::ScriptDataDoubleEscapedLessThanSign),
        ensures
            final(self).moved_on(old(self)),
            final(self).tokens@.len() >= old(self).tokens@.len(),
    {
        match self.input.current() {
            Some(SOLIDUS) => {
                self.input.advance();
                self.temporary_buffer.clear();
                self.state = TokenizerState::ScriptDataDoubleEscapeEnd;
                self.emit_char('/');
            },
            _ => {
                self.state = TokenizerState::ScriptDataDoubleEscaped;
            },
        }
    }

    fn handle_before_attribute_name_state(&mut self)
        requires
            old(self).ready(TokenizerState::BeforeAttributeName),
        ensures
            final(self).moved_on(old(self)),
            final(self).tokens@.len() >= old(self).tokens@.len(),
            old(self).input.peek() == Some(0x3Du8) ==> final(self).state == TokenizerState::AttributeName
                && final(self).input.position() == old(self).input.position() + 1 && final(self).tokens@
                == old(self).tokens@ && final(self).errors@ == (if old(self).tag.attr_pending && has_attr(
                old(self).tag.attributes@,
                old(self).tag.attr_name@,
            ) {
                old(self).errors@.push(ParseError::DuplicateAttribute)
            } else {
                old(self).errors@
            }).push(ParseError::UnexpectedEqualsSignBeforeAttributeName) && final(self).tag.attr_pending
                && final(self).tag.attr_name@ == seq!['='] && final(self).tag.attr_value@.len() == 0,
            final(self).solidus_path(old(self)),
    {
        match self.input.current() {
            None => {
                self.state = TokenizerState::AfterAttributeName;
            },
            Some(b) => {
                if is_space(b) {
                    self.input.advance();
                } else if b == SOLIDUS || b == GREATER_THAN {
                    self.state = TokenizerState::AfterAttributeName;
                } else if b == EQUALS_SIGN {
                    self.input.advance();
                    self.start_attribute();
                    self.error(ParseError::UnexpectedEqualsSignBeforeAttributeName);
                    self.push_attr_name('=');
                    self.state = TokenizerState::AttributeName;
                } else {
                    self.start_attribute();
                    self.state = TokenizerState::AttributeName;
                }
            },
        }
    }

    fn handle_attribute_name_state(&mut self)
        requires
            old(self).ready(TokenizerState::AttributeName),
        ensures
            final(self).moved_on(old(self)),
            final(self).tokens@.len() >= old(self).tokens@.len(),
    {
        match self.input.current() {
            None => {
                self.state = TokenizerState::AfterAttributeName;
            },
            Some(b) => {
                if is_space(b) || b == SOLIDUS || b == GREATER_THAN {
                    self.state = TokenizerState::AfterAttributeName;
                } else if b == EQUALS_SIGN {
                    self.input.advance();
                    self.state = TokenizerState::BeforeAttributeValue;
                } else if is_upper_byte(b) {
                    self.input.advance();
                    self.push_attr_name(lower_char(b));
                } else if b == NULL {
                    self.input.advance();
                    self.error(ParseError::UnexpectedNullCharacter);
                    self.push_attr_name('\u{FFFD}');
                } else if b == QUOTATION_MARK || b == APOSTROPHE || b == LESS_THAN {
                    self.input.advance();
                    self.error(ParseError::UnexpectedCharacterInAttributeName);
                    self.push_attr_name(b as char);
                } else {
                    let c = self.consume_char();
                    self.push_attr_name(c);
                }
            },
        }
    }

    fn handle_after_attribute_name_state(&mut self)
        requires
            old(self).ready(TokenizerState::AfterAttributeName),
        ensures
            final(self).moved_on(old(self)),
            final(self).tokens@.len() >= old(self).tokens@.len(),
            final(self).solidus_path(old(self)),
    {
        match self.input.current() {
            None => {
                self.error(ParseError::EofInTag);
                self.emit_eof();
            },
            Some(b) => {
                if is_space(b) {
                    self.input.advance();
                } else if b == SOLIDUS {
                    self.input.advance();
                    self.state = TokenizerState::SelfClosingStartTag;
                } else if b == EQUALS_SIGN {
                    self.input.advance();
                    self.state = TokenizerState::BeforeAttributeValue;
                } else if b == GREATER_THAN {
                    self.input.advance();
                    self.state = TokenizerState::Data;
                    self.emit_tag();
                } else {
                    self.start_attribute();
                    self.state = TokenizerState::AttributeName;
                }
            },
        }
    }

    fn handle_before_attribute_value_state(&mut self)
        requires
            old(self).ready(TokenizerState::BeforeAttributeValue),
        ensures
            final(self).moved_on(old(self)),
            final(self).tokens@.len() >= old(self).tokens@.len(),
    {
        match self.input.current() {
            Some(b) => {
                if is_space(b) {
                    self.input.advance();
                } else if b == QUOTATION_MARK {
                    self.input.advance();
                    self.state = TokenizerState::AttributeValueDoubleQuoted;
                } else if b == APOSTROPHE {
                    self.input.advance();
                    self.state = TokenizerState::AttributeValueSingleQuoted;
                } else if b == GREATER_THAN {
                    self.input.advance();
                    self.error(ParseError::MissingAttributeValue);
                    self.state = TokenizerState::Data;
                    self.emit_tag();
                } else {
                    self.state = TokenizerState::AttributeValueUnquoted;
                }
            },
            None => {
                self.state = TokenizerState::AttributeValueUnquoted;
            },
        }
    }

    fn handle_attribute_value_double_quoted_state(&mut self)
        requires
            old(self).ready(TokenizerState::AttributeValueDoubleQuoted),
        ensures
            final(self).moved_on(old(self)),
            final(self).tokens@.len() >= old(self).tokens@.len(),
    {
        match self.input.current() {
            Some(QUOTATION_MARK) => {
                self.input.advance();
                self.state = TokenizerState::AfterAttributeValueQuoted;
            },
            Some(AMPERSAND) => {
                self.input.advance();
                self.return_state = TokenizerState::AttributeValueDoubleQuoted;
                self.state = TokenizerState::CharacterReference;
            },
            Some(NULL) => {
                self.input.advance();
                self.error(ParseError::UnexpectedNullCharacter);
                self.push_attr_value('\u{FFFD}');
            },
            None => {
                self.error(ParseError::EofInTag);
                self.emit_eof();
            },
            Some(_) => {
                let c = self.consume_char();
                self.push_attr_value(c);
            },
        }
    }

    fn handle_attribute_value_single_quoted_state(&mut self)
        requires
            old(self).ready(TokenizerState::AttributeValueSingleQuoted),
        ensures
            final(self).moved_on(old(self)),
            final(self).tokens@.len() >= old(self).tokens@.len(),
    {
        match self.input.current() {
            Some(APOSTROPHE) => {
                self.input.advance();
                self.state = TokenizerState::AfterAttributeValueQuoted;
            },
            Some(AMPERSAND) => {
                self.input.advance();
                self.return_state = TokenizerState::AttributeValueSingleQuoted;
                self.state = TokenizerState::CharacterReference;
            },
            Some(NULL) => {
                self.input.advance();
                self.error(ParseError::UnexpectedNullCharacter);
                self.push_attr_value('\u{FFFD}');
            },
            None => {
                self.error(ParseError::EofInTag);
                self.emit_eof();
            },
            Some(_) => {
                let c = self.consume_char();
                self.push_attr_value(c);
            },
        }
    }

    fn handle_attribute_value_unquoted_state(&mut self)
        requires
            old(self).ready(TokenizerState::AttributeValueUnquoted),
        ensures
            final(self).moved_on(old(self)),
            final(self).tokens@.len() >= old(self).tokens@.len(),
    {
        match self.input.current() {
            None => {
                self.error(ParseError::EofInTag);
                self.emit_eof();
            },
            Some(b) => {
                if is_space(b) {
                    self.input.advance();
                    self.state = TokenizerState::BeforeAttributeName;
                } else if b == AMPERSAND {
                    self.input.advance();
                    self.return_state = TokenizerState::AttributeValueUnquoted;
                    self.state = TokenizerState::CharacterReference;
                } else if b == GREATER_THAN {
                    self.input.advance();
                    self.state = TokenizerState::Data;
                    self.emit_tag();
                } else if b == NULL {
                    self.input.advance();
                    self.error(ParseError::UnexpectedNullCharacter);
                    self.push_attr_value('\u{FFFD}');
                } else if b == QUOTATION_MARK || b == APOSTROPHE || b == LESS_THAN || b == EQUALS_SIGN || b == GRAVE_ACCENT {
                    self.input.advance();
                    self.error(ParseError::UnexpectedCharacterInUnquotedAttributeValue);
                    self.push_attr_value(b as char);
                } else {
                    let c = self.consume_char();
                    self.push_attr_value(c);
                }
            },
        }
    }

    fn handle_after_attribute_value_quoted_state(&mut self)
        requires
            old(self).ready(TokenizerState::AfterAttributeValueQuoted),
        ensures
            final(self).moved_on(old(self)),
            final(self).tokens@.len() >= old(self).tokens@.len(),
    {
        match self.input.current() {
            None => {
                self.error(ParseError::EofInTag);
                self.emit_eof();
            },
            Some(b) => {
                if is_space(b) {
                    self.input.advance();
                    self.state = TokenizerState::BeforeAttributeName;
                } else if b == SOLIDUS {
                    self.input.advance();
                    self.state = TokenizerState::SelfClosingStartTag;
                } else if b == GREATER_THAN {
                    self.input.advance();
                    self.state = TokenizerState::Data;
                    self.emit_tag();
                } else {
                    self.error(ParseError::MissingWhitespaceBetweenAttributes);
                    self.state = TokenizerState::BeforeAttributeName;
                }
            },
        }
    }

    fn handle_self_closing_start_tag_state(&mut self)
        requires
            old(self).ready(TokenizerState::SelfClosingStartTag),
        ensures
            final(self).moved_on(old(self)),
            final(self).tokens@.len() >= old(self).tokens@.len(),
            (old(self).input.peek() is Some && old(self).input.peek() != Some(0x3Eu8)) ==> final(self).state
                == TokenizerState::BeforeAttributeName && final(self).input.position()
                == old(self).input.position() && final(self).tokens@ == old(self).tokens@ && final(self).tag
                == old(self).tag && final(self).errors@ == old(self).errors@.push(
                ParseError::UnexpectedSolidusInTag,
            ),
            (old(self).input.peek() == Some(0x3Eu8) && !old(self).tag.attr_pending) ==> final(self).state
                == TokenizerState::Data && final(self).input.position() == old(self).input.position() + 1
                && final(self).tokens@.drop_last() == old(self).tokens@ && tag_token_at(
                final(self).tokens@,
                old(self).tokens@.len() as int,
                old(self).tag.is_end,
                old(self).tag.name@,
                true,
                old(self).tag.attributes@.len(),
            ),
            old(self).input.peek() is None ==> final(self).done && final(self).tokens@ == old(self).tokens@.push(
                Token::EndOfFile,
            ) && final(self).errors@ == old(self).errors@.push(ParseError::EofInTag),
            final(self).solidus_path(old(self)),
    {
        match self.input.current() {
            Some(GREATER_THAN) => {
                self.input.advance();
                self.tag.self_closing = true;
                self.state = TokenizerState::Data;
                self.emit_tag();
            },
            None => {
                self.error(ParseError::EofInTag);
                self.emit_eof();
            },
            Some(_) => {
                self.error(ParseError::UnexpectedSolidusInTag);
                self.state = TokenizerState::BeforeAttributeName;
            },
        }
    }

    fn handle_bogus_comment_state(&mut self)
        requires
            old(self).ready(TokenizerState::BogusComment),
        ensures
            final(self).moved_on(old(self)),
            final(self).tokens@.len() >= old(self).tokens@.len(),
    {
        match self.input.current() {
            Some(GREATER_THAN) => {
                self.input.advance();
                self.state = TokenizerState::Data;
                self.emit_comment();
            },
            None => {
                self.emit_comment();
                self.emit_eof();
            },
            Some(NULL) => {
                self.input.advance();
                self.error(ParseError::UnexpectedNullCharacter);
                self.push_comment('\u{FFFD}');
            },
            Some(_) => {
                let c = self.consume_char();
                self.push_comment(c);
            },
        }
    }

    fn handle_markup_declaration_open_state(&mut self)
        requires
            old(self).ready(TokenizerState::MarkupDeclarationOpen),
        ensures
            final(self).moved_on(old(self)),
            final(self).tokens@.len() >= old(self).tokens@.len(),
            final(self).comment_path(old(self)),
            starts_with_literal(old(self).input.rest(), cdata_open(), false) && !old(self).in_foreign_content
                ==> final(self).state == TokenizerState::BogusComment && final(self).input.position()
                == old(self).input.position() + 7 && final(self).tokens@ == old(self).tokens@
                && final(self).comment@ == seq!['[', 'C', 'D', 'A', 'T', 'A', '['] && final(self).errors@
                == old(self).errors@.push(ParseError::CdataInHtmlContent),
            starts_with_literal(old(self).input.rest(), cdata_open(), false) && old(self).in_foreign_content
                ==> final(self).state == TokenizerState::CDATASection && final(self).input.position()
                == old(self).input.position() + 7 && final(self).same_output(old(self)),
            final(self).doctype_path(old(self)),
    {
        let dashes: [u8; 2] = [0x2D, 0x2D];
        let doctype: [u8; 7] = [0x44, 0x4F, 0x43, 0x54, 0x59, 0x50, 0x45];
        let cdata: [u8; 7] = [0x5B, 0x43, 0x44, 0x41, 0x54, 0x41, 0x5B];
        assert(dashes@ =~= seq![0x2Du8, 0x2Du8]);
        assert(doctype@ =~= seq![0x44u8, 0x4Fu8, 0x43u8, 0x54u8, 0x59u8, 0x50u8, 0x45u8]);
        assert(cdata@ =~= cdata_open());
        proof {
            if starts_with_literal(self.input.rest(), doctype_word(), true) {
                assert(ascii_lower(self.input.rest()[0]) == ascii_lower(doctype_word()[0]));
                assert(!starts_with_literal(self.input.rest(), dashes@, false));
                assert(doctype@ == doctype_word());
            }
            if starts_with_literal(self.input.rest(), cdata_open(), false) {
                assert(self.input.rest()[0] == 0x5Bu8);
                assert(!starts_with_literal(self.input.rest(), dashes@, false));
                assert(!starts_with_literal(self.input.rest(), doctype@, true)) by {
                    assert(ascii_lower(self.input.rest()[0]) != ascii_lower(doctype@[0]));
                }
            }
        }
        if self.input.match_literal(&dashes, false) {
            self.start_comment();
            self.state = TokenizerState::CommentStart;
        } else if self.input.match_literal(&doctype, true) {
            self.state = TokenizerState::DOCTYPE;
        } else if self.input.match_literal(&cdata, false) {
            if self.in_foreign_content {
                self.state = TokenizerState::CDATASection;
            } else {
                self.error(ParseError::CdataInHtmlContent);
                self.start_comment();
                self.push_comment('[');
                self.push_comment('C');
                self.push_comment('D');
                self.push_comment('A');
                self.push_comment('T');
                self.push_comment('A');
                self.push_comment('[');
                assert(self.comment@ =~= seq!['[', 'C', 'D', 'A', 'T', 'A', '[']);
                self.state = TokenizerState::BogusComment;
            }
        } else {
            self.error(ParseError::IncorrectlyOpenedComment);
            self.start_comment();
            self.state = TokenizerState::BogusComment;
        }
    }

    fn handle_comment_start_state(&mut self)
        requires
            old(self).ready(TokenizerState::CommentStart),
        ensures
            final(self).moved_on(old(self)),
            final(self).tokens@.len() >= old(self).tokens@.len(),
            final(self).comment_path(old(self)),
            old(self).input.peek() == Some(0x3Eu8) ==> final(self).abrupt_comment_step(old(self)),
    {
        match self.input.current() {
            Some(HYPHEN) => {
                self.input.advance();
                self.state = TokenizerState::CommentStartDash;
            },
            Some(GREATER_THAN) => {
                self.input.advance();
                self.error(ParseError::AbruptClosingOfEmptyComment);
                self.state = TokenizerState::Data;
                self.emit_comment();
            },
            _ => {
                self.state = TokenizerState::Comment;
            },
        }
    }

    fn handle_comment_start_dash_state(&mut self)
        requires
            old(self).ready(TokenizerState::CommentStartDash),
        ensures
            final(self).moved_on(old(self)),
            final(self).tokens@.len() >= old(self).tokens@.len(),
            final(self).comment_path(old(self)),
            old(self).input.peek() == Some(0x3Eu8) ==> final(self).abrupt_comment_step(old(self)),
            old(self).input.peek() is None ==> final(self).comment_eof_step(old(self)),
    {
        match self.input.current() {
            Some(HYPHEN) => {
                self.input.advance();
                self.state = TokenizerState::CommentEnd;
            },
            Some(GREATER_THAN) => {
                self.input.advance();
                self.error(ParseError::AbruptClosingOfEmptyComment);
                self.state = TokenizerState::Data;
                self.emit_comment();
            },
            None => {
                self.comment_eof();
            },
            Some(_) => {
                self.push_comment('-');
                self.state = TokenizerState::Comment;
            },
        }
    }

    fn handle_comment_state(&mut self)
        requires
            old(self).ready(TokenizerState::Comment),
        ensures
            final(self).moved_on(old(self)),
            final(self).tokens@.len() >= old(self).tokens@.len(),
            final(self).comment_path(old(self)),
            old(self).input.peek() is None ==> final(self).comment_eof_step(old(self)),
    {
        match self.input.current() {
            Some(LESS_THAN) => {
                self.input.advance();
                self.push_comment('<');
                self.state = TokenizerState::CommentLessThanSign;
            },
            Some(HYPHEN) => {
                self.input.advance();
                self.state = TokenizerState::CommentEndDash;
            },
            Some(NULL) => {
                self.input.advance();
                self.error(ParseError::UnexpectedNullCharacter);
                self.push_comment('\u{FFFD}');
            },
            None => {
                self.comment_eof();
            },
            Some(_) => {
                let c = self.consume_char();
                self.push_comment(c);
            },
        }
    }

    fn handle_comment_less_than_sign_state(&mut self)
        requires
            old(self).ready(TokenizerState::CommentLessThanSign),
        ensures
            final(self).moved_on(old(self)),
            final(self).tokens@.len() >= old(self).tokens@.len(),
    {
        match self.input.current() {
            Some(BANG) => {
                self.input.advance();
                self.push_comment('!');
                self.state = TokenizerState::CommentLessThanSignBang;
            },
            Some(LESS_THAN) => {
                self.input.advance();
                self.push_comment('<');
            },
            _ => {
                self.state = TokenizerState::Comment;
            },
        }
    }

    fn handle_comment_less_than_sign_bang_state(&mut self)
        requires
            old(self).ready(TokenizerState::CommentLessThanSignBang),
        ensures
            final(self).moved_on(old(self)),
            final(self).tokens@.len() >= old(self).tokens@.len(),
    {
        match self.input.current() {
            Some(HYPHEN) => {
                self.input.advance();
                self.state = TokenizerState::CommentLessThanSignBangDash;
            },
            _ => {
                self.state = TokenizerState::Comment;
            },
        }
    }

    fn handle_comment_less_than_sign_bang_dash_state(&mut self)
        requires
            old(self).ready(TokenizerState::CommentLessThanSignBangDash),
        ensures
            final(self).moved_on(old(self)),
            final(self).tokens@.len() >= old(self).tokens@.len(),
    {
        match self.input.current() {
            Some(HYPHEN) => {
                self.input.advance();
                self.state = TokenizerState::CommentLessThanSignBangDashDash;
            },
            _ => {
                self.state = TokenizerState::CommentEndDash;
            },
        }
    }

    fn handle_comment_less_than_sign_bang_dash_dash_state(&mut self)
        requires
            old(self).ready(TokenizerState::CommentLessThanSignBangDashDash),
        ensures
            final(self).moved_on(old(self)),
            final(self).tokens@.len() >= old(self).tokens@.len(),
            old(self).input.peek() is Some && old(self).input.peek() != Some(0x3Eu8) ==> final(self).state
                == TokenizerState::CommentEnd && final(self).input.position() == old(self).input.position()
                && final(self).tokens@ == old(self).tokens@ && final(self).comment@ == old(self).comment@
                && final(self).errors@ == old(self).errors@.push(ParseError::NestedComment),
            old(self).input.peek() is None || old(self).input.peek() == Some(0x3Eu8) ==> final(self).only_moved_to(
                old(self),
                TokenizerState::CommentEnd,
                0,
            ),
    {
        match self.input.current() {
            Some(GREATER_THAN) | None => {
                self.state = TokenizerState::CommentEnd;
            },
            Some(_) => {
                self.error(ParseError::NestedComment);
                self.state = TokenizerState::CommentEnd;
            },
        }
    }

    fn handle_comment_end_dash_state(&mut self)
        requires
            old(self).ready(TokenizerState::CommentEndDash),
        ensures
            final(self).moved_on(old(self)),
            final(self).tokens@.len() >= old(self).tokens@.len(),
            final(self).comment_path(old(self)),
            old(self).input.peek() is None ==> final(self).comment_eof_step(old(self)),
    {
        match self.input.current() {
            Some(HYPHEN) => {
                self.input.advance();
                self.state = TokenizerState::CommentEnd;
            },
            None => {
                self.comment_eof();
            },
            Some(_) => {
                self.push_comment('-');
                self.state = TokenizerState::Comment;
            },
        }
    }

    fn handle_comment_end_state(&mut self)
        requires
            old(self).ready(TokenizerState::CommentEnd),
        ensures
            final(self).moved_on(old(self)),
            final(self).tokens@.len() >= old(self).tokens@.len(),
            final(self).comment_path(old(self)),
            old(self).input.peek() is None ==> final(self).comment_eof_step(old(self)),
    {
        match self.input.current() {
            Some(GREATER_THAN) => {
                self.input.advance();
                self.state = TokenizerState::Data;
                self.emit_comment();
            },
            Some(BANG) => {
                self.input.advance();
                self.state = TokenizerState::CommentEndBang;
            },
            Some(HYPHEN) => {
                self.input.advance();
                self.push_comment('-');
            },
            None => {
                self.comment_eof();
            },
            Some(_) => {
                self.push_comment('-');
                self.push_comment('-');
                self.state = TokenizerState::Comment;
            },
        }
    }

    fn handle_comment_end_bang_state(&mut self)
        requires
            old(self).ready(TokenizerState::CommentEndBang),
        ensures
            final(self).moved_on(old(self)),
            final(self).tokens@.len() >= old(self).tokens@.len(),
    {
        match self.input.current() {
            Some(HYPHEN) => {
                self.input.advance();
                self.push_comment('-');
                self.push_comment('-');
                self.push_comment('!');
                self.state = TokenizerState::CommentEndDash;
            },
            Some(GREATER_THAN) => {
                self.input.advance();
                self.error(ParseError::IncorrectlyClosedComment);
                self.state = TokenizerState::Data;
                self.emit_comment();
            },
            None => {
                self.comment_eof();
            },
            Some(_) => {
                self.push_comment('-');
                self.push_comment('-');
                self.push_comment('!');
                self.state = TokenizerState::Comment;
            },
        }
    }

    /// End of input inside a DOCTYPE: emit it in quirks mode, then end.
    fn doctype_eof(&mut self)
        requires
            old(self).wf(),
            !old(self).done,
        ensures
            final(self).wf(),
            final(self).done,
            final(self).input == old(self).input,
            final(self).tokens@.len() > old(self).tokens@.len(),
            old(self).tokens@.is_prefix_of(final(self).tokens@),
            final(self).tokens@.len() == old(self).tokens@.len() + 2,
            final(self).tokens@.subrange(0, old(self).tokens@.len() as int) == old(self).tokens@,
            old(self).built_doctype(final(self).tokens@[old(self).tokens@.len() as int], true),
            final(self).tokens@.last() is EndOfFile,
            final(self).errors@ == old(self).errors@.push(ParseError::EofInDoctype),
    {
        self.error(ParseError::EofInDoctype);
        self.doctype.force_quirks = true;
        self.emit_doctype();
        let ghost t1 = self.tokens@;
        self.emit_eof();
        assert(self.tokens@.subrange(0, old(self).tokens@.len() as int) =~= old(self).tokens@);
        assert(self.tokens@[old(self).tokens@.len() as int] == t1.last());
    }

    fn handle_doctype_state(&mut self)
        requires
            old(self).ready(TokenizerState::DOCTYPE),
        ensures
            final(self).moved_on(old(self)),
            final(self).tokens@.len() >= old(self).tokens@.len(),
            final(self).doctype_path(old(self)),
    {
        match self.input.current() {
            None => {
                self.start_doctype();
                self.doctype_eof();
            },
            Some(b) => {
                if is_space(b) {
                    self.input.advance();
                    self.state = TokenizerState::BeforeDOCTYPEName;
                } else if b == GREATER_THAN {
                    self.state = TokenizerState::BeforeDOCTYPEName;
                } else {
                    self.error(ParseError::MissingWhitespaceBeforeDoctypeName);
                    self.state = TokenizerState::BeforeDOCTYPEName;
                }
            },
        }
    }

    fn handle_before_doctype_name_state(&mut self)
        requires
            old(self).ready(TokenizerState::BeforeDOCTYPEName),
        ensures
            final(self).moved_on(old(self)),
            final(self).tokens@.len() >= old(self).tokens@.len(),
            final(self).before_doctype_name_step(old(self)),
    {
        match self.input.current() {
            None => {
                self.start_doctype();
                self.doctype_eof();
            },
            Some(b) => {
                if is_space(b) {
                    self.input.advance();
                } else if is_upper_byte(b) {
                    self.input.advance();
                    self.start_doctype();
                    self.doctype.has_name = true;
                    push_char(&mut self.doctype.name, lower_char(b));
                    self.state = TokenizerState::DOCTYPEName;
                } else if b == NULL {
                    self.input.advance();
                    self.error(ParseError::UnexpectedNullCharacter);
                    self.start_doctype();
                    self.doctype.has_name = true;
                    push_char(&mut self.doctype.name, '\u{FFFD}');
                    self.state = TokenizerState::DOCTYPEName;
                } else if b == GREATER_THAN {
                    self.input.advance();
                    self.error(ParseError::MissingDoctypeName);
                    self.start_doctype();
                    self.doctype.force_quirks = true;
                    self.state = TokenizerState::Data;
                    self.emit_doctype();
                } else {
                    let c = self.consume_char();
                    self.start_doctype();
                    self.doctype.has_name = true;
                    push_char(&mut self.doctype.name, c);
                    self.state = TokenizerState::DOCTYPEName;
                }
            },
        }
    }

    fn handle_doctype_name_state(&mut self)
        requires
            old(self).ready(TokenizerState::DOCTYPEName),
        ensures
            final(self).moved_on(old(self)),
            final(self).tokens@.len() >= old(self).tokens@.len(),
            old(self).input.peek() is None ==> final(self).doctype_eof_step(old(self), false),
            final(self).doctype_path(old(self)),
    {
        match self.input.current() {
            None => self.doctype_eof(),
            Some(b) => {
                if is_space(b) {
                    self.input.advance();
                    self.state = TokenizerState::AfterDOCTYPEName;
                } else if b == GREATER_THAN {
                    self.input.advance();
                    self.state = TokenizerState::Data;
                    self.emit_doctype();
                } else if is_upper_byte(b) {
                    self.input.advance();
                    push_char(&mut self.doctype.name, lower_char(b));
                } else if b == NULL {
                    self.input.advance();
                    self.error(ParseError::UnexpectedNullCharacter);
                    push_char(&mut self.doctype.name, '\u{FFFD}');
                } else {
                    let c = self.consume_char();
                    push_char(&mut self.doctype.name, c);
                }
            },
        }
    }

    fn handle_after_doctype_name_state(&mut self)
        requires
            old(self).ready(TokenizerState::AfterDOCTYPEName),
        ensures
            final(self).moved_on(old(self)),
            final(self).tokens@.len() >= old(self).tokens@.len(),
    {
        let public: [u8; 6] = [0x50, 0x55, 0x42, 0x4C, 0x49, 0x43];
        let system: [u8; 6] = [0x53, 0x59, 0x53, 0x54, 0x45, 0x4D];
        match self.input.current() {
            None => self.doctype_eof(),
            Some(b) => {
                if is_space(b) {
                    self.input.advance();
                } else if b == GREATER_THAN {
                    self.input.advance();
                    self.state = TokenizerState::Data;
                    self.emit_doctype();
                } else if self.input.match_literal(&public, true) {
                    self.state = TokenizerState::AfterDOCTYPEPublicKeyword;
                } else if self.input.match_literal(&system, true) {
                    self.state = TokenizerState::AfterDOCTYPESystemKeyword;
                } else {
                    self.error(ParseError::InvalidCharacterSequenceAfterDoctypeName);
                    self.doctype.force_quirks = true;
                    self.state = TokenizerState::BogusDOCTYPE;
                }
            },
        }
    }

    fn handle_after_doctype_public_keyword_state(&mut self)
        requires
            old(self).ready(TokenizerState::AfterDOCTYPEPublicKeyword),
        ensures
            final(self).moved_on(old(self)),
            final(self).tokens@.len() >= old(self).tokens@.len(),
            final(self).before_id_step(
                old(self),
                false,
                TokenizerState::BeforeDOCTYPEPublicIdentifier,
                Some(ParseError::MissingWhitespaceAfterDoctypePublicKeyword),
                TokenizerState::DOCTYPEPublicIdentifierDoubleQuoted,
                TokenizerState::DOCTYPEPublicIdentifierSingleQuoted,
                ParseError::MissingDoctypePublicIdentifier,
                ParseError::MissingQuoteBeforeDoctypePublicIdentifier,
            ),
    {
        match self.input.current() {
            None => self.doctype_eof(),
            Some(b) => {
                if is_space(b) {
                    self.input.advance();
                    self.state = TokenizerState::BeforeDOCTYPEPublicIdentifier;
                } else if b == QUOTATION_MARK {
                    self.input.advance();
                    self.error(ParseError::MissingWhitespaceAfterDoctypePublicKeyword);
                    self.doctype.public_id = String::new();
                    self.doctype.has_public_id = true;
                    self.state = TokenizerState::DOCTYPEPublicIdentifierDoubleQuoted;
                } else if b == APOSTROPHE {
                    self.input.advance();
                    self.error(ParseError::MissingWhitespaceAfterDoctypePublicKeyword);
                    self.doctype.public_id = String::new();
                    self.doctype.has_public_id = true;
                    self.state = TokenizerState::DOCTYPEPublicIdentifierSingleQuoted;
                } else if b == GREATER_THAN {
                    self.input.advance();
                    self.error(ParseError::MissingDoctypePublicIdentifier);
                    self.doctype.force_quirks = true;
                    self.state = TokenizerState::Data;
                    self.emit_doctype();
                } else {
                    self.error(ParseError::MissingQuoteBeforeDoctypePublicIdentifier);
                    self.doctype.force_quirks = true;
                    self.state = TokenizerState::BogusDOCTYPE;
                }
            },
        }
    }

    fn handle_before_doctype_public_id_state(&mut self)
        requires
            old(self).ready(TokenizerState::BeforeDOCTYPEPublicIdentifier),
        ensures
            final(self).moved_on(old(self)),
            final(self).tokens@.len() >= old(self).tokens@.len(),
            final(self).before_id_step(
                old(self),
                false,
                TokenizerState::BeforeDOCTYPEPublicIdentifier,
                None,
                TokenizerState::DOCTYPEPublicIdentifierDoubleQuoted,
                TokenizerState::DOCTYPEPublicIdentifierSingleQuoted,
                ParseError::MissingDoctypePublicIdentifier,
                ParseError::MissingQuoteBeforeDoctypePublicIdentifier,
            ),
    {
        match self.input.current() {
            None => self.doctype_eof(),
            Some(b) => {
                if is_space(b) {
                    self.input.advance();
                } else if b == QUOTATION_MARK {
                    self.input.advance();
                    self.doctype.public_id = String::new();
                    self.doctype.has_public_id = true;
                    self.state = TokenizerState::DOCTYPEPublicIdentifierDoubleQuoted;
                } else if b == APOSTROPHE {
                    self.input.advance();
                    self.doctype.public_id = String::new();
                    self.doctype.has_public_id = true;
                    self.state = TokenizerState::DOCTYPEPublicIdentifierSingleQuoted;
                } else if b == GREATER_THAN {
                    self.input.advance();
                    self.error(ParseError::MissingDoctypePublicIdentifier);
                    self.doctype.force_quirks = true;
                    self.state = TokenizerState::Data;
                    self.emit_doctype();
                } else {
                    self.error(ParseError::MissingQuoteBeforeDoctypePublicIdentifier);
                    self.doctype.force_quirks = true;
                    self.state = TokenizerState::BogusDOCTYPE;
                }
            },
        }
    }

    fn handle_after_doctype_system_keyword_state(&mut self)
        requires
            old(self).ready(TokenizerState::AfterDOCTYPESystemKeyword),
        ensures
            final(self).moved_on(old(self)),
            final(self).tokens@.len() >= old(self).tokens@.len(),
            final(self).before_id_step(
                old(self),
                true,
                TokenizerState::BeforeDOCTYPESystemIdentifier,
                Some(ParseError::MissingWhitespaceAfterDoctypeSystemKeyword),
                TokenizerState::DOCTYPESystemIdentifierDoubleQuoted,
                TokenizerState::DOCTYPESystemIdentifierSingleQuoted,
                ParseError::MissingDoctypeSystemIdentifier,
                ParseError::MissingQuoteBeforeDoctypeSystemIdentifier,
            ),
    {
        match self.input.current() {
            None => self.doctype_eof(),
            Some(b) => {
                if is_space(b) {
                    self.input.advance();
                    self.state = TokenizerState::BeforeDOCTYPESystemIdentifier;
                } else if b == QUOTATION_MARK {
                    self.input.advance();
                    self.error(ParseError::MissingWhitespaceAfterDoctypeSystemKeyword);
                    self.doctype.system_id = String::new();
                    self.doctype.has_system_id = true;
                    self.state = TokenizerState::DOCTYPESystemIdentifierDoubleQuoted;
                } else if b == APOSTROPHE {
                    self.input.advance();
                    self.error(ParseError::MissingWhitespaceAfterDoctypeSystemKeyword);
                    self.doctype.system_id = String::new();
                    self.doctype.has_system_id = true;
                    self.state = TokenizerState::DOCTYPESystemIdentifierSingleQuoted;
                } else if b == GREATER_THAN {
                    self.input.advance();
                    self.error(ParseError::MissingDoctypeSystemIdentifier);
                    self.doctype.force_quirks = true;
                    self.state = TokenizerState::Data;
                    self.emit_doctype();
                } else {
                    self.error(ParseError::MissingQuoteBeforeDoctypeSystemIdentifier);
                    self.doctype.force_quirks = true;
                    self.state = TokenizerState::BogusDOCTYPE;
                }
            },
        }
    }

    fn handle_before_doctype_system_identifier_state(&mut self)
        requires
            old(self).ready(TokenizerState::BeforeDOCTYPESystemIdentifier),
        ensures
            final(self).moved_on(old(self)),
            final(self).tokens@.len() >= old(self).tokens@.len(),
            final(self).before_id_step(
                old(self),
                true,
                TokenizerState::BeforeDOCTYPESystemIdentifier,
                None,
                TokenizerState::DOCTYPESystemIdentifierDoubleQuoted,
                TokenizerState::DOCTYPESystemIdentifierSingleQuoted,
                ParseError::MissingDoctypeSystemIdentifier,
                ParseError::MissingQuoteBeforeDoctypeSystemIdentifier,
            ),
    {
        match self.input.current() {
            None => self.doctype_eof(),
            Some(b) => {
                if is_space(b) {
                    self.input.advance();
                } else if b == QUOTATION_MARK {
                    self.input.advance();
                    self.doctype.system_id = String::new();
                    self.doctype.has_system_id = true;
                    self.state = TokenizerState::DOCTYPESystemIdentifierDoubleQuoted;
                } else if b == APOSTROPHE {
                    self.input.advance();
                    self.doctype.system_id = String::new();
                    self.doctype.has_system_id = true;
                    self.state = TokenizerState::DOCTYPESystemIdentifierSingleQuoted;
                } else if b == GREATER_THAN {
                    self.input.advance();
                    self.error(ParseError::MissingDoctypeSystemIdentifier);
                    self.doctype.force_quirks = true;
                    self.state = TokenizerState::Data;
                    self.emit_doctype();
                } else {
                    self.error(ParseError::MissingQuoteBeforeDoctypeSystemIdentifier);
                    self.doctype.force_quirks = true;
                    self.state = TokenizerState::BogusDOCTYPE;
                }
            },
        }
    }

    fn handle_doctype_public_id_double_quoted_state(&mut self)
        requires
            old(self).ready(TokenizerState::DOCTYPEPublicIdentifierDoubleQuoted),
        ensures
            final(self).moved_on(old(self)),
            final(self).tokens@.len() >= old(self).tokens@.len(),
            final(self).quoted_id_step(old(self), false, 0x22u8, TokenizerState::AfterDOCTYPEPublicIdentifier, ParseError::AbruptDoctypePublicIdentifier),
    {
        match self.input.current() {
            None => self.doctype_eof(),
            Some(b) => {
                if b == QUOTATION_MARK {
                    self.input.advance();
                    self.state = TokenizerState::AfterDOCTYPEPublicIdentifier;
                } else if b == NULL {
                    self.input.advance();
                    self.error(ParseError::UnexpectedNullCharacter);
                    push_char(&mut self.doctype.public_id, '\u{FFFD}');
                } else if b == GREATER_THAN {
                    self.input.advance();
                    self.error(ParseError::AbruptDoctypePublicIdentifier);
                    self.doctype.force_quirks = true;
                    self.state = TokenizerState::Data;
                    self.emit_doctype();
                } else {
                    let c = self.consume_char();
                    push_char(&mut self.doctype.public_id, c);
                }
            },
        }
    }

    fn handle_doctype_public_id_single_quoted_state(&mut self)
        requires
            old(self).ready(TokenizerState::DOCTYPEPublicIdentifierSingleQuoted),
        ensures
            final(self).moved_on(old(self)),
            final(self).tokens@.len() >= old(self).tokens@.len(),
            final(self).quoted_id_step(old(self), false, 0x27u8, TokenizerState::AfterDOCTYPEPublicIdentifier, ParseError::AbruptDoctypePublicIdentifier),
    {
        match self.input.current() {
            None => self.doctype_eof(),
            Some(b) => {
                if b == APOSTROPHE {
                    self.input.advance();
                    self.state = TokenizerState::AfterDOCTYPEPublicIdentifier;
                } else if b == NULL {
                    self.input.advance();
                    self.error(ParseError::UnexpectedNullCharacter);
                    push_char(&mut self.doctype.public_id, '\u{FFFD}');
                } else if b == GREATER_THAN {
                    self.input.advance();
                    self.error(ParseError::AbruptDoctypePublicIdentifier);
                    self.doctype.force_quirks = true;
                    self.state = TokenizerState::Data;
                    self.emit_doctype();
                } else {
                    let c = self.consume_char();
                    push_char(&mut self.doctype.public_id, c);
                }
            },
        }
    }

    fn handle_doctype_system_identifier_double_quoted_state(&mut self)
        requires
            old(self).ready(TokenizerState::DOCTYPESystemIdentifierDoubleQuoted),
        ensures
            final(self).moved_on(old(self)),
            final(self).tokens@.len() >= old(self).tokens@.len(),
            final(self).quoted_id_step(old(self), true, 0x22u8, TokenizerState::AfterDOCTYPESystemIdentifier, ParseError::AbruptDoctypeSystemIdentifier),
    {
        match self.input.current() {
            None => self.doctype_eof(),
            Some(b) => {
                if b == QUOTATION_MARK {
                    self.input.advance();
                    self.state = TokenizerState::AfterDOCTYPESystemIdentifier;
                } else if b == NULL {
                    self.input.advance();
                    self.error(ParseError::UnexpectedNullCharacter);
                    push_char(&mut self.doctype.system_id, '\u{FFFD}');
                } else if b == GREATER_THAN {
                    self.input.advance();
                    self.error(ParseError::AbruptDoctypeSystemIdentifier);
                    self.doctype.force_quirks = true;
                    self.state = TokenizerState::Data;
                    self.emit_doctype();
                } else {
                    let c = self.consume_char();
                    push_char(&mut self.doctype.system_id, c);
                }
            },
        }
    }

    fn handle_doctype_system_identifier_single_quoted_state(&mut self)
        requires
            old(self).ready(TokenizerState::DOCTYPESystemIdentifierSingleQuoted),
        ensures
            final(self).moved_on(old(self)),
            final(self).tokens@.len() >= old(self).tokens@.len(),
            final(self).quoted_id_step(old(self), true, 0x27u8, TokenizerState::AfterDOCTYPESystemIdentifier, ParseError::AbruptDoctypeSystemIdentifier),
    {
        match self.input.current() {
            None => self.doctype_eof(),
            Some(b) => {
                if b == APOSTROPHE {
                    self.input.advance();
                    self.state = TokenizerState::AfterDOCTYPESystemIdentifier;
                } else if b == NULL {
                    self.input.advance();
                    self.error(ParseError::UnexpectedNullCharacter);
                    push_char(&mut self.doctype.system_id, '\u{FFFD}');
                } else if b == GREATER_THAN {
                    self.input.advance();
                    self.error(ParseError::AbruptDoctypeSystemIdentifier);
                    self.doctype.force_quirks = true;
                    self.state = TokenizerState::Data;
                    self.emit_doctype();
                } else {
                    let c = self.consume_char();
                    push_char(&mut self.doctype.system_id, c);
                }
            },
        }
    }

    fn handle_after_doctype_public_id_state(&mut self)
        requires
            old(self).ready(TokenizerState::AfterDOCTYPEPublicIdentifier),
        ensures
            final(self).moved_on(old(self)),
            final(self).tokens@.len() >= old(self).tokens@.len(),
    {
        match self.input.current() {
            None => self.doctype_eof(),
            Some(b) => {
                if is_space(b) {
                    self.input.advance();
                    self.state = TokenizerState::BetweenDOCTYPEPublicAndSystemIdentifiers;
                } else if b == GREATER_THAN {
                    self.input.advance();
                    self.state = TokenizerState::Data;
                    self.emit_doctype();
                } else if b == QUOTATION_MARK {
                    self.input.advance();
                    self.error(ParseError::MissingWhitespaceBetweenDoctypePublicAndSystemIdentifiers);
                    self.doctype.system_id = String::new();
                    self.doctype.has_system_id = true;
                    self.state = TokenizerState::DOCTYPESystemIdentifierDoubleQuoted;
                } else if b == APOSTROPHE {
                    self.input.advance();
                    self.error(ParseError::MissingWhitespaceBetweenDoctypePublicAndSystemIdentifiers);
                    self.doctype.system_id = String::new();
                    self.doctype.has_system_id = true;
                    self.state = TokenizerState::DOCTYPESystemIdentifierSingleQuoted;
                } else {
                    self.error(ParseError::MissingQuoteBeforeDoctypeSystemIdentifier);
                    self.doctype.force_quirks = true;
                    self.state = TokenizerState::BogusDOCTYPE;
                }
            },
        }
    }

    fn handle_between_doctype_public_and_system_identifiers_state(&mut self)
        requires
            old(self).ready(TokenizerState::BetweenDOCTYPEPublicAndSystemIdentifiers),
        ensures
            final(self).moved_on(old(self)),
            final(self).tokens@.len() >= old(self).tokens@.len(),
    {
        match self.input.current() {
            None => self.doctype_eof(),
            Some(b) => {
                if is_space(b) {
                    self.input.advance();
                } else if b == GREATER_THAN {
                    self.input.advance();
                    self.state = TokenizerState::Data;
                    self.emit_doctype();
                } else if b == QUOTATION_MARK {
                    self.input.advance();
                    self.doctype.system_id = String::new();
                    self.doctype.has_system_id = true;
                    self.state = TokenizerState::DOCTYPESystemIdentifierDoubleQuoted;
                } else if b == APOSTROPHE {
                    self.input.advance();
                    self.doctype.system_id = String::new();
                    self.doctype.has_system_id = true;
                    self.state = TokenizerState::DOCTYPESystemIdentifierSingleQuoted;
                } else {
                    self.error(ParseError::MissingQuoteBeforeDoctypeSystemIdentifier);
                    self.doctype.force_quirks = true;
                    self.state = TokenizerState::BogusDOCTYPE;
                }
            },
        }
    }

    fn handle_after_doctype_system_identifier_state(&mut self)
        requires
            old(self).ready(TokenizerState::AfterDOCTYPESystemIdentifier),
        ensures
            final(self).moved_on(old(self)),
            final(self).tokens@.len() >= old(self).tokens@.len(),
    {
        match self.input.current() {
            None => self.doctype_eof(),
            Some(b) => {
                if is_space(b) {
                    self.input.advance();
                } else if b == GREATER_THAN {
                    self.input.advance();
                    self.state = TokenizerState::Data;
                    self.emit_doctype();
                } else {
                    self.error(ParseError::UnexpectedCharacterAfterDoctypeSystemIdentifier);
                    self.state = TokenizerState::BogusDOCTYPE;
                }
            },
        }
    }

    fn handle_bogus_doctype_state(&mut self)
        requires
            old(self).ready(TokenizerState::BogusDOCTYPE),
        ensures
            final(self).moved_on(old(self)),
            final(self).tokens@.len() >= old(self).tokens@.len(),
    {
        match self.input.current() {
            None => {
                self.emit_doctype();
                self.emit_eof();
            },
            Some(GREATER_THAN) => {
                self.input.advance();
                self.state = TokenizerState::Data;
                self.emit_doctype();
            },
            Some(NULL) => {
                self.input.advance();
                self.error(ParseError::UnexpectedNullCharacter);
            },
            Some(_) => {
                self.consume_char();
            },
        }
    }

    fn handle_cdata_section_state(&mut self)
        requires
            old(self).ready(TokenizerState::CDATASection),
        ensures
            final(self).moved_on(old(self)),
            final(self).tokens@.len() >= old(self).tokens@.len(),
    {
        match self.input.current() {
            Some(RIGHT_BRACKET) => {
                self.input.advance();
                self.state = TokenizerState::CDATASectionBracket;
            },
            None => {
                self.error(ParseError::EofInCdata);
                self.emit_eof();
            },
            Some(_) => {
                let c = self.consume_char();
                self.emit_char(c);
            },
        }
    }

    fn handle_cdata_section_bracket_state(&mut self)
        requires
            old(self).ready(TokenizerState::CDATASectionBracket),
        ensures
            final(self).moved_on(old(self)),
            final(self).tokens@.len() >= old(self).tokens@.len(),
    {
        match self.input.current() {
            Some(RIGHT_BRACKET) => {
                self.input.advance();
                self.state = TokenizerState::CDATASectionEnd;
            },
            _ => {
                self.emit_char(']');
                self.state = TokenizerState::CDATASection;
            },
        }
    }

    fn handle_cdata_section_end_state(&mut self)
        requires
            old(self).ready(TokenizerState::CDATASectionEnd),
        ensures
            final(self).moved_on(old(self)),
            final(self).tokens@.len() >= old(self).tokens@.len(),
    {
        match self.input.current() {
            Some(RIGHT_BRACKET) => {
                self.input.advance();
                self.emit_char(']');
            },
            Some(GREATER_THAN) => {
                self.input.advance();
                self.state = TokenizerState::Data;
            },
            _ => {
                self.emit_char(']');
                self.emit_char(']');
                self.state = TokenizerState::CDATASection;
            },
        }
    }

    fn handle_character_reference_state(&mut self)
        requires
            old(self).ready(TokenizerState::CharacterReference),
        ensures
            final(self).moved_on(old(self)),
            final(self).tokens@.len() >= old(self).tokens@.len(),
            final(self).char_ref_step(old(self)),
    {
        self.temporary_buffer.clear();
        self.temporary_buffer.push('&');
        assert(self.temporary_buffer@ =~= seq!['&']);
        match self.input.current() {
            Some(NUMBER_SIGN) => {
                self.input.advance();
                self.temporary_buffer.push('#');
                assert(self.temporary_buffer@ =~= seq!['&', '#']);
                self.state = TokenizerState::NumericCharacterReference;
            },
            Some(b) => {
                if is_alnum(b) {
                    self.state = TokenizerState::NamedCharacterReference;
                } else {
                    self.flush_code_points();
                    self.state = self.return_state;
                }
            },
            None => {
                self.flush_code_points();
                self.state = self.return_state;
            },
        }
    }

    fn handle_named_character_reference_state(&mut self)
        requires
            old(self).ready(TokenizerState::NamedCharacterReference),
        ensures
            final(self).moved_on(old(self)),
            final(self).tokens@.len() >= old(self).tokens@.len(),
            final(self).named_ref_step(old(self)),
    {
        let pos = self.input.position_of();
        let n = self.input.len();
        let rest = self.input.slice(pos, n - pos);
        assert(rest@ =~= self.input.rest());
        match self.entities.longest_match(rest) {
            Some(i) => {
                let key = self.entities.key(i);
                let klen = key.len();
                let ends_with_semicolon = key[klen - 1] == SEMICOLON;
                let mut name: Vec<char> = Vec::new();
                let mut j: usize = 0;
                while j < klen
                    invariant
                        j <= klen,
                        klen == key@.len(),
                        name@.len() == j,
                        forall|t: int| 0 <= t < j ==> #[trigger] name@[t] == key@[t] as char,
                    decreases klen - j,
                {
                    name.push(key[j] as char);
                    j = j + 1;
                }
                let mut expansion: Vec<char> = Vec::new();
                let codepoints = &self.entities.entity(i).codepoints;
                let mut k: usize = 0;
                while k < codepoints.len()
                    invariant
                        k <= codepoints@.len(),
                        expansion@.len() == k,
                        forall|t: int|
                            0 <= t < k ==> #[trigger] expansion@[t] as u32 == expansion_value(codepoints@[t]),
                    decreases codepoints@.len() - k,
                {
                    match char_from_u32(codepoints[k]) {
                        Some(c) => expansion.push(c),
                        None => expansion.push('\u{FFFD}'),
                    }
                    k = k + 1;
                }
                let next = self.input.lookahead(klen);
                self.input.advance_by(klen);
                let followed_by_name_char = match next {
                    Some(b) => b == EQUALS_SIGN || is_alnum(b),
                    None => false,
                };
                let ghost t0 = self.temporary_buffer@;
                if self.in_attribute_value() && !ends_with_semicolon && followed_by_name_char {
                    self.temporary_buffer.append(&mut name);
                    assert(self.temporary_buffer@.subrange(0, t0.len() as int) =~= t0);
                } else {
                    if !ends_with_semicolon {
                        self.error(ParseError::MissingSemicolonAfterCharacterReference);
                    }
                    self.temporary_buffer.clear();
                    self.temporary_buffer.append(&mut expansion);
                }
                self.flush_code_points();
                self.state = self.return_state;
                assert(self.reference_text(old(self), i as int));
            },
            None => {
                self.flush_code_points();
                self.state = TokenizerState::AmbiguousAmpersand;
            },
        }
    }

    fn handle_ambiguous_ampersand_state(&mut self)
        requires
            old(self).ready(TokenizerState::AmbiguousAmpersand),
        ensures
            final(self).moved_on(old(self)),
            final(self).tokens@.len() >= old(self).tokens@.len(),
    {
        match self.input.current() {
            Some(SEMICOLON) => {
                self.error(ParseError::UnknownNamedCharacterReference);
                self.state = self.return_state;
            },
            Some(b) => {
                if is_alnum(b) {
                    self.input.advance();
                    if self.in_attribute_value() {
                        self.push_attr_value(b as char);
                    } else {
                        self.emit_char(b as char);
                    }
                } else {
                    self.state = self.return_state;
                }
            },
            None => {
                self.state = self.return_state;
            },
        }
    }

    fn handle_numeric_character_reference_state(&mut self)
        requires
            old(self).ready(TokenizerState::NumericCharacterReference),
        ensures
            final(self).moved_on(old(self)),
            final(self).tokens@.len() >= old(self).tokens@.len(),
    {
        self.char_ref_code = 0;
        match self.input.current() {
            Some(b) => {
                if b == LATIN_SMALL_X || b == LATIN_CAPITAL_X {
                    self.input.advance();
                    self.temporary_buffer.push(b as char);
                    self.state = TokenizerState::HexadecimalCharacterReferenceStart;
                } else {
                    self.state = TokenizerState::DecimalCharacterReferenceStart;
                }
            },
            None => {
                self.state = TokenizerState::DecimalCharacterReferenceStart;
            },
        }
    }

    fn handle_hexadecimal_character_reference_start_state(&mut self)
        requires
            old(self).ready(TokenizerState::HexadecimalCharacterReferenceStart),
        ensures
            final(self).moved_on(old(self)),
            final(self).tokens@.len() >= old(self).tokens@.len(),
    {
        let digit = match self.input.current() {
            Some(b) => is_hex_digit(b),
            None => false,
        };
        if digit {
            self.state = TokenizerState::HexadecimalCharacterReference;
        } else {
            self.error(ParseError::AbsenceOfDigitsInNumericCharacterReference);
            self.flush_code_points();
            self.state = self.return_state;
        }
    }

    fn handle_decimal_character_reference_start_state(&mut self)
        requires
            old(self).ready(TokenizerState::DecimalCharacterReferenceStart),
        ensures
            final(self).moved_on(old(self)),
            final(self).tokens@.len() >= old(self).tokens@.len(),
    {
        let digit = match self.input.current() {
            Some(b) => is_digit(b),
            None => false,
        };
        if digit {
            self.state = TokenizerState::DecimalCharacterReference;
        } else {
            self.error(ParseError::AbsenceOfDigitsInNumericCharacterReference);
            self.flush_code_points();
            self.state = self.return_state;
        }
    }

    fn handle_hexadecimal_character_reference_state(&mut self)
        requires
            old(self).ready(TokenizerState::HexadecimalCharacterReference),
        ensures
            final(self).moved_on(old(self)),
            final(self).tokens@.len() >= old(self).tokens@.len(),
    {
        match self.input.current() {
            Some(SEMICOLON) => {
                self.input.advance();
                self.state = TokenizerState::NumericCharacterReferenceEnd;
            },
            Some(b) => {
                if is_hex_digit(b) {
                    self.input.advance();
                    self.char_ref_code = accumulate_digit(self.char_ref_code, 16, hex_value(b));
                } else {
                    self.error(ParseError::MissingSemicolonAfterCharacterReference);
                    self.state = TokenizerState::NumericCharacterReferenceEnd;
                }
            },
            None => {
                self.error(ParseError::MissingSemicolonAfterCharacterReference);
                self.state = TokenizerState::NumericCharacterReferenceEnd;
            },
        }
    }

    fn handle_decimal_character_reference_state(&mut self)
        requires
            old(self).ready(TokenizerState::DecimalCharacterReference),
        ensures
            final(self).moved_on(old(self)),
            final(self).tokens@.len() >= old(self).tokens@.len(),
    {
        match self.input.current() {
            Some(SEMICOLON) => {
                self.input.advance();
                self.state = TokenizerState::NumericCharacterReferenceEnd;
            },
            Some(b) => {
                if is_digit(b) {
                    self.input.advance();
                    self.char_ref_code = accumulate_digit(self.char_ref_code, 10, (b - 0x30) as u32);
                } else {
                    self.error(ParseError::MissingSemicolonAfterCharacterReference);
                    self.state = TokenizerState::NumericCharacterReferenceEnd;
                }
            },
            None => {
                self.error(ParseError::MissingSemicolonAfterCharacterReference);
                self.state = TokenizerState::NumericCharacterReferenceEnd;
            },
        }
    }

    fn handle_numeric_character_reference_end_state(&mut self)
        requires
            old(self).ready(TokenizerState::NumericCharacterReferenceEnd),
        ensures
            final(self).moved_on(old(self)),
            final(self).tokens@.len() >= old(self).tokens@.len(),
    {
        let (c, err) = resolve_numeric_reference(self.char_ref_code);
        match err {
            Some(e) => self.error(e),
            None => {},
        }
        self.temporary_buffer.clear();
        self.temporary_buffer.push(c);
        self.flush_code_points();
        self.state = self.return_state;
    }

}

} // verus!
