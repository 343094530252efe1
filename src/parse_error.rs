use vstd::prelude::*;

verus! {

/// A non-fatal diagnostic raised while tokenizing. Tokenization goes on
/// after each one.
#[derive(Debug, PartialEq, Eq, Clone, Copy, Structural)]
pub enum ParseError {
    AbruptClosingOfEmptyComment,
    AbruptDoctypePublicIdentifier,
    AbruptDoctypeSystemIdentifier,
    AbsenceOfDigitsInNumericCharacterReference,
    CdataInHtmlContent,
    CharacterReferenceOutsideUnicodeRange,
    ControlCharacterReference,
    DuplicateAttribute,
    EndTagWithAttributes,
    EndTagWithTrailingSolidus,
    EofBeforeTagName,
    EofInCdata,
    EofInComment,
    EofInDoctype,
    EofInScriptHtmlCommentLikeText,
    EofInTag,
    IncorrectlyClosedComment,
    IncorrectlyOpenedComment,
    InvalidCharacterSequenceAfterDoctypeName,
    InvalidFirstCharacterOfTagName,
    MissingAttributeValue,
    MissingDoctypeName,
    MissingDoctypePublicIdentifier,
    MissingDoctypeSystemIdentifier,
    MissingEndTagName,
    MissingQuoteBeforeDoctypePublicIdentifier,
    MissingQuoteBeforeDoctypeSystemIdentifier,
    MissingSemicolonAfterCharacterReference,
    MissingWhitespaceAfterDoctypePublicKeyword,
    MissingWhitespaceAfterDoctypeSystemKeyword,
    MissingWhitespaceBeforeDoctypeName,
    MissingWhitespaceBetweenAttributes,
    MissingWhitespaceBetweenDoctypePublicAndSystemIdentifiers,
    NestedComment,
    NoncharacterCharacterReference,
    NonVoidHtmlElementStartTagWithTrailingSolidus,
    NullCharacterReference,
    SurrogateCharacterReference,
    UnexpectedCharacterAfterDoctypeSystemIdentifier,
    UnexpectedCharacterInAttributeName,
    UnexpectedCharacterInUnquotedAttributeValue,
    UnexpectedEqualsSignBeforeAttributeName,
    UnexpectedNullCharacter,
    UnexpectedQuestionMarkInsteadOfTagName,
    UnexpectedSolidusInTag,
    UnknownNamedCharacterReference,
}

/// The kebab-case identifier of each error.
pub open spec fn code_name(e: ParseError) -> Seq<char> {
    match e {
        ParseError::AbruptClosingOfEmptyComment => "abrupt-closing-of-empty-comment"@,
        ParseError::AbruptDoctypePublicIdentifier => "abrupt-doctype-public-identifier"@,
        ParseError::AbruptDoctypeSystemIdentifier => "abrupt-doctype-system-identifier"@,
        ParseError::AbsenceOfDigitsInNumericCharacterReference => "absence-of-digits-in-numeric-character-reference"@,
        ParseError::CdataInHtmlContent => "cdata-in-html-content"@,
        ParseError::CharacterReferenceOutsideUnicodeRange => "character-reference-outside-unicode-range"@,
        ParseError::ControlCharacterReference => "control-character-reference"@,
        ParseError::DuplicateAttribute => "duplicate-attribute"@,
        ParseError::EndTagWithAttributes => "end-tag-with-attributes"@,
        ParseError::EndTagWithTrailingSolidus => "end-tag-with-trailing-solidus"@,
        ParseError::EofBeforeTagName => "eof-before-tag-name"@,
        ParseError::EofInCdata => "eof-in-cdata"@,
        ParseError::EofInComment => "eof-in-comment"@,
        ParseError::EofInDoctype => "eof-in-doctype"@,
        ParseError::EofInScriptHtmlCommentLikeText => "eof-in-script-html-comment-like-text"@,
        ParseError::EofInTag => "eof-in-tag"@,
        ParseError::IncorrectlyClosedComment => "incorrectly-closed-comment"@,
        ParseError::IncorrectlyOpenedComment => "incorrectly-opened-comment"@,
        ParseError::InvalidCharacterSequenceAfterDoctypeName => "invalid-character-sequence-after-doctype-name"@,
        ParseError::InvalidFirstCharacterOfTagName => "invalid-first-character-of-tag-name"@,
        ParseError::MissingAttributeValue => "missing-attribute-value"@,
        ParseError::MissingDoctypeName => "missing-doctype-name"@,
        ParseError::MissingDoctypePublicIdentifier => "missing-doctype-public-identifier"@,
        ParseError::MissingDoctypeSystemIdentifier => "missing-doctype-system-identifier"@,
        ParseError::MissingEndTagName => "missing-end-tag-name"@,
        ParseError::MissingQuoteBeforeDoctypePublicIdentifier => "missing-quote-before-doctype-public-identifier"@,
        ParseError::MissingQuoteBeforeDoctypeSystemIdentifier => "missing-quote-before-doctype-system-identifier"@,
        ParseError::MissingSemicolonAfterCharacterReference => "missing-semicolon-after-character-reference"@,
        ParseError::MissingWhitespaceAfterDoctypePublicKeyword => "missing-whitespace-after-doctype-public-keyword"@,
        ParseError::MissingWhitespaceAfterDoctypeSystemKeyword => "missing-whitespace-after-doctype-system-keyword"@,
        ParseError::MissingWhitespaceBeforeDoctypeName => "missing-whitespace-before-doctype-name"@,
        ParseError::MissingWhitespaceBetweenAttributes => "missing-whitespace-between-attributes"@,
        ParseError::MissingWhitespaceBetweenDoctypePublicAndSystemIdentifiers => "missing-whitespace-between-doctype-public-and-system-identifiers"@,
        ParseError::NestedComment => "nested-comment"@,
        ParseError::NoncharacterCharacterReference => "noncharacter-character-reference"@,
        ParseError::NonVoidHtmlElementStartTagWithTrailingSolidus => "non-void-html-element-start-tag-with-trailing-solidus"@,
        ParseError::NullCharacterReference => "null-character-reference"@,
        ParseError::SurrogateCharacterReference => "surrogate-character-reference"@,
        ParseError::UnexpectedCharacterAfterDoctypeSystemIdentifier => "unexpected-character-after-doctype-system-identifier"@,
        ParseError::UnexpectedCharacterInAttributeName => "unexpected-character-in-attribute-name"@,
        ParseError::UnexpectedCharacterInUnquotedAttributeValue => "unexpected-character-in-unquoted-attribute-value"@,
        ParseError::UnexpectedEqualsSignBeforeAttributeName => "unexpected-equals-sign-before-attribute-name"@,
        ParseError::UnexpectedNullCharacter => "unexpected-null-character"@,
        ParseError::UnexpectedQuestionMarkInsteadOfTagName => "unexpected-question-mark-instead-of-tag-name"@,
        ParseError::UnexpectedSolidusInTag => "unexpected-solidus-in-tag"@,
        ParseError::UnknownNamedCharacterReference => "unknown-named-character-reference"@,
    }
}

impl ParseError {
    /// The error's identifier in kebab case, as the HTML Standard names it.
    pub fn code(&self) -> (r: &'static str)
        ensures
            r@ == code_name(*self),
    {
        match self {
            ParseError::AbruptClosingOfEmptyComment => "abrupt-closing-of-empty-comment",
            ParseError::AbruptDoctypePublicIdentifier => "abrupt-doctype-public-identifier",
            ParseError::AbruptDoctypeSystemIdentifier => "abrupt-doctype-system-identifier",
            ParseError::AbsenceOfDigitsInNumericCharacterReference => "absence-of-digits-in-numeric-character-reference",
            ParseError::CdataInHtmlContent => "cdata-in-html-content",
            ParseError::CharacterReferenceOutsideUnicodeRange => "character-reference-outside-unicode-range",
            ParseError::ControlCharacterReference => "control-character-reference",
            ParseError::DuplicateAttribute => "duplicate-attribute",
            ParseError::EndTagWithAttributes => "end-tag-with-attributes",
            ParseError::EndTagWithTrailingSolidus => "end-tag-with-trailing-solidus",
            ParseError::EofBeforeTagName => "eof-before-tag-name",
            ParseError::EofInCdata => "eof-in-cdata",
            ParseError::EofInComment => "eof-in-comment",
            ParseError::EofInDoctype => "eof-in-doctype",
            ParseError::EofInScriptHtmlCommentLikeText => "eof-in-script-html-comment-like-text",
            ParseError::EofInTag => "eof-in-tag",
            ParseError::IncorrectlyClosedComment => "incorrectly-closed-comment",
            ParseError::IncorrectlyOpenedComment => "incorrectly-opened-comment",
            ParseError::InvalidCharacterSequenceAfterDoctypeName => "invalid-character-sequence-after-doctype-name",
            ParseError::InvalidFirstCharacterOfTagName => "invalid-first-character-of-tag-name",
            ParseError::MissingAttributeValue => "missing-attribute-value",
            ParseError::MissingDoctypeName => "missing-doctype-name",
            ParseError::MissingDoctypePublicIdentifier => "missing-doctype-public-identifier",
            ParseError::MissingDoctypeSystemIdentifier => "missing-doctype-system-identifier",
            ParseError::MissingEndTagName => "missing-end-tag-name",
            ParseError::MissingQuoteBeforeDoctypePublicIdentifier => "missing-quote-before-doctype-public-identifier",
            ParseError::MissingQuoteBeforeDoctypeSystemIdentifier => "missing-quote-before-doctype-system-identifier",
            ParseError::MissingSemicolonAfterCharacterReference => "missing-semicolon-after-character-reference",
            ParseError::MissingWhitespaceAfterDoctypePublicKeyword => "missing-whitespace-after-doctype-public-keyword",
            ParseError::MissingWhitespaceAfterDoctypeSystemKeyword => "missing-whitespace-after-doctype-system-keyword",
            ParseError::MissingWhitespaceBeforeDoctypeName => "missing-whitespace-before-doctype-name",
            ParseError::MissingWhitespaceBetweenAttributes => "missing-whitespace-between-attributes",
            ParseError::MissingWhitespaceBetweenDoctypePublicAndSystemIdentifiers => "missing-whitespace-between-doctype-public-and-system-identifiers",
            ParseError::NestedComment => "nested-comment",
            ParseError::NoncharacterCharacterReference => "noncharacter-character-reference",
            ParseError::NonVoidHtmlElementStartTagWithTrailingSolidus => "non-void-html-element-start-tag-with-trailing-solidus",
            ParseError::NullCharacterReference => "null-character-reference",
            ParseError::SurrogateCharacterReference => "surrogate-character-reference",
            ParseError::UnexpectedCharacterAfterDoctypeSystemIdentifier => "unexpected-character-after-doctype-system-identifier",
            ParseError::UnexpectedCharacterInAttributeName => "unexpected-character-in-attribute-name",
            ParseError::UnexpectedCharacterInUnquotedAttributeValue => "unexpected-character-in-unquoted-attribute-value",
            ParseError::UnexpectedEqualsSignBeforeAttributeName => "unexpected-equals-sign-before-attribute-name",
            ParseError::UnexpectedNullCharacter => "unexpected-null-character",
            ParseError::UnexpectedQuestionMarkInsteadOfTagName => "unexpected-question-mark-instead-of-tag-name",
            ParseError::UnexpectedSolidusInTag => "unexpected-solidus-in-tag",
            ParseError::UnknownNamedCharacterReference => "unknown-named-character-reference",
        }
    }
}

} // verus!
