use vstd::prelude::*;
use crate::text::no_upper;

verus! {

/// One output item of the tokenizer.
#[allow(inconsistent_fields)]
#[derive(Debug, Clone, PartialEq, Eq)]
pub enum Token {
    Doctype {
        name: Option<String>,
        public_id: Option<String>,
        system_id: Option<String>,
        force_quirks: bool,
    },
    StartTag { name: String, self_closing: bool, attributes: Vec<(String, String)> },
    EndTag { name: String, self_closing: bool, attributes: Vec<(String, String)> },
    Comment { data: String },
    Character { data: char },
    EndOfFile,
}

/// The attribute names of a list are pairwise distinct.
pub open spec fn names_distinct(attrs: Seq<(String, String)>) -> bool {
    forall|i: int, j: int|
        0 <= i < attrs.len() && 0 <= j < attrs.len() && i != j ==> #[trigger] attrs[i].0@
            != #[trigger] attrs[j].0@
}

/// Distinct names with no upper-case ASCII letter in any of them.
#[verifier::opaque]
pub open spec fn attrs_ok(attrs: Seq<(String, String)>) -> bool {
    &&& names_distinct(attrs)
    &&& forall|i: int| 0 <= i < attrs.len() ==> no_upper(#[trigger] attrs[i].0@)
}

/// The name of a list holds `name`.
pub open spec fn has_attr(attrs: Seq<(String, String)>, name: Seq<char>) -> bool {
    exists|i: int| 0 <= i < attrs.len() && #[trigger] attrs[i].0@ == name
}

/// A tag token has a lower-case name and a well-formed attribute list; any
/// other token is fine as it is.
pub open spec fn token_ok(t: Token) -> bool {
    match t {
        Token::StartTag { name, attributes, .. } => no_upper(name@) && attrs_ok(attributes@),
        Token::EndTag { name, attributes, .. } => no_upper(name@) && attrs_ok(attributes@),
        _ => true,
    }
}

/// The attribute list of a tag token, empty for other tokens.
pub open spec fn attrs_of(t: Token) -> Seq<(String, String)> {
    match t {
        Token::StartTag { attributes, .. } => attributes@,
        Token::EndTag { attributes, .. } => attributes@,
        _ => Seq::empty(),
    }
}

/// Two tokens are the same kind of tag with the same name and flag.
pub open spec fn same_tag_head(a: Token, b: Token) -> bool {
    match (a, b) {
        (Token::StartTag { name: n1, self_closing: s1, .. }, Token::StartTag { name: n2, self_closing: s2, .. }) => n1
            == n2 && s1 == s2,
        (Token::EndTag { name: n1, self_closing: s1, .. }, Token::EndTag { name: n2, self_closing: s2, .. }) => n1
            == n2 && s1 == s2,
        _ => false,
    }
}

/// Whether `attrs` holds an attribute named `name`.
pub fn find_attribute(attrs: &Vec<(String, String)>, name: &String) -> (r: bool)
    ensures
        r == has_attr(attrs@, name@),
{
    let mut i: usize = 0;
    while i < attrs.len()
        invariant
            i <= attrs@.len(),
            forall|j: int| 0 <= j < i ==> attrs@[j].0@ != name@,
        decreases attrs@.len() - i,
    {
        if attrs[i].0 == *name {
            return true;
        }
        i = i + 1;
    }
    false
}

impl Token {
    /// Whether this is a tag token with an attribute called `name`.
    pub fn attribute_exists(&self, name: &str) -> (r: bool)
        ensures
            r == ((self is StartTag || self is EndTag) && has_attr(attrs_of(*self), name@)),
    {
        let key: String = name.to_owned();
        match self {
            Token::StartTag { attributes, .. } => find_attribute(attributes, &key),
            Token::EndTag { attributes, .. } => find_attribute(attributes, &key),
            _ => false,
        }
    }

    /// Appends `(name, value)` to a tag token's attributes unless the name is
    /// already there; other tokens are left as they are.
    pub fn add_attribute(&mut self, name: String, value: String)
        ensures
            (*old(self) is StartTag || *old(self) is EndTag) && !has_attr(attrs_of(*old(self)), name@)
                ==> attrs_of(*final(self)) == attrs_of(*old(self)).push((name, value))
                && same_tag_head(*final(self), *old(self)),
            !((*old(self) is StartTag || *old(self) is EndTag) && !has_attr(attrs_of(*old(self)), name@))
                ==> *final(self) == *old(self),
            *final(self) is StartTag <==> *old(self) is StartTag,
            *final(self) is EndTag <==> *old(self) is EndTag,
    {
        match self {
            Token::StartTag { attributes, .. } => {
                if !find_attribute(attributes, &name) {
                    attributes.push((name, value));
                }
            },
            Token::EndTag { attributes, .. } => {
                if !find_attribute(attributes, &name) {
                    attributes.push((name, value));
                }
            },
            _ => {},
        }
    }

    /// Sets the self-closing flag of a tag token; other tokens are left as
    /// they are.
    pub fn set_self_closing_flag(&mut self, flag: bool)
        ensures
            *old(self) matches Token::StartTag { name, attributes, .. } ==> *final(self) == (Token::StartTag { name, self_closing: flag, attributes }),
            *old(self) matches Token::EndTag { name, attributes, .. } ==> *final(self) == (Token::EndTag { name, self_closing: flag, attributes }),
            !(*old(self) is StartTag || *old(self) is EndTag) ==> *final(self) == *old(self),
    {
        match self {
            Token::StartTag { self_closing, .. } => {
                *self_closing = flag;
            },
            Token::EndTag { self_closing, .. } => {
                *self_closing = flag;
            },
            _ => {},
        }
    }
}

} // verus!
