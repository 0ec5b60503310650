//! Lexical HTML tokens and their mathematical model.

use vstd::prelude::*;

verus! {

/// Model of one attribute of a start tag.
pub struct AttributeModel {
    pub name: Seq<char>,
    pub value: Seq<char>,
}

/// One `name="value"` attribute of a start tag.
#[derive(Debug, Clone)]
pub struct Attribute {
    pub name: String,
    pub value: String,
}

impl View for Attribute {
    type V = AttributeModel;

    open spec fn view(&self) -> AttributeModel {
        AttributeModel { name: self.name@, value: self.value@ }
    }
}

impl Attribute {
    /// Builds an attribute from its name and value.
    pub fn new(name: &str, value: &str) -> (a: Attribute)
        ensures
            a@.name == name@,
            a@.value == value@,
    {
        Attribute { name: name.to_owned(), value: value.to_owned() }
    }
}

/// Model of a token: what the extractors read of it.
pub enum TokenModel {
    TagOpen { name: Seq<char>, attributes: Seq<AttributeModel> },
    TagClose { name: Seq<char> },
    Text { content: Seq<char> },
    EndOfInput,
}

/// A lexical token of an HTML document, delivered in document order.
#[derive(Debug, Clone)]
pub enum Token {
    TagOpen { name: String, attributes: Vec<Attribute> },
    TagClose { name: String },
    Text { content: String },
    EndOfInput,
}

/// The models of a sequence of attributes, in order.
pub open spec fn attribute_models(attrs: Seq<Attribute>) -> Seq<AttributeModel> {
    Seq::new(attrs.len(), |i: int| attrs[i]@)
}

/// The models of a sequence of tokens, in order.
pub open spec fn token_models(tokens: Seq<Token>) -> Seq<TokenModel> {
    Seq::new(tokens.len(), |i: int| tokens[i]@)
}

impl View for Token {
    type V = TokenModel;

    open spec fn view(&self) -> TokenModel {
        match *self {
            Token::TagOpen { name, attributes } => TokenModel::TagOpen {
                name: name@,
                attributes: attribute_models(attributes@),
            },
            Token::TagClose { name } => TokenModel::TagClose { name: name@ },
            Token::Text { content } => TokenModel::Text { content: content@ },
            Token::EndOfInput => TokenModel::EndOfInput,
        }
    }
}

impl Token {
    /// A start tag with its attributes, in document order.
    pub fn open(name: &str, attributes: Vec<Attribute>) -> (t: Token)
        ensures
            t@ == (TokenModel::TagOpen {
                name: name@,
                attributes: attribute_models(attributes@),
            }),
    {
        Token::TagOpen { name: name.to_owned(), attributes }
    }

    /// An end tag.
    pub fn close(name: &str) -> (t: Token)
        ensures
            t@ == (TokenModel::TagClose { name: name@ }),
    {
        Token::TagClose { name: name.to_owned() }
    }

    /// A run of text.
    pub fn text(content: &str) -> (t: Token)
        ensures
            t@ == (TokenModel::Text { content: content@ }),
    {
        Token::Text { content: content.to_owned() }
    }
}

/// Whether the attribute `a` has exactly this name and this value.
pub open spec fn is_attribute(a: AttributeModel, name: Seq<char>, value: Seq<char>) -> bool {
    a.name == name && a.value == value
}

/// Whether some attribute of `attrs` has exactly this name and this value.
pub open spec fn has_attribute(attrs: Seq<AttributeModel>, name: Seq<char>, value: Seq<char>) -> bool {
    exists|i: int| 0 <= i < attrs.len() && is_attribute(#[trigger] attrs[i], name, value)
}

/// Equality of two string slices, character by character.
///
/// Calls `==` of `str`; the contract claims that it holds exactly when both
/// slices hold the same characters in the same order.
#[verifier::external_body]
pub(crate) fn same_text(a: &str, b: &str) -> (r: bool)
    ensures
        r == (a@ == b@),
{
    a == b
}

/// Tells whether some attribute of `attrs` has this name and this value.
pub fn find_attribute(attrs: &Vec<Attribute>, name: &str, value: &str) -> (found: bool)
    ensures
        found == has_attribute(attribute_models(attrs@), name@, value@),
{
    let mut i: usize = 0;
    while i < attrs.len()
        invariant
            i <= attrs.len(),
            forall|j: int| 0 <= j < i ==> !is_attribute(#[trigger] attrs@[j]@, name@, value@),
        decreases attrs.len() - i,
    {
        if same_text(attrs[i].name.as_str(), name) && same_text(attrs[i].value.as_str(), value) {
            assert(is_attribute(attribute_models(attrs@)[i as int], name@, value@));
            return true;
        }
        i += 1;
    }
    assert forall|j: int| 0 <= j < attribute_models(attrs@).len() implies !is_attribute(
        #[trigger] attribute_models(attrs@)[j],
        name@,
        value@,
    ) by {
        assert(attribute_models(attrs@)[j] == attrs@[j]@);
    }
    false
}

} // verus!
