//! The intermediate representation: one token per byte of the image.

use vstd::prelude::*;

verus! {

/// What a token puts into the image.
#[derive(Debug, Clone, PartialEq)]
pub enum TokenValue<'a> {
    /// A byte that is emitted as it stands.
    Constant(u8),
    /// The address of the token that declares this label.
    Label(&'a str),
}

/// One byte of the program. Its address is its index in the program; `label`,
/// when present, names that address.
#[derive(Debug, Clone, PartialEq)]
pub struct Token<'a> {
    pub value: TokenValue<'a>,
    pub label: Option<&'a str>,
}

/// The mathematical value of a [`TokenValue`].
pub enum ValueView {
    Constant(u8),
    Label(Seq<char>),
}

/// The mathematical value of a [`Token`].
pub struct TokenView {
    pub value: ValueView,
    pub label: Option<Seq<char>>,
}

impl<'a> View for TokenValue<'a> {
    type V = ValueView;

    open spec fn view(&self) -> ValueView {
        match *self {
            TokenValue::Constant(byte) => ValueView::Constant(byte),
            TokenValue::Label(name) => ValueView::Label(name@),
        }
    }
}

impl<'a> DeepView for TokenValue<'a> {
    type V = ValueView;

    open spec fn deep_view(&self) -> ValueView {
        self@
    }
}

impl<'a> View for Token<'a> {
    type V = TokenView;

    open spec fn view(&self) -> TokenView {
        TokenView {
            value: self.value@,
            label: match self.label {
                Some(name) => Some(name@),
                None => None,
            },
        }
    }
}

impl<'a> DeepView for Token<'a> {
    type V = TokenView;

    open spec fn deep_view(&self) -> TokenView {
        self@
    }
}

impl TokenView {
    /// An unlabelled token that emits `byte`.
    pub open spec fn constant(byte: u8) -> TokenView {
        TokenView { value: ValueView::Constant(byte), label: None }
    }
}

impl<'a> Token<'a> {
    /// An unlabelled token that emits `constant`.
    pub fn from_const(constant: u8) -> (token: Self)
        ensures
            token@ == TokenView::constant(constant),
    {
        Self { value: TokenValue::Constant(constant), label: None }
    }

    /// An unlabelled token that emits the address of `label`.
    pub fn from_label(label: &'a str) -> (token: Self)
        ensures
            token@ == (TokenView { value: ValueView::Label(label@), label: None }),
    {
        Self { value: TokenValue::Label(label), label: None }
    }

    /// An unlabelled token that emits `value`.
    pub fn empty_label(value: TokenValue<'a>) -> (token: Self)
        ensures
            token@ == (TokenView { value: value@, label: None }),
    {
        Self { value, label: None }
    }
}

} // verus!
