//! The lexemes of Yul.

use vstd::prelude::*;

use crate::text::equals;

verus! {

/// The keywords.
#[derive(Debug, Clone, Copy, PartialEq, Eq, Hash, Structural)]
pub enum Keyword {
    Function,
    Let,
    If,
    Switch,
    Case,
    Default,
    For,
    Continue,
    Break,
    Leave,
    True,
    False,
    Object,
    Code,
    Data,
    Hex,
}

/// The punctuation.
#[derive(Debug, Clone, Copy, PartialEq, Eq, Hash, Structural)]
pub enum Symbol {
    /// `{`
    BracketCurlyLeft,
    /// `}`
    BracketCurlyRight,
    /// `(`
    ParenthesisLeft,
    /// `)`
    ParenthesisRight,
    /// `,`
    Comma,
    /// `:`
    Colon,
    /// `:=`
    Assignment,
    /// `->`
    Arrow,
}

/// The classes of literals.
#[derive(Debug, Clone, Copy, PartialEq, Eq, Hash, Structural)]
pub enum LiteralKind {
    /// A number in decimal digits.
    Decimal,
    /// A number in hexadecimal digits behind `0x`.
    Hexadecimal,
    /// A text between double quotes.
    String,
    /// `true` or `false`.
    Boolean,
}

/// A literal: its class and its text. The text of a number holds its digits,
/// with the `0x` of a hexadecimal one; that of a string, what stands
/// between the quotes.
#[derive(Debug, PartialEq, Eq)]
pub struct Literal {
    pub kind: LiteralKind,
    pub text: String,
}

/// The mathematical value of a [`Literal`].
pub ghost struct LiteralView {
    pub kind: LiteralKind,
    pub text: Seq<char>,
}

impl View for Literal {
    type V = LiteralView;

    open spec fn view(&self) -> LiteralView {
        LiteralView { kind: self.kind, text: self.text@ }
    }
}

impl Clone for Literal {
    fn clone(&self) -> (copy: Literal)
        ensures
            copy@ == self@,
    {
        Literal { kind: self.kind, text: self.text.clone() }
    }
}

/// A lexeme.
#[derive(Debug, PartialEq, Eq)]
pub enum Lexeme {
    Keyword(Keyword),
    Symbol(Symbol),
    Identifier(String),
    Literal(Literal),
    /// The end of the input.
    End,
}

/// The mathematical value of a [`Lexeme`].
pub ghost enum LexemeView {
    Keyword(Keyword),
    Symbol(Symbol),
    Identifier(Seq<char>),
    Literal(LiteralView),
    End,
}

impl View for Lexeme {
    type V = LexemeView;

    open spec fn view(&self) -> LexemeView {
        match self {
            Lexeme::Keyword(keyword) => LexemeView::Keyword(*keyword),
            Lexeme::Symbol(symbol) => LexemeView::Symbol(*symbol),
            Lexeme::Identifier(name) => LexemeView::Identifier(name@),
            Lexeme::Literal(literal) => LexemeView::Literal(literal@),
            Lexeme::End => LexemeView::End,
        }
    }
}

impl Clone for Lexeme {
    fn clone(&self) -> (copy: Lexeme)
        ensures
            copy@ == self@,
    {
        match self {
            Lexeme::Keyword(keyword) => Lexeme::Keyword(*keyword),
            Lexeme::Symbol(symbol) => Lexeme::Symbol(*symbol),
            Lexeme::Identifier(name) => Lexeme::Identifier(name.clone()),
            Lexeme::Literal(literal) => Lexeme::Literal(literal.clone()),
            Lexeme::End => Lexeme::End,
        }
    }
}

/// The view of an optional lexeme.
pub open spec fn optional_view(lexeme: Option<Lexeme>) -> Option<LexemeView> {
    match lexeme {
        Some(lexeme) => Some(lexeme@),
        None => None,
    }
}

/// The lexeme that a word is: a keyword, a boolean literal, or else an
/// identifier.
pub open spec fn word(text: Seq<char>) -> LexemeView {
    if text == "function"@ {
        LexemeView::Keyword(Keyword::Function)
    } else if text == "let"@ {
        LexemeView::Keyword(Keyword::Let)
    } else if text == "if"@ {
        LexemeView::Keyword(Keyword::If)
    } else if text == "switch"@ {
        LexemeView::Keyword(Keyword::Switch)
    } else if text == "case"@ {
        LexemeView::Keyword(Keyword::Case)
    } else if text == "default"@ {
        LexemeView::Keyword(Keyword::Default)
    } else if text == "for"@ {
        LexemeView::Keyword(Keyword::For)
    } else if text == "continue"@ {
        LexemeView::Keyword(Keyword::Continue)
    } else if text == "break"@ {
        LexemeView::Keyword(Keyword::Break)
    } else if text == "leave"@ {
        LexemeView::Keyword(Keyword::Leave)
    } else if text == "true"@ || text == "false"@ {
        LexemeView::Literal(LiteralView { kind: LiteralKind::Boolean, text })
    } else if text == "object"@ {
        LexemeView::Keyword(Keyword::Object)
    } else if text == "code"@ {
        LexemeView::Keyword(Keyword::Code)
    } else if text == "data"@ {
        LexemeView::Keyword(Keyword::Data)
    } else if text == "hex"@ {
        LexemeView::Keyword(Keyword::Hex)
    } else {
        LexemeView::Identifier(text)
    }
}

/// The lexeme that a word is.
pub fn lexeme_of_word(text: String) -> (lexeme: Lexeme)
    ensures
        lexeme@ == word(text@),
{
    if equals(&text, "function") {
        Lexeme::Keyword(Keyword::Function)
    } else if equals(&text, "let") {
        Lexeme::Keyword(Keyword::Let)
    } else if equals(&text, "if") {
        Lexeme::Keyword(Keyword::If)
    } else if equals(&text, "switch") {
        Lexeme::Keyword(Keyword::Switch)
    } else if equals(&text, "case") {
        Lexeme::Keyword(Keyword::Case)
    } else if equals(&text, "default") {
        Lexeme::Keyword(Keyword::Default)
    } else if equals(&text, "for") {
        Lexeme::Keyword(Keyword::For)
    } else if equals(&text, "continue") {
        Lexeme::Keyword(Keyword::Continue)
    } else if equals(&text, "break") {
        Lexeme::Keyword(Keyword::Break)
    } else if equals(&text, "leave") {
        Lexeme::Keyword(Keyword::Leave)
    } else if equals(&text, "true") || equals(&text, "false") {
        Lexeme::Literal(Literal { kind: LiteralKind::Boolean, text })
    } else if equals(&text, "object") {
        Lexeme::Keyword(Keyword::Object)
    } else if equals(&text, "code") {
        Lexeme::Keyword(Keyword::Code)
    } else if equals(&text, "data") {
        Lexeme::Keyword(Keyword::Data)
    } else if equals(&text, "hex") {
        Lexeme::Keyword(Keyword::Hex)
    } else {
        Lexeme::Identifier(text)
    }
}

} // verus!
