//! The lexer of Yul: lexemes on demand, with one lexeme of lookahead.

pub mod lexeme;

use vstd::prelude::*;

use crate::text::chars_of;
use crate::text::is_digit;
use crate::text::string_of;
use crate::yul::error::Error;
use crate::yul::error::ErrorView;
use crate::yul::lexer::lexeme::lexeme_of_word;
use crate::yul::lexer::lexeme::word;
use crate::yul::lexer::lexeme::Lexeme;
use crate::yul::lexer::lexeme::LexemeView;
use crate::yul::lexer::lexeme::Literal;
use crate::yul::lexer::lexeme::LiteralKind;
use crate::yul::lexer::lexeme::LiteralView;
use crate::yul::lexer::lexeme::Symbol;

verus! {

/// Whether the character parts lexemes without being one.
pub open spec fn is_space(c: char) -> bool {
    c == ' ' || c == '\t' || c == '\n' || c == '\r'
}

/// Whether an identifier can start with the character.
pub open spec fn is_identifier_start(c: char) -> bool {
    ('a' <= c <= 'z') || ('A' <= c <= 'Z') || c == '_' || c == '$'
}

/// Whether an identifier can go on with the character.
pub open spec fn is_identifier_part(c: char) -> bool {
    is_identifier_start(c) || is_digit(c) || c == '.'
}

/// Whether the character is a hexadecimal digit.
pub open spec fn is_hex_digit(c: char) -> bool {
    is_digit(c) || ('a' <= c <= 'f') || ('A' <= c <= 'F')
}

/// The kinds of characters that a lexeme is made of.
#[derive(Debug, Clone, Copy, PartialEq, Eq, Structural)]
pub enum Class {
    /// What an identifier goes on with.
    IdentifierPart,
    /// A decimal digit.
    Digit,
    /// A hexadecimal digit.
    HexDigit,
    /// Anything but a double quote.
    InString,
    /// Anything but a line feed.
    InLine,
}

/// Whether the character is of the class.
pub open spec fn accepts(class: Class, c: char) -> bool {
    match class {
        Class::IdentifierPart => is_identifier_part(c),
        Class::Digit => is_digit(c),
        Class::HexDigit => is_hex_digit(c),
        Class::InString => c != '"',
        Class::InLine => c != '\n',
    }
}

/// Where the run of characters of the class that starts at `from` ends: the
/// offset of the first character that is not of the class, or the length of
/// the input.
pub open spec fn run_end(input: Seq<char>, from: int, class: Class) -> int
    decreases input.len() - from,
{
    if 0 <= from < input.len() && accepts(class, input[from]) {
        run_end(input, from + 1, class)
    } else {
        from
    }
}

/// The offset behind the first `*/` at or after `from`, if there is one.
pub open spec fn comment_end(input: Seq<char>, from: int) -> Option<int>
    decreases input.len() - from,
{
    if from < 0 || from + 1 >= input.len() {
        None
    } else if input[from] == '*' && input[from + 1] == '/' {
        Some(from + 2)
    } else {
        comment_end(input, from + 1)
    }
}

/// The offset of the first character at or after `from` that is neither
/// space nor part of a comment, or the length of the input. A comment runs
/// from `//` to the end of the line, or from `/*` to `*/`; one of the
/// second form that is not closed is an error.
pub open spec fn skip(input: Seq<char>, from: int) -> Result<int, ErrorView>
    decreases input.len() - from,
{
    if from < 0 || from >= input.len() {
        Ok(from)
    } else if is_space(input[from]) {
        skip(input, from + 1)
    } else if input[from] == '/' && from + 1 < input.len() && input[from + 1] == '/' {
        proof {
            lemma_run_end_bounds(input, from + 2, Class::InLine);
        }
        skip(input, run_end(input, from + 2, Class::InLine))
    } else if input[from] == '/' && from + 1 < input.len() && input[from + 1] == '*' {
        match comment_end(input, from + 2) {
            Some(end) => {
                proof {
                    lemma_comment_end_bounds(input, from + 2);
                }
                skip(input, end)
            },
            None => Err(ErrorView::Lexical { offset: from as usize }),
        }
    } else {
        Ok(from)
    }
}

/// The lexeme that starts at `start`, and the offset behind it.
pub open spec fn lexeme_at(input: Seq<char>, start: int) -> Result<(LexemeView, int), ErrorView>
    recommends
        0 <= start < input.len(),
{
    let c = input[start];
    if is_identifier_start(c) {
        let end = run_end(input, start + 1, Class::IdentifierPart);
        Ok((word(input.subrange(start, end)), end))
    } else if c == '0' && start + 2 < input.len() && input[start + 1] == 'x' && is_hex_digit(
        input[start + 2],
    ) {
        let end = run_end(input, start + 2, Class::HexDigit);
        Ok(
            (
                LexemeView::Literal(
                    LiteralView { kind: LiteralKind::Hexadecimal, text: input.subrange(start, end) },
                ),
                end,
            ),
        )
    } else if is_digit(c) {
        let end = run_end(input, start + 1, Class::Digit);
        Ok(
            (
                LexemeView::Literal(
                    LiteralView { kind: LiteralKind::Decimal, text: input.subrange(start, end) },
                ),
                end,
            ),
        )
    } else if c == '"' {
        let close = run_end(input, start + 1, Class::InString);
        if close < input.len() {
            Ok(
                (
                    LexemeView::Literal(
                        LiteralView {
                            kind: LiteralKind::String,
                            text: input.subrange(start + 1, close),
                        },
                    ),
                    close + 1,
                ),
            )
        } else {
            Err(ErrorView::Lexical { offset: start as usize })
        }
    } else if c == '{' {
        Ok((LexemeView::Symbol(Symbol::BracketCurlyLeft), start + 1))
    } else if c == '}' {
        Ok((LexemeView::Symbol(Symbol::BracketCurlyRight), start + 1))
    } else if c == '(' {
        Ok((LexemeView::Symbol(Symbol::ParenthesisLeft), start + 1))
    } else if c == ')' {
        Ok((LexemeView::Symbol(Symbol::ParenthesisRight), start + 1))
    } else if c == ',' {
        Ok((LexemeView::Symbol(Symbol::Comma), start + 1))
    } else if c == ':' {
        if start + 1 < input.len() && input[start + 1] == '=' {
            Ok((LexemeView::Symbol(Symbol::Assignment), start + 2))
        } else {
            Ok((LexemeView::Symbol(Symbol::Colon), start + 1))
        }
    } else if c == '-' && start + 1 < input.len() && input[start + 1] == '>' {
        Ok((LexemeView::Symbol(Symbol::Arrow), start + 2))
    } else {
        Err(ErrorView::Lexical { offset: start as usize })
    }
}

/// The next lexeme at or after `offset`, and the offset behind it. At the
/// end of the input the lexeme is `End`.
pub open spec fn scan(input: Seq<char>, offset: int) -> Result<(LexemeView, int), ErrorView> {
    match skip(input, offset) {
        Err(error) => Err(error),
        Ok(start) => if start >= input.len() {
            Ok((LexemeView::End, start))
        } else {
            lexeme_at(input, start)
        },
    }
}

/// A run ends between its start and the end of the input.
pub proof fn lemma_run_end_bounds(input: Seq<char>, from: int, class: Class)
    requires
        0 <= from <= input.len(),
    ensures
        from <= run_end(input, from, class) <= input.len(),
    decreases input.len() - from,
{
    if from < input.len() && accepts(class, input[from]) {
        lemma_run_end_bounds(input, from + 1, class);
    }
}

/// A comment ends behind its start, within the input.
pub proof fn lemma_comment_end_bounds(input: Seq<char>, from: int)
    requires
        0 <= from,
    ensures
        comment_end(input, from) matches Some(end) ==> from + 2 <= end <= input.len(),
    decreases input.len() - from,
{
    if from + 1 < input.len() && !(input[from] == '*' && input[from + 1] == '/') {
        lemma_comment_end_bounds(input, from + 1);
    }
}

/// Skipping ends between its start and the end of the input.
pub proof fn lemma_skip_bounds(input: Seq<char>, from: int)
    requires
        0 <= from <= input.len(),
    ensures
        skip(input, from) matches Ok(start) ==> from <= start <= input.len(),
    decreases input.len() - from,
{
    if from < input.len() {
        if is_space(input[from]) {
            lemma_skip_bounds(input, from + 1);
        } else if input[from] == '/' && from + 1 < input.len() && input[from + 1] == '/' {
            lemma_run_end_bounds(input, from + 2, Class::InLine);
            lemma_skip_bounds(input, run_end(input, from + 2, Class::InLine));
        } else if input[from] == '/' && from + 1 < input.len() && input[from + 1] == '*' {
            lemma_comment_end_bounds(input, from + 2);
            match comment_end(input, from + 2) {
                Some(end) => {
                    lemma_skip_bounds(input, end);
                },
                None => {},
            }
        }
    }
}

/// A lexeme ends within the input, and behind where the scan for it started
/// unless it is `End`, which stands at the end of the input.
pub proof fn lemma_scan_advances(input: Seq<char>, offset: int)
    requires
        0 <= offset <= input.len(),
    ensures
        scan(input, offset) matches Ok((lexeme, end)) ==> offset <= end <= input.len() && (lexeme
            is End ==> end == input.len()) && (!(lexeme is End) ==> offset < end),
{
    lemma_skip_bounds(input, offset);
    match skip(input, offset) {
        Ok(start) => {
            if start < input.len() {
                lemma_run_end_bounds(input, start + 1, Class::IdentifierPart);
                lemma_run_end_bounds(input, start + 1, Class::Digit);
                lemma_run_end_bounds(input, start + 1, Class::InString);
                if start + 2 <= input.len() {
                    lemma_run_end_bounds(input, start + 2, Class::HexDigit);
                }
                lemma_word_not_end(input.subrange(start, run_end(input, start + 1, Class::IdentifierPart)));
            }
        },
        Err(_) => {},
    }
}

/// A word is never the end of the input.
pub proof fn lemma_word_not_end(text: Seq<char>)
    ensures
        !(word(text) is End),
{
}

fn is_space_char(c: char) -> (yes: bool)
    ensures
        yes == is_space(c),
{
    c == ' ' || c == '\t' || c == '\n' || c == '\r'
}

fn is_identifier_start_char(c: char) -> (yes: bool)
    ensures
        yes == is_identifier_start(c),
{
    (c >= 'a' && c <= 'z') || (c >= 'A' && c <= 'Z') || c == '_' || c == '$'
}

fn is_digit_char(c: char) -> (yes: bool)
    ensures
        yes == is_digit(c),
{
    c >= '0' && c <= '9'
}

fn is_hex_digit_char(c: char) -> (yes: bool)
    ensures
        yes == is_hex_digit(c),
{
    is_digit_char(c) || (c >= 'a' && c <= 'f') || (c >= 'A' && c <= 'F')
}

fn accepts_char(class: Class, c: char) -> (yes: bool)
    ensures
        yes == accepts(class, c),
{
    match class {
        Class::IdentifierPart => is_identifier_start_char(c) || is_digit_char(c) || c == '.',
        Class::Digit => is_digit_char(c),
        Class::HexDigit => is_hex_digit_char(c),
        Class::InString => c != '"',
        Class::InLine => c != '\n',
    }
}

fn find_run_end(input: &Vec<char>, from: usize, class: Class) -> (end: usize)
    requires
        from <= input.len(),
    ensures
        end == run_end(input@, from as int, class),
        from <= end <= input.len(),
{
    let mut end: usize = from;
    while end < input.len() && accepts_char(class, input[end])
        invariant
            from <= end <= input.len(),
            run_end(input@, from as int, class) == run_end(input@, end as int, class),
        decreases input.len() - end,
    {
        end += 1;
    }
    end
}

fn find_comment_end(input: &Vec<char>, from: usize) -> (end: Option<usize>)
    requires
        from <= input.len(),
    ensures
        match comment_end(input@, from as int) {
            Some(at) => end == Some(at as usize) && from + 2 <= at <= input.len(),
            None => end is None,
        },
{
    let mut at: usize = from;
    while at < input.len() && at + 1 < input.len()
        invariant
            from <= at <= input.len(),
            comment_end(input@, from as int) == comment_end(input@, at as int),
        decreases input.len() - at,
    {
        if input[at] == '*' && input[at + 1] == '/' {
            return Some(at + 2);
        }
        at += 1;
    }
    None
}

fn find_start(input: &Vec<char>, from: usize) -> (start: Result<usize, Error>)
    requires
        from <= input.len(),
    ensures
        match skip(input@, from as int) {
            Ok(at) => start == Ok::<usize, Error>(at as usize) && from <= at <= input.len(),
            Err(error) => start is Err && start->Err_0@ == error,
        },
{
    let mut at: usize = from;
    loop
        invariant
            from <= at <= input.len(),
            skip(input@, from as int) == skip(input@, at as int),
        decreases input.len() - at,
    {
        if at >= input.len() {
            return Ok(at);
        }
        let c = input[at];
        if is_space_char(c) {
            at += 1;
        } else if c == '/' && at + 1 < input.len() && input[at + 1] == '/' {
            at = find_run_end(input, at + 2, Class::InLine);
        } else if c == '/' && at + 1 < input.len() && input[at + 1] == '*' {
            match find_comment_end(input, at + 2) {
                Some(end) => {
                    at = end;
                },
                None => {
                    return Err(Error::Lexical { offset: at });
                },
            }
        } else {
            return Ok(at);
        }
    }
}

fn read_at(input: &Vec<char>, start: usize) -> (result: Result<(Lexeme, usize), Error>)
    requires
        start < input.len(),
    ensures
        match lexeme_at(input@, start as int) {
            Ok((lexeme, end)) => result is Ok && result->Ok_0.0@ == lexeme && result->Ok_0.1 == end
                && start < end <= input.len(),
            Err(error) => result is Err && result->Err_0@ == error,
        },
{
    let c = input[start];
    if is_identifier_start_char(c) {
        let end = find_run_end(input, start + 1, Class::IdentifierPart);
        Ok((lexeme_of_word(string_of(input, start, end)), end))
    } else if c == '0' && input.len() - start > 2 && input[start + 1] == 'x' && is_hex_digit_char(
        input[start + 2],
    ) {
        let end = find_run_end(input, start + 2, Class::HexDigit);
        Ok(
            (
                Lexeme::Literal(
                    Literal { kind: LiteralKind::Hexadecimal, text: string_of(input, start, end) },
                ),
                end,
            ),
        )
    } else if is_digit_char(c) {
        let end = find_run_end(input, start + 1, Class::Digit);
        Ok(
            (
                Lexeme::Literal(
                    Literal { kind: LiteralKind::Decimal, text: string_of(input, start, end) },
                ),
                end,
            ),
        )
    } else if c == '"' {
        let close = find_run_end(input, start + 1, Class::InString);
        if close < input.len() {
            Ok(
                (
                    Lexeme::Literal(
                        Literal {
                            kind: LiteralKind::String,
                            text: string_of(input, start + 1, close),
                        },
                    ),
                    close + 1,
                ),
            )
        } else {
            Err(Error::Lexical { offset: start })
        }
    } else if c == '{' {
        Ok((Lexeme::Symbol(Symbol::BracketCurlyLeft), start + 1))
    } else if c == '}' {
        Ok((Lexeme::Symbol(Symbol::BracketCurlyRight), start + 1))
    } else if c == '(' {
        Ok((Lexeme::Symbol(Symbol::ParenthesisLeft), start + 1))
    } else if c == ')' {
        Ok((Lexeme::Symbol(Symbol::ParenthesisRight), start + 1))
    } else if c == ',' {
        Ok((Lexeme::Symbol(Symbol::Comma), start + 1))
    } else if c == ':' {
        if start + 1 < input.len() && input[start + 1] == '=' {
            Ok((Lexeme::Symbol(Symbol::Assignment), start + 2))
        } else {
            Ok((Lexeme::Symbol(Symbol::Colon), start + 1))
        }
    } else if c == '-' && start + 1 < input.len() && input[start + 1] == '>' {
        Ok((Lexeme::Symbol(Symbol::Arrow), start + 2))
    } else {
        Err(Error::Lexical { offset: start })
    }
}

fn read(input: &Vec<char>, offset: usize) -> (result: Result<(Lexeme, usize), Error>)
    requires
        offset <= input.len(),
    ensures
        match scan(input@, offset as int) {
            Ok((lexeme, end)) => result is Ok && result->Ok_0.0@ == lexeme && result->Ok_0.1 == end
                && offset <= end <= input.len(),
            Err(error) => result is Err && result->Err_0@ == error,
        },
{
    let start = find_start(input, offset)?;
    if start >= input.len() {
        Ok((Lexeme::End, start))
    } else {
        read_at(input, start)
    }
}

/// Where a lexer stands: the input, and the offset of the first character
/// that no lexeme taken so far goes over.
pub ghost struct LexerView {
    pub input: Seq<char>,
    pub offset: int,
}

/// The lexeme that a lexer in the given state hands out next.
pub open spec fn upcoming(state: LexerView) -> Result<LexemeView, ErrorView> {
    match scan(state.input, state.offset) {
        Ok((lexeme, _)) => Ok(lexeme),
        Err(error) => Err(error),
    }
}

/// The state of a lexer after it has handed out a lexeme: it stands behind
/// that lexeme. Where there is none to hand out, it stays.
pub open spec fn advanced(state: LexerView) -> LexerView {
    match scan(state.input, state.offset) {
        Ok((_, end)) => LexerView { input: state.input, offset: end },
        Err(_) => state,
    }
}

/// The lexer.
#[derive(Debug)]
pub struct Lexer {
    input: Vec<char>,
    offset: usize,
    peeked: Option<(Lexeme, usize)>,
}

impl View for Lexer {
    type V = LexerView;

    closed spec fn view(&self) -> LexerView {
        LexerView { input: self.input@, offset: self.offset as int }
    }
}

impl Lexer {
    #[verifier::type_invariant]
    closed spec fn well_formed(&self) -> bool {
        &&& self.offset <= self.input@.len()
        &&& match self.peeked {
            Some((lexeme, end)) => scan(self.input@, self.offset as int) == Ok::<
                (LexemeView, int),
                ErrorView,
            >((lexeme@, end as int)),
            None => true,
        }
    }

    /// The lexer at the start of the input.
    pub fn new(input: String) -> (lexer: Lexer)
        ensures
            lexer@ == (LexerView { input: input@, offset: 0 }),
    {
        Lexer { input: chars_of(input.as_str()), offset: 0, peeked: None }
    }

    /// The offset at which the lexer stands, in characters: it lies within
    /// the input.
    pub fn offset(&self) -> (offset: usize)
        ensures
            offset == self@.offset,
            offset <= self@.input.len(),
    {
        proof {
            use_type_invariant(self);
        }
        self.offset
    }

    /// Hands out the next lexeme and moves behind it. On an error the lexer
    /// stays where it is.
    pub fn next(&mut self) -> (result: Result<Lexeme, Error>)
        ensures
            final(self)@ == advanced(old(self)@),
            match upcoming(old(self)@) {
                Ok(lexeme) => result is Ok && result->Ok_0@ == lexeme,
                Err(error) => result is Err && result->Err_0@ == error,
            },
    {
        proof {
            use_type_invariant(&*self);
        }
        proof {
            lemma_scan_advances(self.input@, self.offset as int);
        }
        let (lexeme, end) = match &self.peeked {
            Some((lexeme, end)) => (lexeme.clone(), *end),
            None => read(&self.input, self.offset)?,
        };
        self.peeked = None;
        self.offset = end;
        Ok(lexeme)
    }

    /// Shows the next lexeme without moving.
    pub fn peek(&mut self) -> (result: Result<Lexeme, Error>)
        ensures
            final(self)@ == old(self)@,
            match upcoming(old(self)@) {
                Ok(lexeme) => result is Ok && result->Ok_0@ == lexeme,
                Err(error) => result is Err && result->Err_0@ == error,
            },
    {
        proof {
            use_type_invariant(&*self);
        }
        match &self.peeked {
            Some((lexeme, _)) => {
                return Ok(lexeme.clone());
            },
            None => {},
        }
        let (lexeme, end) = read(&self.input, self.offset)?;
        let copy = lexeme.clone();
        self.peeked = Some((lexeme, end));
        Ok(copy)
    }
}

/// Taking a lexeme hands out the one that showing it hands out in the same
/// state, and leaves the lexer right behind that lexeme: at the end of the
/// input where the lexeme is `End`, and further on than before where it is
/// not. Where there is no lexeme to show, the lexer stays where it is.
pub proof fn lemma_peek_then_next(state: LexerView)
    requires
        0 <= state.offset <= state.input.len(),
    ensures
        match upcoming(state) {
            Ok(lexeme) => scan(state.input, state.offset) == Ok::<(LexemeView, int), ErrorView>(
                (lexeme, advanced(state).offset),
            ) && advanced(state).input == state.input && state.offset <= advanced(state).offset
                <= state.input.len() && (lexeme is End ==> advanced(state).offset
                == state.input.len()) && (!(lexeme is End) ==> state.offset < advanced(
                state,
            ).offset),
            Err(_) => advanced(state) == state,
        },
{
    lemma_scan_advances(state.input, state.offset);
}

} // verus!
