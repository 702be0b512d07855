//! Tokens of attribute arguments and the small grammars read from them:
//! punctuation, string and boolean literals, lifetimes, identifiers and the
//! paths that name nested attributes.
use vstd::prelude::*;
use crate::syntax::{is_plain_ident, lit_str_value, reads_as_plain_ident, str_literal_value};
use crate::text::str_eq;

verus! {

/// Delimiter of a token group. Groups without a delimiter are transparent
/// and are spliced into the surrounding token list before it reaches the
/// library.
#[derive(Clone, Copy, Debug, PartialEq, Eq, Structural)]
pub enum Delimiter {
    Parenthesis,
    Brace,
    Bracket,
}

/// One token tree, as plain values: an identifier, a punctuation character
/// with its spacing (`true` when it is joined to the next character), a
/// literal with its source text, or a delimited group with the text of its
/// content.
#[derive(Clone, Debug)]
pub enum Token {
    Ident(String),
    Punct(char, bool),
    Literal(String),
    Group(Delimiter, String),
}

/// The mathematical value of a [`Token`].
pub enum TokenView {
    Ident(Seq<char>),
    Punct(char, bool),
    Literal(Seq<char>),
    Group(Delimiter, Seq<char>),
}

impl View for Token {
    type V = TokenView;

    open spec fn view(&self) -> TokenView {
        match self {
            Token::Ident(s) => TokenView::Ident(s@),
            Token::Punct(c, j) => TokenView::Punct(*c, *j),
            Token::Literal(s) => TokenView::Literal(s@),
            Token::Group(d, s) => TokenView::Group(*d, s@),
        }
    }
}

impl DeepView for Token {
    type V = TokenView;

    open spec fn deep_view(&self) -> TokenView {
        self.view()
    }
}

/// Why a list of tokens was refused.
#[derive(Clone, Debug)]
pub enum ParseError {
    /// Nothing where a nested attribute should start.
    ExpectedNestedAttribute,
    /// A literal where a nested attribute should start.
    UnexpectedLiteral,
    /// Another token where a nested attribute should start.
    UnexpectedToken,
    /// No identifier after `::` in a path.
    ExpectedIdent,
    /// No identifier where a field argument should start.
    ExpectedIdentifier,
    /// A keyword where a field argument should start.
    FoundKeyword(String),
    /// No `=` after a key that takes a value.
    ExpectedEq,
    /// No `,` between two entries.
    ExpectedComma,
    /// No string literal where one is required.
    ExpectedStringLiteral,
    /// No `true` or `false` where one is required.
    ExpectedBooleanLiteral,
    /// No lifetime where one is required.
    ExpectedLifetime,
    /// A `source` that is not an identifier.
    InvalidIdent(String),
    /// A `#[bricke(..)]` key that is not a single identifier.
    UnknownAttribute,
    /// A `#[bricke(..)]` key that the library does not know.
    UnknownNamedAttribute(String),
    /// A `#[bricke_field(..)]` key that the library does not know.
    UnsupportedFieldAttribute(String),
    /// `#[bricke_field]` written without arguments.
    ExpectedArgumentsInParentheses,
    /// `#[bricke_field = ..]` written in the name-value form.
    ExpectedParentheses,
}

/// The mathematical value of a [`ParseError`].
pub enum ParseErrorView {
    ExpectedNestedAttribute,
    UnexpectedLiteral,
    UnexpectedToken,
    ExpectedIdent,
    ExpectedIdentifier,
    FoundKeyword(Seq<char>),
    ExpectedEq,
    ExpectedComma,
    ExpectedStringLiteral,
    ExpectedBooleanLiteral,
    ExpectedLifetime,
    InvalidIdent(Seq<char>),
    UnknownAttribute,
    UnknownNamedAttribute(Seq<char>),
    UnsupportedFieldAttribute(Seq<char>),
    ExpectedArgumentsInParentheses,
    ExpectedParentheses,
}

impl View for ParseError {
    type V = ParseErrorView;

    open spec fn view(&self) -> ParseErrorView {
        match self {
            ParseError::ExpectedNestedAttribute => ParseErrorView::ExpectedNestedAttribute,
            ParseError::UnexpectedLiteral => ParseErrorView::UnexpectedLiteral,
            ParseError::UnexpectedToken => ParseErrorView::UnexpectedToken,
            ParseError::ExpectedIdent => ParseErrorView::ExpectedIdent,
            ParseError::ExpectedIdentifier => ParseErrorView::ExpectedIdentifier,
            ParseError::FoundKeyword(s) => ParseErrorView::FoundKeyword(s@),
            ParseError::ExpectedEq => ParseErrorView::ExpectedEq,
            ParseError::ExpectedComma => ParseErrorView::ExpectedComma,
            ParseError::ExpectedStringLiteral => ParseErrorView::ExpectedStringLiteral,
            ParseError::ExpectedBooleanLiteral => ParseErrorView::ExpectedBooleanLiteral,
            ParseError::ExpectedLifetime => ParseErrorView::ExpectedLifetime,
            ParseError::InvalidIdent(s) => ParseErrorView::InvalidIdent(s@),
            ParseError::UnknownAttribute => ParseErrorView::UnknownAttribute,
            ParseError::UnknownNamedAttribute(s) => ParseErrorView::UnknownNamedAttribute(s@),
            ParseError::UnsupportedFieldAttribute(s) => ParseErrorView::UnsupportedFieldAttribute(s@),
            ParseError::ExpectedArgumentsInParentheses => ParseErrorView::ExpectedArgumentsInParentheses,
            ParseError::ExpectedParentheses => ParseErrorView::ExpectedParentheses,
        }
    }
}

/// A spec-level parse result: the value read and the position after it.
pub type Parsed<T> = Result<(T, int), ParseErrorView>;

/// Whether an exec result agrees with a spec result, values compared by
/// `same`.
pub open spec fn agrees<A, B>(r: Result<(A, usize), ParseError>, s: Parsed<B>, same: spec_fn(A, B) -> bool) -> bool {
    match (r, s) {
        (Ok((a, i)), Ok((b, j))) => same(a, b) && i as int == j,
        (Err(e), Err(f)) => e@ == f,
        _ => false,
    }
}

/// Token `i` of `t` is the punctuation character `c`, of either spacing.
pub open spec fn punct_at(t: Seq<TokenView>, i: int, c: char) -> bool {
    &&& 0 <= i < t.len()
    &&& t[i] matches TokenView::Punct(ch, _) && ch == c
}

/// Tokens `i` and `i + 1` of `t` spell `::`, the first joined to the second.
pub open spec fn colon2_at(t: Seq<TokenView>, i: int) -> bool {
    &&& 0 <= i
    &&& i + 1 < t.len()
    &&& t[i] == TokenView::Punct(':', true)
    &&& punct_at(t, i + 1, ':')
}

/// Token `i` of `t` starts a literal: a literal token, or `-` followed by a
/// numeric literal.
pub open spec fn literal_at(t: Seq<TokenView>, i: int) -> bool {
    ||| 0 <= i < t.len() && t[i] is Literal
    ||| punct_at(t, i, '-') && i + 1 < t.len() && (t[i + 1] matches TokenView::Literal(text)
        && text.len() > 0 && '0' <= text[0] <= '9')
}

/// Reads a string literal at `i`: its value.
pub open spec fn spec_lit_str(t: Seq<TokenView>, i: int) -> Parsed<Seq<char>> {
    if 0 <= i < t.len() && t[i] is Literal && str_literal_value(t[i]->Literal_0) is Some {
        Ok((str_literal_value(t[i]->Literal_0).unwrap(), i + 1))
    } else {
        Err(ParseErrorView::ExpectedStringLiteral)
    }
}

/// Reads a boolean literal at `i`.
pub open spec fn spec_lit_bool(t: Seq<TokenView>, i: int) -> Parsed<bool> {
    if 0 <= i < t.len() && t[i] == TokenView::Ident("true"@) {
        Ok((true, i + 1))
    } else if 0 <= i < t.len() && t[i] == TokenView::Ident("false"@) {
        Ok((false, i + 1))
    } else {
        Err(ParseErrorView::ExpectedBooleanLiteral)
    }
}

/// Reads a lifetime at `i`: the name that follows the apostrophe.
pub open spec fn spec_lifetime(t: Seq<TokenView>, i: int) -> Parsed<Seq<char>> {
    if 0 <= i && i + 1 < t.len() && t[i] == TokenView::Punct('\'', true) && t[i + 1] is Ident {
        Ok((t[i + 1]->Ident_0, i + 2))
    } else {
        Err(ParseErrorView::ExpectedLifetime)
    }
}

/// Reads an identifier that is not a keyword at `i`.
pub open spec fn spec_ident(t: Seq<TokenView>, i: int) -> Parsed<Seq<char>> {
    if 0 <= i < t.len() && t[i] is Ident {
        if !reads_as_plain_ident(t[i]->Ident_0) {
            Err(ParseErrorView::FoundKeyword(t[i]->Ident_0))
        } else {
            Ok((t[i]->Ident_0, i + 1))
        }
    } else {
        Err(ParseErrorView::ExpectedIdentifier)
    }
}

/// Whether token `i` is the punctuation character `c`.
pub fn is_punct(tokens: &Vec<Token>, i: usize, c: char) -> (r: bool)
    ensures
        r == punct_at(tokens.deep_view(), i as int, c),
{
    if i < tokens.len() {
        match &tokens[i] {
            Token::Punct(ch, _) => *ch == c,
            _ => false,
        }
    } else {
        false
    }
}

/// Whether tokens `i` and `i + 1` spell `::`.
pub fn is_colon2(tokens: &Vec<Token>, i: usize) -> (r: bool)
    ensures
        r == colon2_at(tokens.deep_view(), i as int),
{
    if i < tokens.len() && i + 1 < tokens.len() {
        let first = match &tokens[i] {
            Token::Punct(ch, joint) => *ch == ':' && *joint,
            _ => false,
        };
        first && is_punct(tokens, i + 1, ':')
    } else {
        false
    }
}

/// Whether `c` is an ASCII digit.
fn is_ascii_digit(c: char) -> (r: bool)
    ensures
        r == ('0' <= c <= '9'),
{
    '0' <= c && c <= '9'
}

/// Whether a literal starts at `i`.
pub fn is_literal(tokens: &Vec<Token>, i: usize) -> (r: bool)
    ensures
        r == literal_at(tokens.deep_view(), i as int),
{
    if i >= tokens.len() {
        return false;
    }
    if let Token::Literal(_) = &tokens[i] {
        return true;
    }
    if is_punct(tokens, i, '-') && i + 1 < tokens.len() {
        if let Token::Literal(text) = &tokens[i + 1] {
            let s = text.as_str();
            if s.unicode_len() > 0 {
                return is_ascii_digit(s.get_char(0));
            }
        }
    }
    false
}

/// Reads a string literal at `i`: its value, its token text, and the
/// position after it.
pub fn parse_lit_str(tokens: &Vec<Token>, i: usize) -> (r: Result<(String, String, usize), ParseError>)
    ensures
        match (r, spec_lit_str(tokens.deep_view(), i as int)) {
            (Ok((v, text, j)), Ok((w, k))) => v@ == w && j as int == k && i < tokens.len()
                && tokens.deep_view()[i as int] == TokenView::Literal(text@),
            (Err(e), Err(f)) => e@ == f,
            _ => false,
        },
{
    if i < tokens.len() {
        if let Token::Literal(text) = &tokens[i] {
            match lit_str_value(text.as_str()) {
                Some(v) => return Ok((v, text.clone(), i + 1)),
                None => {},
            }
        }
    }
    Err(ParseError::ExpectedStringLiteral)
}

/// Reads a boolean literal at `i`.
pub fn parse_lit_bool(tokens: &Vec<Token>, i: usize) -> (r: Result<(bool, usize), ParseError>)
    ensures
        agrees(r, spec_lit_bool(tokens.deep_view(), i as int), |a: bool, b: bool| a == b),
{
    if i < tokens.len() {
        if let Token::Ident(s) = &tokens[i] {
            if str_eq(s.as_str(), "true") {
                return Ok((true, i + 1));
            }
            if str_eq(s.as_str(), "false") {
                return Ok((false, i + 1));
            }
        }
    }
    Err(ParseError::ExpectedBooleanLiteral)
}

/// Reads a lifetime at `i`: the name after the apostrophe.
pub fn parse_lifetime(tokens: &Vec<Token>, i: usize) -> (r: Result<(String, usize), ParseError>)
    ensures
        agrees(r, spec_lifetime(tokens.deep_view(), i as int), |a: String, b: Seq<char>| a@ == b),
{
    if i < tokens.len() && i + 1 < tokens.len() {
        let apostrophe = match &tokens[i] {
            Token::Punct(ch, joint) => *ch == '\'' && *joint,
            _ => false,
        };
        if apostrophe {
            if let Token::Ident(name) = &tokens[i + 1] {
                return Ok((name.clone(), i + 2));
            }
        }
    }
    Err(ParseError::ExpectedLifetime)
}

/// Reads an identifier that is not a keyword at `i`.
pub fn parse_ident(tokens: &Vec<Token>, i: usize) -> (r: Result<(String, usize), ParseError>)
    ensures
        agrees(r, spec_ident(tokens.deep_view(), i as int), |a: String, b: Seq<char>| a@ == b),
{
    if i < tokens.len() {
        if let Token::Ident(s) = &tokens[i] {
            if !is_plain_ident(s.as_str()) {
                return Err(ParseError::FoundKeyword(s.clone()));
            } else {
                return Ok((s.clone(), i + 1));
            }
        }
    }
    Err(ParseError::ExpectedIdentifier)
}

} // verus!
