//! The tokens of the source language.
//!
//! Tokens are identifiers (`[A-Za-z_][A-Za-z0-9_]*`, keywords among them),
//! numbers (`[0-9]+`), strings (`"` up to the next `"`, seen without the
//! quotes), formats (`#` followed by `[A-Za-z0-9_-]+`, seen without the `#`)
//! and the punctuation `: , { } [ ] ( ) @ ?`. Spaces, tabs and line breaks
//! separate tokens. Positions are counted in characters.
use vstd::prelude::*;

use crate::text::push_char;
use crate::util::{none_message, ParseError, Rule};

verus! {

broadcast use vstd::string::group_string_axioms;

#[derive(Debug, Clone, Copy, PartialEq, Eq, Structural)]
pub enum TokenKind {
    Identifier,
    String,
    Number,
    Format,
    Colon,
    Comma,
    OpenBrace,
    CloseBrace,
    OpenBracket,
    CloseBracket,
    OpenParen,
    CloseParen,
    At,
    Question,
}

/// A token: its kind, its text, the character positions of its start and
/// end, and the byte offsets (in UTF-8) where its text starts and ends. The
/// text of a string leaves out the quotes, that of a format the `#`.
#[derive(Debug)]
pub struct Token {
    pub kind: TokenKind,
    pub text: String,
    pub start: usize,
    pub end: usize,
    pub text_bytes: (usize, usize),
}

pub struct TokenV {
    pub kind: TokenKind,
    pub text: Seq<char>,
    pub start: int,
    pub end: int,
    pub text_bytes: (usize, usize),
}

pub open spec fn token_view(t: Token) -> TokenV {
    TokenV { kind: t.kind, text: t.text@, start: t.start as int, end: t.end as int, text_bytes: t.text_bytes }
}

/// The number of bytes that UTF-8 takes to write `c`.
pub open spec fn utf8_width(c: char) -> nat {
    if (c as u32) < 0x80 {
        1
    } else if (c as u32) < 0x800 {
        2
    } else if (c as u32) < 0x10000 {
        3
    } else {
        4
    }
}

/// The byte offset, in UTF-8, of the character at position `i` of `s`; a
/// position past the end is the end of the text.
pub open spec fn byte_offset(s: Seq<char>, i: int) -> nat
    decreases i,
{
    if i <= 0 {
        0
    } else if i > s.len() {
        byte_offset(s, s.len() as int)
    } else {
        byte_offset(s, i - 1) + utf8_width(s[i - 1])
    }
}

/// A byte offset as a `usize`, the largest one where it does not fit.
pub open spec fn byte_position(s: Seq<char>, i: int) -> usize {
    if byte_offset(s, i) <= usize::MAX {
        byte_offset(s, i) as usize
    } else {
        usize::MAX
    }
}

pub open spec fn tokens_view(ts: Seq<Token>) -> Seq<TokenV> {
    ts.map_values(|t: Token| token_view(t))
}

/// The ways the text can fail to split into tokens.
#[derive(Debug, Clone, Copy, PartialEq, Eq, Structural)]
pub enum LexErrorKind {
    /// A character that starts no token.
    UnexpectedCharacter,
    /// A `"` with no closing `"`.
    UnterminatedString,
    /// A `#` not followed by a format name.
    EmptyFormat,
}

pub struct LexErrorV {
    pub kind: LexErrorKind,
    pub start: int,
    pub end: int,
}

pub open spec fn lex_error_message(kind: LexErrorKind) -> Seq<char> {
    match kind {
        LexErrorKind::UnexpectedCharacter => "Unexpected character"@,
        LexErrorKind::UnterminatedString => "Unterminated string"@,
        LexErrorKind::EmptyFormat => none_message(Rule::Format),
    }
}

pub open spec fn is_space(c: char) -> bool {
    c == ' ' || c == '\t' || c == '\n' || c == '\r'
}

pub open spec fn is_alpha(c: char) -> bool {
    ('a' <= c && c <= 'z') || ('A' <= c && c <= 'Z')
}

pub open spec fn is_digit(c: char) -> bool {
    '0' <= c && c <= '9'
}

pub open spec fn is_ident_start(c: char) -> bool {
    is_alpha(c) || c == '_'
}

#[derive(Clone, Copy, PartialEq, Eq, Structural)]
pub enum CharClass {
    IdentChar,
    Digit,
    FormatChar,
    NotQuote,
}

pub open spec fn in_class(c: char, class: CharClass) -> bool {
    match class {
        CharClass::IdentChar => is_alpha(c) || is_digit(c) || c == '_',
        CharClass::Digit => is_digit(c),
        CharClass::FormatChar => is_alpha(c) || is_digit(c) || c == '_' || c == '-',
        CharClass::NotQuote => c != '"',
    }
}

/// The first position at or after `i` whose character is not in `class`
/// (the length of `s` where there is none).
pub open spec fn scan(s: Seq<char>, i: int, class: CharClass) -> int
    decreases s.len() - i,
{
    if 0 <= i < s.len() && in_class(s[i], class) {
        scan(s, i + 1, class)
    } else {
        i
    }
}

pub open spec fn punct_kind(c: char) -> Option<TokenKind> {
    if c == ':' {
        Some(TokenKind::Colon)
    } else if c == ',' {
        Some(TokenKind::Comma)
    } else if c == '{' {
        Some(TokenKind::OpenBrace)
    } else if c == '}' {
        Some(TokenKind::CloseBrace)
    } else if c == '[' {
        Some(TokenKind::OpenBracket)
    } else if c == ']' {
        Some(TokenKind::CloseBracket)
    } else if c == '(' {
        Some(TokenKind::OpenParen)
    } else if c == ')' {
        Some(TokenKind::CloseParen)
    } else if c == '@' {
        Some(TokenKind::At)
    } else if c == '?' {
        Some(TokenKind::Question)
    } else {
        None
    }
}

/// `t` followed by the tokens of `rest`, or the error of `rest`.
pub open spec fn prepend(t: TokenV, rest: Result<Seq<TokenV>, LexErrorV>) -> Result<Seq<TokenV>, LexErrorV> {
    match rest {
        Ok(ts) => Ok(seq![t] + ts),
        Err(e) => Err(e),
    }
}

/// The tokens of `s` from position `i` on.
pub open spec fn lex_from(s: Seq<char>, i: int) -> Result<Seq<TokenV>, LexErrorV>
    decreases s.len() - i,
{
    if i < 0 || i >= s.len() {
        Ok(Seq::empty())
    } else {
        let c = s[i];
        if is_space(c) {
            lex_from(s, i + 1)
        } else if punct_kind(c) is Some {
            prepend(
                TokenV {
                    kind: punct_kind(c)->0,
                    text: seq![c],
                    start: i,
                    end: i + 1,
                    text_bytes: (byte_position(s, i), byte_position(s, i + 1)),
                },
                lex_from(s, i + 1),
            )
        } else if is_ident_start(c) {
            let j = scan(s, i + 1, CharClass::IdentChar);
            proof {
                lemma_scan(s, i + 1, CharClass::IdentChar);
            }
            prepend(
                TokenV {
                    kind: TokenKind::Identifier,
                    text: s.subrange(i, j),
                    start: i,
                    end: j,
                    text_bytes: (byte_position(s, i), byte_position(s, j)),
                },
                lex_from(s, j),
            )
        } else if is_digit(c) {
            let j = scan(s, i + 1, CharClass::Digit);
            proof {
                lemma_scan(s, i + 1, CharClass::Digit);
            }
            prepend(
                TokenV {
                    kind: TokenKind::Number,
                    text: s.subrange(i, j),
                    start: i,
                    end: j,
                    text_bytes: (byte_position(s, i), byte_position(s, j)),
                },
                lex_from(s, j),
            )
        } else if c == '"' {
            let j = scan(s, i + 1, CharClass::NotQuote);
            proof {
                lemma_scan(s, i + 1, CharClass::NotQuote);
            }
            if j >= s.len() {
                Err(LexErrorV { kind: LexErrorKind::UnterminatedString, start: i, end: s.len() as int })
            } else {
                prepend(
                    TokenV {
                        kind: TokenKind::String,
                        text: s.subrange(i + 1, j),
                        start: i,
                        end: j + 1,
                        text_bytes: (byte_position(s, i + 1), byte_position(s, j)),
                    },
                    lex_from(s, j + 1),
                )
            }
        } else if c == '#' {
            let j = scan(s, i + 1, CharClass::FormatChar);
            proof {
                lemma_scan(s, i + 1, CharClass::FormatChar);
            }
            if j <= i + 1 {
                Err(LexErrorV { kind: LexErrorKind::EmptyFormat, start: i, end: i + 1 })
            } else {
                prepend(
                    TokenV {
                        kind: TokenKind::Format,
                        text: s.subrange(i + 1, j),
                        start: i,
                        end: j,
                        text_bytes: (byte_position(s, i + 1), byte_position(s, j)),
                    },
                    lex_from(s, j),
                )
            }
        } else {
            Err(LexErrorV { kind: LexErrorKind::UnexpectedCharacter, start: i, end: i + 1 })
        }
    }
}

/// The tokens of a source text, or the first place where it fails to split into tokens.
pub open spec fn lex(s: Seq<char>) -> Result<Seq<TokenV>, LexErrorV> {
    lex_from(s, 0)
}

pub proof fn lemma_scan(s: Seq<char>, i: int, class: CharClass)
    requires
        0 <= i <= s.len(),
    ensures
        i <= scan(s, i, class) <= s.len(),
        forall|k: int| i <= k < scan(s, i, class) ==> in_class(#[trigger] s[k], class),
        scan(s, i, class) < s.len() ==> !in_class(s[scan(s, i, class)], class),
    decreases s.len() - i,
{
    if i < s.len() && in_class(s[i], class) {
        lemma_scan(s, i + 1, class);
    }
}

/// The characters of a text, in order.
pub fn chars_of(input: &str) -> (v: Vec<char>)
    ensures
        v@ == input@,
{
    let mut v: Vec<char> = Vec::new();
    for c in it: input.chars()
        invariant
            v@ == it.seq().take(it.index() as int),
    {
        v.push(c);
    }
    assert(v@ == input@);
    v
}

fn space(c: char) -> (b: bool)
    ensures
        b == is_space(c),
{
    c == ' ' || c == '\t' || c == '\n' || c == '\r'
}

fn alpha(c: char) -> (b: bool)
    ensures
        b == is_alpha(c),
{
    ('a' <= c && c <= 'z') || ('A' <= c && c <= 'Z')
}

fn digit(c: char) -> (b: bool)
    ensures
        b == is_digit(c),
{
    '0' <= c && c <= '9'
}

fn class_member(c: char, class: CharClass) -> (b: bool)
    ensures
        b == in_class(c, class),
{
    match class {
        CharClass::IdentChar => alpha(c) || digit(c) || c == '_',
        CharClass::Digit => digit(c),
        CharClass::FormatChar => alpha(c) || digit(c) || c == '_' || c == '-',
        CharClass::NotQuote => c != '"',
    }
}

fn punctuation(c: char) -> (k: Option<TokenKind>)
    ensures
        k == punct_kind(c),
{
    if c == ':' {
        Some(TokenKind::Colon)
    } else if c == ',' {
        Some(TokenKind::Comma)
    } else if c == '{' {
        Some(TokenKind::OpenBrace)
    } else if c == '}' {
        Some(TokenKind::CloseBrace)
    } else if c == '[' {
        Some(TokenKind::OpenBracket)
    } else if c == ']' {
        Some(TokenKind::CloseBracket)
    } else if c == '(' {
        Some(TokenKind::OpenParen)
    } else if c == ')' {
        Some(TokenKind::CloseParen)
    } else if c == '@' {
        Some(TokenKind::At)
    } else if c == '?' {
        Some(TokenKind::Question)
    } else {
        None
    }
}

fn char_width(c: char) -> (w: usize)
    ensures
        w == utf8_width(c),
{
    let code = c as u32;
    if code < 0x80 {
        1
    } else if code < 0x800 {
        2
    } else if code < 0x10000 {
        3
    } else {
        4
    }
}

/// The byte offset of position `j` of `chars`, counted on from that of an
/// earlier position `i`.
pub fn advance_offset(chars: &Vec<char>, i: usize, offset: usize, j: usize) -> (b: usize)
    requires
        i <= j <= chars.len(),
        offset == byte_position(chars@, i as int),
    ensures
        b == byte_position(chars@, j as int),
{
    let mut b = offset;
    let mut k = i;
    while k < j
        invariant
            i <= k <= j <= chars.len(),
            b == byte_position(chars@, k as int),
        decreases j - k,
    {
        let w = char_width(chars[k]);
        assert(byte_offset(chars@, k + 1) == byte_offset(chars@, k as int) + utf8_width(chars@[k as int]));
        if b > usize::MAX - w {
            b = usize::MAX;
        } else {
            b = b + w;
        }
        k = k + 1;
    }
    b
}

/// The first position at or after `i` whose character is not in `class`.
fn scan_class(chars: &Vec<char>, i: usize, class: CharClass) -> (j: usize)
    requires
        i <= chars.len(),
    ensures
        j == scan(chars@, i as int, class),
        i <= j <= chars.len(),
{
    let mut j = i;
    while j < chars.len() && class_member(chars[j], class)
        invariant
            i <= j <= chars.len(),
            scan(chars@, i as int, class) == scan(chars@, j as int, class),
        decreases chars.len() - j,
    {
        j = j + 1;
    }
    j
}

/// The characters from `i` up to `j`, as a string.
fn text_between(chars: &Vec<char>, i: usize, j: usize) -> (s: String)
    requires
        i <= j <= chars.len(),
    ensures
        s@ == chars@.subrange(i as int, j as int),
{
    let mut s = String::new();
    let mut k = i;
    while k < j
        invariant
            i <= k <= j <= chars.len(),
            s@ == chars@.subrange(i as int, k as int),
        decreases j - k,
    {
        push_char(&mut s, chars[k]);
        assert(chars@.subrange(i as int, k + 1) == chars@.subrange(i as int, k as int).push(chars@[k as int]));
        k = k + 1;
    }
    s
}

fn lex_error(kind: LexErrorKind, start: usize, end: usize) -> (e: ParseError)
    ensures
        e.message@ == lex_error_message(kind),
        e.span == Some((start, end)),
{
    let message = match kind {
        LexErrorKind::UnexpectedCharacter => String::from_str("Unexpected character"),
        LexErrorKind::UnterminatedString => String::from_str("Unterminated string"),
        LexErrorKind::EmptyFormat => ParseError::none(Rule::Format).message,
    };
    ParseError { message, span: Some((start, end)) }
}

/// What the tokens found so far and the tokens of the rest make together.
pub open spec fn after(done: Seq<TokenV>, rest: Result<Seq<TokenV>, LexErrorV>) -> Result<Seq<TokenV>, LexErrorV> {
    match rest {
        Ok(ts) => Ok(done + ts),
        Err(e) => Err(e),
    }
}

proof fn lemma_after_push(done: Seq<TokenV>, t: TokenV, rest: Result<Seq<TokenV>, LexErrorV>)
    ensures
        after(done, prepend(t, rest)) == after(done.push(t), rest),
{
    if let Ok(ts) = rest {
        assert(done + (seq![t] + ts) == done.push(t) + ts);
    }
}

/// Splits a source text into tokens.
pub fn tokenize(input: &str) -> (r: Result<Vec<Token>, ParseError>)
    ensures
        match lex(input@) {
            Ok(ts) => r is Ok && tokens_view(r->Ok_0@) == ts,
            Err(e) => r is Err && r->Err_0.message@ == lex_error_message(e.kind) && r->Err_0.span
                == Some((e.start as usize, e.end as usize)),
        },
{
    let chars = chars_of(input);
    let n = chars.len();
    let mut toks: Vec<Token> = Vec::new();
    let mut i: usize = 0;
    let mut bi: usize = 0;
    while i < n
        invariant
            i <= n,
            n == chars.len(),
            chars@ == input@,
            lex(input@) == after(tokens_view(toks@), lex_from(input@, i as int)),
            bi == byte_position(chars@, i as int),
        decreases n - i,
    {
        let ghost s = chars@;
        let ghost before = tokens_view(toks@);
        let c = chars[i];
        if space(c) {
            bi = advance_offset(&chars, i, bi, i + 1);
            i = i + 1;
        } else if let Some(kind) = punctuation(c) {
            let mut text = String::new();
            push_char(&mut text, c);
            let b1 = advance_offset(&chars, i, bi, i + 1);
            let t = Token { kind, text, start: i, end: i + 1, text_bytes: (bi, b1) };
            proof {
                lemma_after_push(before, token_view(t), lex_from(s, i + 1));
            }
            toks.push(t);
            assert(tokens_view(toks@) == before.push(token_view(t)));
            bi = b1;
            i = i + 1;
        } else if alpha(c) || c == '_' {
            let j = scan_class(&chars, i + 1, CharClass::IdentChar);
            let bj = advance_offset(&chars, i, bi, j);
            let t = Token { kind: TokenKind::Identifier, text: text_between(&chars, i, j), start: i, end: j, text_bytes: (bi, bj) };
            proof {
                lemma_after_push(before, token_view(t), lex_from(s, j as int));
            }
            toks.push(t);
            assert(tokens_view(toks@) == before.push(token_view(t)));
            bi = bj;
            i = j;
        } else if digit(c) {
            let j = scan_class(&chars, i + 1, CharClass::Digit);
            let bj = advance_offset(&chars, i, bi, j);
            let t = Token { kind: TokenKind::Number, text: text_between(&chars, i, j), start: i, end: j, text_bytes: (bi, bj) };
            proof {
                lemma_after_push(before, token_view(t), lex_from(s, j as int));
            }
            toks.push(t);
            assert(tokens_view(toks@) == before.push(token_view(t)));
            bi = bj;
            i = j;
        } else if c == '"' {
            let j = scan_class(&chars, i + 1, CharClass::NotQuote);
            if j >= n {
                return Err(lex_error(LexErrorKind::UnterminatedString, i, n));
            }
            let b1 = advance_offset(&chars, i, bi, i + 1);
            let bj = advance_offset(&chars, i + 1, b1, j);
            let t = Token {
                kind: TokenKind::String,
                text: text_between(&chars, i + 1, j),
                start: i,
                end: j + 1,
                text_bytes: (b1, bj),
            };
            proof {
                lemma_after_push(before, token_view(t), lex_from(s, j + 1));
            }
            toks.push(t);
            assert(tokens_view(toks@) == before.push(token_view(t)));
            bi = advance_offset(&chars, j, bj, j + 1);
            i = j + 1;
        } else if c == '#' {
            let j = scan_class(&chars, i + 1, CharClass::FormatChar);
            if j <= i + 1 {
                return Err(lex_error(LexErrorKind::EmptyFormat, i, i + 1));
            }
            let b1 = advance_offset(&chars, i, bi, i + 1);
            let bj = advance_offset(&chars, i + 1, b1, j);
            let t = Token {
                kind: TokenKind::Format,
                text: text_between(&chars, i + 1, j),
                start: i,
                end: j,
                text_bytes: (b1, bj),
            };
            proof {
                lemma_after_push(before, token_view(t), lex_from(s, j as int));
            }
            toks.push(t);
            assert(tokens_view(toks@) == before.push(token_view(t)));
            bi = bj;
            i = j;
        } else {
            return Err(lex_error(LexErrorKind::UnexpectedCharacter, i, i + 1));
        }
    }
    assert(tokens_view(toks@) + Seq::<TokenV>::empty() == tokens_view(toks@));
    Ok(toks)
}

} // verus!
