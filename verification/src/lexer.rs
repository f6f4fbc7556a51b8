//! Converts a text file into tokens.
//!
//! The lexer walks over the chars of a text and produces one [Token] per
//! call of [Lexer::scan]. The `lexical grammar` below states, as spec
//! functions over the text and a position in it, which token (or which
//! error) starts at each position and where it ends.
use vstd::prelude::*;
use crate::constr::{char_from_u32, shift_in, spec_char_from_u32};
use crate::text::{chars_to_string, str_to_chars};
use crate::token::{keyword_from_chars, spec_keyword, DataView, Keyword, Token, TokenData, Type};
use unicode_xid::UnicodeXID;

verus! {

// ---------------------------------------------------------------------
// Character classes
// ---------------------------------------------------------------------

/// The Unicode `XID_Start` property, as the `unicode-xid` crate tabulates it.
pub uninterp spec fn xid_start_property(c: char) -> bool;

/// The Unicode `XID_Continue` property, as the `unicode-xid` crate tabulates it.
pub uninterp spec fn xid_continue_property(c: char) -> bool;

pub open spec fn is_ascii_letter(c: char) -> bool {
    ('a' <= c && c <= 'z') || ('A' <= c && c <= 'Z')
}

pub open spec fn is_ascii_digit(c: char) -> bool {
    '0' <= c && c <= '9'
}

/// Whether a char may start an identifier: an ASCII letter, or a non-ASCII
/// char with the `XID_Start` property.
pub open spec fn ident_start(c: char) -> bool {
    if (c as u32) <= 0x7f {
        is_ascii_letter(c)
    } else {
        xid_start_property(c)
    }
}

/// Whether a char may continue an identifier: an ASCII letter, digit or
/// `_`, or a non-ASCII char with the `XID_Continue` property.
pub open spec fn ident_continue(c: char) -> bool {
    if (c as u32) <= 0x7f {
        is_ascii_letter(c) || is_ascii_digit(c) || c == '_'
    } else {
        xid_continue_property(c)
    }
}

/// `UnicodeXID::is_xid_start` of the `unicode-xid` crate: whether a char
/// may start an identifier. Its result is named by [xid_start_property];
/// on ASCII chars the crate's fast path makes it exactly the letters.
#[verifier::external_body]
fn is_xid_start(c: char) -> (r: bool)
    ensures
        r == xid_start_property(c),
        (c as u32) <= 0x7f ==> (r == is_ascii_letter(c)),
{
    c.is_xid_start()
}

/// `UnicodeXID::is_xid_continue` of the `unicode-xid` crate: whether a
/// char may continue an identifier. Its result is named by
/// [xid_continue_property]; on ASCII chars the crate's fast path makes it
/// exactly the letters, the digits and `_`.
#[verifier::external_body]
fn is_xid_continue(c: char) -> (r: bool)
    ensures
        r == xid_continue_property(c),
        (c as u32) <= 0x7f ==> (r == (is_ascii_letter(c) || is_ascii_digit(c) || c == '_')),
{
    c.is_xid_continue()
}

/// The Unicode `White_Space` property.
pub open spec fn spec_is_whitespace(c: char) -> bool {
    let v = c as u32;
    (0x9 <= v && v <= 0xD) || v == 0x20 || v == 0x85 || v == 0xA0 || v == 0x1680 || (0x2000 <= v
        && v <= 0x200A) || v == 0x2028 || v == 0x2029 || v == 0x202F || v == 0x205F || v == 0x3000
}

/// Whether a char has the Unicode `White_Space` property.
pub fn is_whitespace(c: char) -> (r: bool)
    ensures
        r == spec_is_whitespace(c),
{
    let v = c as u32;
    (0x9 <= v && v <= 0xD) || v == 0x20 || v == 0x85 || v == 0xA0 || v == 0x1680 || (0x2000 <= v
        && v <= 0x200A) || v == 0x2028 || v == 0x2029 || v == 0x202F || v == 0x205F || v == 0x3000
}

pub open spec fn spec_is_ascii_alphanumeric(c: char) -> bool {
    is_ascii_letter(c) || is_ascii_digit(c)
}

fn is_ascii_alphanumeric(c: char) -> (r: bool)
    ensures
        r == spec_is_ascii_alphanumeric(c),
{
    ('a' <= c && c <= 'z') || ('A' <= c && c <= 'Z') || ('0' <= c && c <= '9')
}

/// The value of a char as a digit of the given radix, as `char::to_digit`
/// gives it: `0-9`, then `a-z` or `A-Z` for ten to thirty-five.
pub open spec fn spec_to_digit(c: char, radix: u32) -> Option<u32> {
    let v = if is_ascii_digit(c) {
        c as int - '0' as int
    } else if 'a' <= c && c <= 'z' {
        c as int - 'a' as int + 10
    } else if 'A' <= c && c <= 'Z' {
        c as int - 'A' as int + 10
    } else {
        36
    };
    if v < radix {
        Some(v as u32)
    } else {
        None
    }
}

fn to_digit(c: char, radix: u32) -> (r: Option<u32>)
    requires
        radix <= 36,
    ensures
        r == spec_to_digit(c, radix),
{
    let v: u32 = if '0' <= c && c <= '9' {
        (c as u32) - ('0' as u32)
    } else if 'a' <= c && c <= 'z' {
        (c as u32) - ('a' as u32) + 10
    } else if 'A' <= c && c <= 'Z' {
        (c as u32) - ('A' as u32) + 10
    } else {
        36
    };
    if v < radix {
        Some(v)
    } else {
        None
    }
}

// ---------------------------------------------------------------------
// Errors
// ---------------------------------------------------------------------

/// The reason for a lexical [Error].
#[derive(Clone, Copy, Debug, PartialEq, Eq, Structural)]
pub enum Reason {
    /// Found an opening delimiter, but not the expected closing delimiter
    UnmatchedDelimiters(char),
    /// Found a character that doesn't belong to any [Type]
    UnexpectedChar(char),
    /// Found a character that's not valid in identifiers while looking for an identifier
    NotIdentifier(char),
    /// Found a character that's not valid in an escape sequence
    UnknownEscape(char),
    /// Escape sequence contains invalid hexadecimal digit or unmatched braces
    InvalidEscape(char),
    /// Character is not a valid digit in the requested base
    InvalidDigit(char),
    /// Base conversion requested, but the base character was not known
    UnknownBase(char),
    /// Unicode escape does not map to a valid unicode code-point
    BadUnicode(u32),
    /// Reached end of input
    EndOfFile,
}

/// A lexical error, with the line and column of the token it was found in.
#[derive(Clone, Debug, PartialEq, Eq)]
pub struct Error {
    pub reason: Reason,
    pub line: u32,
    pub col: u32,
}

/// Result type with [Err] = [Error]
pub type LResult<T> = Result<T, Error>;

impl Error {
    /// Changes the [Reason] of this error.
    pub fn mask_reason(self, reason: Reason) -> (r: Self)
        ensures
            r.reason == reason,
            r.line == self.line,
            r.col == self.col,
    {
        Error { reason, ..self }
    }

    /// Returns the [Reason] for this error.
    pub fn reason(&self) -> (r: &Reason)
        ensures
            *r == self.reason,
    {
        &self.reason
    }

    /// Returns the (line, col) where the error happened.
    pub fn location(&self) -> (r: (u32, u32))
        ensures
            r == (self.line, self.col),
    {
        (self.line, self.col)
    }

}

// ---------------------------------------------------------------------
// The lexical grammar
// ---------------------------------------------------------------------

/// What scanning gives: a token's type and data, or the reason it failed.
pub type Outcome = Result<(Type, DataView), Reason>;

pub open spec fn tok(t: Type) -> Outcome {
    Ok((t, DataView::NoData))
}

pub open spec fn peek_is(s: Seq<char>, q: int, c: char) -> bool {
    0 <= q < s.len() && s[q] == c
}

/// The (line, column) reached after reading the first `n` chars of `s`.
pub open spec fn loc_at(s: Seq<char>, n: int) -> (int, int)
    decreases n,
{
    if n <= 0 {
        (1, 1)
    } else {
        let (l, c) = loc_at(s, n - 1);
        if s[n - 1] == '\n' {
            (l + 1, 1)
        } else {
            (l, c + 1)
        }
    }
}

/// Lines and columns count from one, and together stay within the
/// number of chars read plus two.
pub proof fn lemma_loc_bounds(s: Seq<char>, n: int)
    requires
        0 <= n,
    ensures
        1 <= loc_at(s, n).0,
        1 <= loc_at(s, n).1,
        loc_at(s, n).0 + loc_at(s, n).1 <= n + 2,
    decreases n,
{
    if n > 0 {
        lemma_loc_bounds(s, n - 1);
    }
}

/// The first position at or after `q` that is not whitespace.
pub open spec fn skip_ws(s: Seq<char>, q: int) -> int
    decreases s.len() - q,
{
    if 0 <= q < s.len() && spec_is_whitespace(s[q]) {
        skip_ws(s, q + 1)
    } else {
        q
    }
}

/// A punctuator that may continue with one of two chars.
pub open spec fn sp_pick2(
    s: Seq<char>,
    q: int,
    c1: char,
    t1: Type,
    c2: char,
    t2: Type,
    d: Type,
) -> (Outcome, int) {
    if peek_is(s, q, c1) {
        (tok(t1), q + 1)
    } else if peek_is(s, q, c2) {
        (tok(t2), q + 1)
    } else {
        (tok(d), q)
    }
}

/// A punctuator that may continue with one char.
pub open spec fn sp_pick1(s: Seq<char>, q: int, c1: char, t1: Type, d: Type) -> (Outcome, int) {
    if peek_is(s, q, c1) {
        (tok(t1), q + 1)
    } else {
        (tok(d), q)
    }
}

/// `.`, `..` or `..=`, after the first dot.
pub open spec fn sp_dot(s: Seq<char>, q: int) -> (Outcome, int) {
    if peek_is(s, q, '.') {
        if peek_is(s, q + 1, '=') {
            (tok(Type::DotDotEq), q + 2)
        } else {
            (tok(Type::DotDot), q + 1)
        }
    } else {
        (tok(Type::Dot), q)
    }
}

/// `>`, `>=`, `>>` or `>>=` (or their `<` mirrors), after the first char.
pub open spec fn sp_angle(
    s: Seq<char>,
    q: int,
    c: char,
    one: Type,
    eq: Type,
    two: Type,
    two_eq: Type,
) -> (Outcome, int) {
    if peek_is(s, q, '=') {
        (tok(eq), q + 1)
    } else if peek_is(s, q, c) {
        if peek_is(s, q + 1, '=') {
            (tok(two_eq), q + 2)
        } else {
            (tok(two), q + 1)
        }
    } else {
        (tok(one), q)
    }
}

/// A line comment runs up to, and not including, the next newline; one
/// that reaches the end of the input fails.
pub open spec fn sp_line_comment(s: Seq<char>, q: int) -> (Outcome, int)
    decreases s.len() - q,
{
    if q < 0 || q >= s.len() {
        (Err(Reason::EndOfFile), q)
    } else if s[q] == '\n' {
        (tok(Type::Comment), q)
    } else {
        sp_line_comment(s, q + 1)
    }
}

/// A block comment runs up to the first `*` whose following char is `/`
/// (that following char is read either way), or to the end of the input.
pub open spec fn sp_block_comment(s: Seq<char>, q: int) -> (Outcome, int)
    decreases s.len() - q,
{
    if q < 0 || q >= s.len() {
        (tok(Type::Comment), q)
    } else if s[q] == '*' {
        if q + 1 >= s.len() {
            (tok(Type::Comment), q + 1)
        } else if s[q + 1] == '/' {
            (tok(Type::Comment), q + 2)
        } else {
            sp_block_comment(s, q + 2)
        }
    } else {
        sp_block_comment(s, q + 1)
    }
}

/// `/`, `/=`, or a comment, after the slash.
pub open spec fn sp_slash(s: Seq<char>, q: int) -> (Outcome, int) {
    if peek_is(s, q, '=') {
        (tok(Type::SlashEq), q + 1)
    } else if peek_is(s, q, '/') {
        sp_line_comment(s, q + 1)
    } else if peek_is(s, q, '*') {
        sp_block_comment(s, q + 1)
    } else {
        (tok(Type::Slash), q)
    }
}

/// The end of an identifier: the first position at or after `q` whose
/// char is not `XID_Continue`.
pub open spec fn ident_end(s: Seq<char>, q: int) -> int
    decreases s.len() - q,
{
    if 0 <= q < s.len() && ident_continue(s[q]) {
        ident_end(s, q + 1)
    } else {
        q
    }
}

/// An identifier or keyword starting at `p`.
pub open spec fn sp_identifier(s: Seq<char>, p: int) -> (Outcome, int) {
    let e = ident_end(s, p + 1);
    let word = s.subrange(p, e);
    match spec_keyword(word) {
        Some(k) => (tok(Type::Keyword(k)), e),
        None => (Ok((Type::Identifier, DataView::Identifier(word))), e),
    }
}

/// Further digits of an integer: every ASCII letter or digit that follows
/// must be a digit of the radix.
pub open spec fn sp_digits_more(s: Seq<char>, q: int, radix: u32, v: int) -> (
    Result<int, Reason>,
    int,
)
    decreases s.len() - q,
{
    if 0 <= q < s.len() && spec_is_ascii_alphanumeric(s[q]) {
        match spec_to_digit(s[q], radix) {
            None => (Err(Reason::InvalidDigit(s[q])), q + 1),
            Some(d) => sp_digits_more(s, q + 1, radix, v * radix + d),
        }
    } else {
        (Ok(v), q)
    }
}

/// An integer in the given radix, from its first digit.
pub open spec fn sp_digits(s: Seq<char>, q: int, radix: u32) -> (Result<int, Reason>, int) {
    if q < 0 || q >= s.len() {
        (Err(Reason::EndOfFile), q)
    } else {
        match spec_to_digit(s[q], radix) {
            None => (Err(Reason::InvalidDigit(s[q])), q + 1),
            Some(d) => sp_digits_more(s, q + 1, radix, d as int),
        }
    }
}

/// Whether reading further digits keeps every intermediate value within
/// a `u128`.
pub open spec fn digits_more_fit(s: Seq<char>, q: int, radix: u32, v: int) -> bool
    decreases s.len() - q,
{
    if 0 <= q < s.len() && spec_is_ascii_alphanumeric(s[q]) {
        &&& v * radix <= u128::MAX
        &&& match spec_to_digit(s[q], radix) {
            None => true,
            Some(d) => v * radix + d <= u128::MAX && digits_more_fit(s, q + 1, radix, v * radix + d),
        }
    } else {
        true
    }
}

pub open spec fn digits_fit(s: Seq<char>, q: int, radix: u32) -> bool {
    0 <= q < s.len() ==> match spec_to_digit(s[q], radix) {
        None => true,
        Some(d) => digits_more_fit(s, q + 1, radix, d as int),
    }
}

/// An integer after a leading `0`: a base letter and digits, more decimal
/// digits, or just zero.
pub open spec fn sp_int_with_base(s: Seq<char>, q: int) -> (Result<int, Reason>, int) {
    if peek_is(s, q, 'x') {
        sp_digits(s, q + 1, 16)
    } else if peek_is(s, q, 'd') {
        sp_digits(s, q + 1, 10)
    } else if peek_is(s, q, 'o') {
        sp_digits(s, q + 1, 8)
    } else if peek_is(s, q, 'b') {
        sp_digits(s, q + 1, 2)
    } else if 0 <= q < s.len() && is_ascii_digit(s[q]) {
        sp_digits(s, q, 10)
    } else {
        (Ok(0), q)
    }
}

pub open spec fn int_with_base_fits(s: Seq<char>, q: int) -> bool {
    if peek_is(s, q, 'x') {
        digits_fit(s, q + 1, 16)
    } else if peek_is(s, q, 'd') {
        digits_fit(s, q + 1, 10)
    } else if peek_is(s, q, 'o') {
        digits_fit(s, q + 1, 8)
    } else if peek_is(s, q, 'b') {
        digits_fit(s, q + 1, 2)
    } else if 0 <= q < s.len() && is_ascii_digit(s[q]) {
        digits_fit(s, q, 10)
    } else {
        true
    }
}

pub open spec fn int_outcome(r: (Result<int, Reason>, int)) -> (Outcome, int) {
    match r.0 {
        Ok(v) => (Ok((Type::Integer, DataView::Integer(v as u128))), r.1),
        Err(e) => (Err(e), r.1),
    }
}

/// One digit of an escape sequence.
pub open spec fn sp_digit(s: Seq<char>, q: int, radix: u32) -> (Result<u32, Reason>, int) {
    if q < 0 || q >= s.len() {
        (Err(Reason::EndOfFile), q)
    } else {
        match spec_to_digit(s[q], radix) {
            None => (Err(Reason::InvalidDigit(s[q])), q + 1),
            Some(d) => (Ok(d), q + 1),
        }
    }
}

pub open spec fn char_or_bad(v: u32) -> Result<char, Reason> {
    match spec_char_from_u32(v) {
        Some(c) => Ok(c),
        None => Err(Reason::BadUnicode(v)),
    }
}

/// A two-digit hex escape, after the `x`.
pub open spec fn sp_hex_escape(s: Seq<char>, q: int) -> (Result<char, Reason>, int) {
    let (d1, q1) = sp_digit(s, q, 16);
    match d1 {
        Err(e) => (Err(e), q1),
        Ok(d1) => {
            let (d2, q2) = sp_digit(s, q1, 16);
            match d2 {
                Err(e) => (Err(e), q2),
                Ok(d2) => (char_or_bad((d1 * 16 + d2) as u32), q2),
            }
        },
    }
}

/// The hex digits of a `\u{...}` escape, up to the closing brace.
pub open spec fn sp_unicode_body(s: Seq<char>, q: int, out: u32) -> (Result<char, Reason>, int)
    decreases s.len() - q,
{
    if q < 0 || q >= s.len() {
        (Err(Reason::InvalidEscape('u')), q)
    } else if s[q] == '}' {
        (char_or_bad(out), q + 1)
    } else {
        match spec_to_digit(s[q], 16) {
            None => (Err(Reason::InvalidDigit(s[q])), q + 1),
            Some(d) => sp_unicode_body(s, q + 1, shift_in(out, d as u8)),
        }
    }
}

/// A unicode escape, after the `u`.
pub open spec fn sp_unicode_escape(s: Seq<char>, q: int) -> (Result<char, Reason>, int) {
    if peek_is(s, q, '{') {
        sp_unicode_body(s, q + 1, 0)
    } else {
        (Err(Reason::InvalidEscape('u')), q)
    }
}

/// One char of a string or char literal, unescaping escape sequences.
pub open spec fn sp_unescape(s: Seq<char>, q: int) -> (Result<char, Reason>, int) {
    if q < 0 || q >= s.len() {
        (Err(Reason::EndOfFile), q)
    } else if s[q] != '\\' {
        (Ok(s[q]), q + 1)
    } else if q + 1 >= s.len() {
        (Err(Reason::EndOfFile), q + 1)
    } else {
        let e = s[q + 1];
        let q2 = q + 2;
        if e == 'a' {
            (Ok('\x07'), q2)
        } else if e == 'b' {
            (Ok('\x08'), q2)
        } else if e == 'f' {
            (Ok('\x0c'), q2)
        } else if e == 'n' {
            (Ok('\n'), q2)
        } else if e == 'r' {
            (Ok('\r'), q2)
        } else if e == 't' {
            (Ok('\t'), q2)
        } else if e == 'x' {
            sp_hex_escape(s, q2)
        } else if e == 'u' {
            sp_unicode_escape(s, q2)
        } else if e == '0' {
            (Ok('\0'), q2)
        } else {
            (Ok(e), q2)
        }
    }
}

/// The rest of a string literal, with the chars `acc` read so far.
pub open spec fn sp_string(s: Seq<char>, q: int, acc: Seq<char>) -> (Outcome, int)
    decreases s.len() - q,
{
    if q < 0 || q >= s.len() {
        (Err(Reason::UnmatchedDelimiters('"')), q)
    } else if s[q] == '"' {
        (Ok((Type::String, DataView::String(acc))), q + 1)
    } else {
        let (r, q1) = sp_unescape(s, q);
        match r {
            Err(e) => (Err(e), q1),
            Ok(c) => if q < q1 <= s.len() {
                sp_string(s, q1, acc.push(c))
            } else {
                (Err(Reason::EndOfFile), q1)
            },
        }
    }
}

/// A char literal, after the opening quote.
pub open spec fn sp_character(s: Seq<char>, q: int) -> (Outcome, int) {
    let (r, q1) = sp_unescape(s, q);
    match r {
        Err(e) => (Err(e), q1),
        Ok(c) => if q1 < 0 || q1 >= s.len() {
            (Err(Reason::EndOfFile), q1)
        } else if s[q1] == '\'' {
            (Ok((Type::Character, DataView::Character(c))), q1 + 1)
        } else {
            (Err(Reason::UnmatchedDelimiters('\'')), q1)
        },
    }
}

/// The token (or error) that starts at position `p`, and the position
/// where the lexer stops.
pub open spec fn lex_at(s: Seq<char>, p: int) -> (Outcome, int) {
    if p < 0 || p >= s.len() {
        (Err(Reason::EndOfFile), p)
    } else {
        let c = s[p];
        let q = p + 1;
        if c == '{' {
            (tok(Type::LCurly), q)
        } else if c == '}' {
            (tok(Type::RCurly), q)
        } else if c == '[' {
            (tok(Type::LBrack), q)
        } else if c == ']' {
            (tok(Type::RBrack), q)
        } else if c == '(' {
            (tok(Type::LParen), q)
        } else if c == ')' {
            (tok(Type::RParen), q)
        } else if c == '&' {
            sp_pick2(s, q, '&', Type::AmpAmp, '=', Type::AmpEq, Type::Amp)
        } else if c == '@' {
            (tok(Type::At), q)
        } else if c == '\\' {
            (tok(Type::Backslash), q)
        } else if c == '!' {
            sp_pick2(s, q, '!', Type::BangBang, '=', Type::BangEq, Type::Bang)
        } else if c == '|' {
            sp_pick2(s, q, '|', Type::BarBar, '=', Type::BarEq, Type::Bar)
        } else if c == ':' {
            sp_pick1(s, q, ':', Type::ColonColon, Type::Colon)
        } else if c == ',' {
            (tok(Type::Comma), q)
        } else if c == '.' {
            sp_dot(s, q)
        } else if c == '=' {
            sp_pick2(s, q, '=', Type::EqEq, '>', Type::FatArrow, Type::Eq)
        } else if c == '`' {
            (tok(Type::Grave), q)
        } else if c == '>' {
            sp_angle(s, q, '>', Type::Gt, Type::GtEq, Type::GtGt, Type::GtGtEq)
        } else if c == '#' {
            sp_pick1(s, q, '!', Type::HashBang, Type::Hash)
        } else if c == '<' {
            sp_angle(s, q, '<', Type::Lt, Type::LtEq, Type::LtLt, Type::LtLtEq)
        } else if c == '-' {
            sp_pick2(s, q, '=', Type::MinusEq, '>', Type::Arrow, Type::Minus)
        } else if c == '+' {
            sp_pick1(s, q, '=', Type::PlusEq, Type::Plus)
        } else if c == '?' {
            (tok(Type::Question), q)
        } else if c == '%' {
            sp_pick1(s, q, '=', Type::RemEq, Type::Rem)
        } else if c == ';' {
            (tok(Type::Semi), q)
        } else if c == '/' {
            sp_slash(s, q)
        } else if c == '*' {
            sp_pick1(s, q, '=', Type::StarEq, Type::Star)
        } else if c == '~' {
            (tok(Type::Tilde), q)
        } else if c == '^' {
            sp_pick2(s, q, '=', Type::XorEq, '^', Type::XorXor, Type::Xor)
        } else if c == '0' {
            int_outcome(sp_int_with_base(s, q))
        } else if '1' <= c && c <= '9' {
            int_outcome(sp_digits(s, p, 10))
        } else if c == '"' {
            sp_string(s, q, Seq::empty())
        } else if c == '\'' {
            sp_character(s, q)
        } else if c == '_' || ident_start(c) {
            sp_identifier(s, p)
        } else {
            (Err(Reason::UnexpectedChar(c)), q)
        }
    }
}

/// Whether the integer literal, if any, that starts at `p` fits in a
/// `u128` at every step of reading it.
pub open spec fn literal_fits(s: Seq<char>, p: int) -> bool {
    0 <= p < s.len() ==> {
        if s[p] == '0' {
            int_with_base_fits(s, p + 1)
        } else if '1' <= s[p] && s[p] <= '9' {
            digits_fit(s, p, 10)
        } else {
            true
        }
    }
}

// ---------------------------------------------------------------------
// The lexer
// ---------------------------------------------------------------------

/// A place in the text: how many chars were read, and the line and
/// column reached.
#[derive(Clone, Copy, Debug)]
struct Cursor {
    pos: usize,
    line: u32,
    col: u32,
}

/// The Lexer iterates over the characters in a body of text, searching
/// for [Tokens](Token).
#[derive(Clone, Debug)]
pub struct Lexer {
    text: Vec<char>,
    /// Where the token being read starts
    start: Cursor,
    /// Where reading resumes
    cur: Cursor,
}

spec fn cursor_at(s: Seq<char>, c: Cursor) -> bool {
    &&& c.pos <= s.len()
    &&& (c.line as int, c.col as int) == loc_at(s, c.pos as int)
}

/// The state after reading a token (or failing to): `r` is what the
/// grammar gives, `o`, at the old position.
pub open spec fn scanned(old: Lexer, new: Lexer, o: (Outcome, int), r: LResult<Token>) -> bool {
    &&& new.wf()
    &&& new.text() == old.text()
    &&& new.position() == o.1
    &&& match r {
        Ok(t) => {
            &&& o.0 == Ok::<(Type, DataView), Reason>((t.spec_ty(), t.spec_data()))
            &&& (t.spec_line() as int, t.spec_col() as int) == old.start_loc()
            &&& new.token_start() == new.position()
        },
        Err(e) => {
            &&& o.0 == Err::<(Type, DataView), Reason>(e.reason)
            &&& (e.line as int, e.col as int) == old.start_loc()
            &&& new.token_start() == old.token_start()
        },
    }
}

/// The state after reading part of a token: `r` and the new position are
/// what the grammar gives, `o`, at the old position.
pub open spec fn advanced<T>(old: Lexer, new: Lexer, o: (Result<T, Reason>, int), r: Result<T, Reason>) -> bool {
    &&& new.wf()
    &&& new.text() == old.text()
    &&& new.token_start() == old.token_start()
    &&& new.start_loc() == old.start_loc()
    &&& new.position() == o.1
    &&& r == o.0
}

impl Lexer {
    /// The chars of the text.
    pub closed spec fn text(&self) -> Seq<char> {
        self.text@
    }

    /// How many chars have been read.
    pub closed spec fn position(&self) -> int {
        self.cur.pos as int
    }

    /// Where the current token starts.
    pub closed spec fn token_start(&self) -> int {
        self.start.pos as int
    }

    /// The (line, column) of the current token's start.
    pub closed spec fn start_loc(&self) -> (int, int) {
        (self.start.line as int, self.start.col as int)
    }

    pub closed spec fn wf(&self) -> bool {
        &&& self.text@.len() + 2 <= u32::MAX
        &&& cursor_at(self.text@, self.start)
        &&& cursor_at(self.text@, self.cur)
    }

    /// Creates a new [Lexer] over a [str].
    pub fn new(text: &str) -> (r: Self)
        requires
            text@.len() + 2 <= u32::MAX,
        ensures
            r.wf(),
            r.text() == text@,
            r.position() == 0,
            r.token_start() == 0,
    {
        let chars = str_to_chars(text);
        Lexer {
            text: chars,
            start: Cursor { pos: 0, line: 1, col: 1 },
            cur: Cursor { pos: 0, line: 1, col: 1 },
        }
    }

    /// Returns the line of the current token.
    pub fn line(&self) -> (r: u32)
        ensures
            r as int == self.start_loc().0,
    {
        self.start.line
    }

    /// Returns the column of the current token.
    pub fn col(&self) -> (r: u32)
        ensures
            r as int == self.start_loc().1,
    {
        self.start.col
    }

    fn error(&self, reason: Reason) -> (r: Error)
        ensures
            r.reason == reason,
            (r.line as int, r.col as int) == self.start_loc(),
    {
        Error { reason, line: self.start.line, col: self.start.col }
    }

    fn peek(&self) -> (r: Option<char>)
        requires
            self.wf(),
        ensures
            r == (if self.position() < self.text().len() {
                Some(self.text()[self.position()])
            } else {
                None
            }),
    {
        if self.cur.pos < self.text.len() {
            Some(self.text[self.cur.pos])
        } else {
            None
        }
    }

    fn peek_is(&self, c: char) -> (r: bool)
        requires
            self.wf(),
        ensures
            r == peek_is(self.text(), self.position(), c),
    {
        self.cur.pos < self.text.len() && self.text[self.cur.pos] == c
    }

    fn consume(&mut self)
        requires
            old(self).wf(),
            old(self).position() < old(self).text().len(),
        ensures
            final(self).wf(),
            final(self).text() == old(self).text(),
            final(self).start == old(self).start,
            final(self).position() == old(self).position() + 1,
    {
        let c = self.text[self.cur.pos];
        proof {
            lemma_loc_bounds(self.text@, self.cur.pos as int);
        }
        let next = if c == '\n' {
            Cursor { pos: self.cur.pos + 1, line: self.cur.line + 1, col: 1 }
        } else {
            Cursor { pos: self.cur.pos + 1, line: self.cur.line, col: self.cur.col + 1 }
        };
        self.cur = next;
    }

    fn produce(&mut self, ty: Type, data: TokenData) -> (r: Token)
        requires
            old(self).wf(),
        ensures
            final(self).wf(),
            final(self).text() == old(self).text(),
            final(self).position() == old(self).position(),
            final(self).token_start() == old(self).position(),
            r.spec_ty() == ty,
            r.spec_data() == data@,
            (r.spec_line() as int, r.spec_col() as int) == old(self).start_loc(),
    {
        let loc = self.start;
        self.start = self.cur;
        Token::new(ty, data, loc.line, loc.col)
    }

    fn skip_whitespace(&mut self)
        requires
            old(self).wf(),
        ensures
            final(self).wf(),
            final(self).text() == old(self).text(),
            final(self).position() == skip_ws(old(self).text(), old(self).position()),
            final(self).token_start() == final(self).position(),
            final(self).start_loc() == loc_at(final(self).text(), final(self).position()),
    {
        let ghost s = self.text@;
        let ghost p0 = self.cur.pos as int;
        while self.cur.pos < self.text.len() && is_whitespace(self.text[self.cur.pos])
            invariant
                self.wf(),
                self.text@ == s,
                skip_ws(s, p0) == skip_ws(s, self.cur.pos as int),
            decreases s.len() - self.cur.pos,
        {
            self.consume();
        }
        self.start = self.cur;
    }

    fn pick2(&mut self, c1: char, t1: Type, c2: char, t2: Type, d: Type) -> (r: LResult<Token>)
        requires
            old(self).wf(),
        ensures
            scanned(*old(self), *final(self), sp_pick2(old(self).text(), old(self).position(), c1, t1, c2, t2, d), r),
    {
        if self.peek_is(c1) {
            self.consume();
            Ok(self.produce(t1, TokenData::NoData))
        } else if self.peek_is(c2) {
            self.consume();
            Ok(self.produce(t2, TokenData::NoData))
        } else {
            Ok(self.produce(d, TokenData::NoData))
        }
    }

    fn pick1(&mut self, c1: char, t1: Type, d: Type) -> (r: LResult<Token>)
        requires
            old(self).wf(),
        ensures
            scanned(*old(self), *final(self), sp_pick1(old(self).text(), old(self).position(), c1, t1, d), r),
    {
        if self.peek_is(c1) {
            self.consume();
            Ok(self.produce(t1, TokenData::NoData))
        } else {
            Ok(self.produce(d, TokenData::NoData))
        }
    }

    /// Consumes one char and produces a token of the given type.
    fn single(&mut self, t: Type) -> (r: LResult<Token>)
        requires
            old(self).wf(),
            old(self).position() < old(self).text().len(),
        ensures
            scanned(*old(self), *final(self), (tok(t), old(self).position() + 1), r),
    {
        self.consume();
        Ok(self.produce(t, TokenData::NoData))
    }

    fn dot(&mut self) -> (r: LResult<Token>)
        requires
            old(self).wf(),
        ensures
            scanned(*old(self), *final(self), sp_dot(old(self).text(), old(self).position()), r),
    {
        if self.peek_is('.') {
            self.consume();
            if self.peek_is('=') {
                self.consume();
                Ok(self.produce(Type::DotDotEq, TokenData::NoData))
            } else {
                Ok(self.produce(Type::DotDot, TokenData::NoData))
            }
        } else {
            Ok(self.produce(Type::Dot, TokenData::NoData))
        }
    }

    fn angle(&mut self, c: char, one: Type, eq: Type, two: Type, two_eq: Type) -> (r: LResult<Token>)
        requires
            old(self).wf(),
        ensures
            scanned(*old(self), *final(self), sp_angle(old(self).text(), old(self).position(), c, one, eq, two, two_eq), r),
    {
        if self.peek_is('=') {
            self.consume();
            Ok(self.produce(eq, TokenData::NoData))
        } else if self.peek_is(c) {
            self.consume();
            if self.peek_is('=') {
                self.consume();
                Ok(self.produce(two_eq, TokenData::NoData))
            } else {
                Ok(self.produce(two, TokenData::NoData))
            }
        } else {
            Ok(self.produce(one, TokenData::NoData))
        }
    }

    fn line_comment(&mut self) -> (r: LResult<Token>)
        requires
            old(self).wf(),
        ensures
            scanned(*old(self), *final(self), sp_line_comment(old(self).text(), old(self).position()), r),
    {
        let ghost s = self.text@;
        let ghost q0 = self.cur.pos as int;
        while !self.peek_is('\n')
            invariant
                self.wf(),
                self.text@ == s,
                self.start == old(self).start,
                s == old(self).text(),
                q0 == old(self).position(),
                sp_line_comment(s, q0) == sp_line_comment(s, self.cur.pos as int),
            decreases s.len() - self.cur.pos,
        {
            if self.cur.pos >= self.text.len() {
                return Err(self.error(Reason::EndOfFile));
            }
            self.consume();
        }
        Ok(self.produce(Type::Comment, TokenData::NoData))
    }

    fn block_comment(&mut self) -> (r: LResult<Token>)
        requires
            old(self).wf(),
        ensures
            scanned(*old(self), *final(self), sp_block_comment(old(self).text(), old(self).position()), r),
    {
        let ghost s = self.text@;
        let ghost q0 = self.cur.pos as int;
        let mut done = false;
        while !done && self.cur.pos < self.text.len()
            invariant
                self.wf(),
                self.text@ == s,
                self.start == old(self).start,
                s == old(self).text(),
                q0 == old(self).position(),
                done ==> sp_block_comment(s, q0) == (tok(Type::Comment), self.cur.pos as int),
                !done ==> sp_block_comment(s, q0) == sp_block_comment(s, self.cur.pos as int),
            decreases s.len() - self.cur.pos,
        {
            let c = self.text[self.cur.pos];
            self.consume();
            if c == '*' {
                if self.cur.pos >= self.text.len() {
                    done = true;
                } else {
                    let d = self.text[self.cur.pos];
                    self.consume();
                    if d == '/' {
                        done = true;
                    }
                }
            }
        }
        Ok(self.produce(Type::Comment, TokenData::NoData))
    }

    fn slash(&mut self) -> (r: LResult<Token>)
        requires
            old(self).wf(),
        ensures
            scanned(*old(self), *final(self), sp_slash(old(self).text(), old(self).position()), r),
    {
        if self.peek_is('=') {
            self.consume();
            Ok(self.produce(Type::SlashEq, TokenData::NoData))
        } else if self.peek_is('/') {
            self.consume();
            self.line_comment()
        } else if self.peek_is('*') {
            self.consume();
            self.block_comment()
        } else {
            Ok(self.produce(Type::Slash, TokenData::NoData))
        }
    }

    /// Reads one char as a digit of the given radix.
    fn digit(&mut self, radix: u32) -> (r: Result<u32, Reason>)
        requires
            old(self).wf(),
            radix <= 36,
        ensures
            advanced(*old(self), *final(self), sp_digit(old(self).text(), old(self).position(), radix), r),
    {
        let c = match self.peek() {
            None => return Err(Reason::EndOfFile),
            Some(c) => c,
        };
        self.consume();
        match to_digit(c, radix) {
            Some(d) => Ok(d),
            None => Err(Reason::InvalidDigit(c)),
        }
    }

    fn next_is_alphanumeric(&self) -> (r: bool)
        requires
            self.wf(),
        ensures
            r == (self.position() < self.text().len() && spec_is_ascii_alphanumeric(
                self.text()[self.position()],
            )),
    {
        self.cur.pos < self.text.len() && is_ascii_alphanumeric(self.text[self.cur.pos])
    }

    /// Reads an integer literal in the given radix, from its first digit.
    fn digits(&mut self, radix: u32) -> (r: LResult<Token>)
        requires
            old(self).wf(),
            2 <= radix <= 36,
            digits_fit(old(self).text(), old(self).position(), radix),
        ensures
            scanned(*old(self), *final(self), int_outcome(sp_digits(old(self).text(), old(self).position(), radix)), r),
    {
        let ghost s = self.text@;
        let ghost q0 = self.cur.pos as int;
        let first = match self.digit(radix) {
            Err(e) => return Err(self.error(e)),
            Ok(d) => d,
        };
        let mut value: u128 = first as u128;
        while self.next_is_alphanumeric()
            invariant
                self.wf(),
                self.text@ == s,
                self.start == old(self).start,
                s == old(self).text(),
                q0 == old(self).position(),
                2 <= radix <= 36,
                sp_digits(s, q0, radix) == sp_digits_more(s, self.cur.pos as int, radix, value as int),
                digits_more_fit(s, self.cur.pos as int, radix, value as int),
            decreases s.len() - self.cur.pos,
        {
            let m: u128 = value * (radix as u128);
            let d = match self.digit(radix) {
                Err(e) => return Err(self.error(e)),
                Ok(d) => d,
            };
            value = m + d as u128;
        }
        Ok(self.produce(Type::Integer, TokenData::Integer(value)))
    }

    /// Reads an integer literal after its leading `0`.
    fn int_with_base(&mut self) -> (r: LResult<Token>)
        requires
            old(self).wf(),
            int_with_base_fits(old(self).text(), old(self).position()),
        ensures
            scanned(*old(self), *final(self), int_outcome(sp_int_with_base(old(self).text(), old(self).position())), r),
    {
        match self.peek() {
            Some('x') => {
                self.consume();
                self.digits(16)
            },
            Some('d') => {
                self.consume();
                self.digits(10)
            },
            Some('o') => {
                self.consume();
                self.digits(8)
            },
            Some('b') => {
                self.consume();
                self.digits(2)
            },
            Some(c) => if '0' <= c && c <= '9' {
                self.digits(10)
            } else {
                Ok(self.produce(Type::Integer, TokenData::Integer(0)))
            },
            None => Ok(self.produce(Type::Integer, TokenData::Integer(0))),
        }
    }

    fn next_is_xid_continue(&self) -> (r: bool)
        requires
            self.wf(),
        ensures
            r == (self.position() < self.text().len() && ident_continue(
                self.text()[self.position()],
            )),
    {
        self.cur.pos < self.text.len() && is_xid_continue(self.text[self.cur.pos])
    }

    /// Reads an identifier or keyword.
    fn identifier(&mut self) -> (r: LResult<Token>)
        requires
            old(self).wf(),
            old(self).position() < old(self).text().len(),
            old(self).text()[old(self).position()] == '_' || ident_start(
                old(self).text()[old(self).position()],
            ),
        ensures
            scanned(*old(self), *final(self), sp_identifier(old(self).text(), old(self).position()), r),
    {
        let ghost s = self.text@;
        let ghost p = self.cur.pos as int;
        let mut out: Vec<char> = Vec::new();
        out.push(self.text[self.cur.pos]);
        self.consume();
        while self.next_is_xid_continue()
            invariant
                self.wf(),
                self.text@ == s,
                self.start == old(self).start,
                s == old(self).text(),
                p == old(self).position(),
                p < self.cur.pos,
                out@ == s.subrange(p, self.cur.pos as int),
                ident_end(s, p + 1) == ident_end(s, self.cur.pos as int),
            decreases s.len() - self.cur.pos,
        {
            let c = self.text[self.cur.pos];
            out.push(c);
            self.consume();
            assert(out@ == s.subrange(p, self.cur.pos as int));
        }
        match keyword_from_chars(out.as_slice()) {
            Some(k) => Ok(self.produce(Type::Keyword(k), TokenData::NoData)),
            None => {
                let name = chars_to_string(out.as_slice());
                Ok(self.produce(Type::Identifier, TokenData::Identifier(name)))
            },
        }
    }

    /// Reads a two-digit hex escape, after the `x`.
    fn hex_escape(&mut self) -> (r: Result<char, Reason>)
        requires
            old(self).wf(),
        ensures
            advanced(*old(self), *final(self), sp_hex_escape(old(self).text(), old(self).position()), r),
    {
        let d1 = self.digit(16)?;
        let d2 = self.digit(16)?;
        assert(d1 < 16 && d2 < 16);
        assert((d1 << 4u32) == d1 * 16) by (bit_vector)
            requires
                d1 < 16,
        ;
        let out: u32 = (d1 << 4u32) + d2;
        match char_from_u32(out) {
            Some(c) => Ok(c),
            None => Err(Reason::BadUnicode(out)),
        }
    }

    /// Reads a unicode escape `{...}`, after the `u`.
    fn unicode_escape(&mut self) -> (r: Result<char, Reason>)
        requires
            old(self).wf(),
        ensures
            advanced(*old(self), *final(self), sp_unicode_escape(old(self).text(), old(self).position()), r),
    {
        let ghost s = self.text@;
        if !self.peek_is('{') {
            return Err(Reason::InvalidEscape('u'));
        }
        self.consume();
        let mut out: u32 = 0;
        while self.cur.pos < self.text.len()
            invariant
                self.wf(),
                self.text@ == s,
                self.start == old(self).start,
                s == old(self).text(),
                sp_unicode_escape(s, old(self).position()) == sp_unicode_body(s, self.cur.pos as int, out),
            decreases s.len() - self.cur.pos,
        {
            let c = self.text[self.cur.pos];
            if c == '}' {
                self.consume();
                return match char_from_u32(out) {
                    Some(c) => Ok(c),
                    None => Err(Reason::BadUnicode(out)),
                };
            }
            let d = self.digit(16)?;
            assert((out << 4u32) + d == shift_in(out, d as u8)) by (bit_vector)
                requires
                    d < 16,
            ;
            out = (out << 4u32) + d;
        }
        Err(Reason::InvalidEscape('u'))
    }

    /// Unescapes a single character.
    fn unescape(&mut self) -> (r: Result<char, Reason>)
        requires
            old(self).wf(),
        ensures
            advanced(*old(self), *final(self), sp_unescape(old(self).text(), old(self).position()), r),
    {
        let c = match self.peek() {
            None => return Err(Reason::EndOfFile),
            Some(c) => c,
        };
        self.consume();
        if c != '\\' {
            return Ok(c);
        }
        let e = match self.peek() {
            None => return Err(Reason::EndOfFile),
            Some(e) => e,
        };
        self.consume();
        match e {
            'a' => Ok('\x07'),
            'b' => Ok('\x08'),
            'f' => Ok('\x0c'),
            'n' => Ok('\n'),
            'r' => Ok('\r'),
            't' => Ok('\t'),
            'x' => self.hex_escape(),
            'u' => self.unicode_escape(),
            '0' => Ok('\0'),
            chr => Ok(chr),
        }
    }

    /// Reads a string literal, after the opening quote.
    fn string(&mut self) -> (r: LResult<Token>)
        requires
            old(self).wf(),
        ensures
            scanned(*old(self), *final(self), sp_string(old(self).text(), old(self).position(), Seq::empty()), r),
    {
        let ghost s = self.text@;
        let mut value: Vec<char> = Vec::new();
        loop
            invariant
                self.wf(),
                self.text@ == s,
                self.start == old(self).start,
                s == old(self).text(),
                sp_string(s, old(self).position(), Seq::empty()) == sp_string(s, self.cur.pos as int, value@),
            decreases s.len() - self.cur.pos,
        {
            match self.peek() {
                None => return Err(self.error(Reason::UnmatchedDelimiters('"'))),
                Some('"') => {
                    self.consume();
                    let text = chars_to_string(value.as_slice());
                    return Ok(self.produce(Type::String, TokenData::String(text)));
                },
                Some(_) => {},
            }
            let ghost q = self.cur.pos as int;
            let c = match self.unescape() {
                Err(e) => return Err(self.error(e)),
                Ok(c) => c,
            };
            proof {
                lemma_unescape_advances(s, q);
            }
            value.push(c);
        }
    }

    /// Reads a char literal, after the opening quote.
    fn character(&mut self) -> (r: LResult<Token>)
        requires
            old(self).wf(),
        ensures
            scanned(*old(self), *final(self), sp_character(old(self).text(), old(self).position()), r),
    {
        let out = match self.unescape() {
            Err(e) => return Err(self.error(e)),
            Ok(c) => c,
        };
        match self.peek() {
            None => Err(self.error(Reason::EndOfFile)),
            Some('\'') => {
                self.consume();
                Ok(self.produce(Type::Character, TokenData::Character(out)))
            },
            Some(_) => Err(self.error(Reason::UnmatchedDelimiters('\''))),
        }
    }

    /// Whether the next token, if it is an integer literal, fits in a `u128`.
    pub open spec fn next_literal_fits(&self) -> bool {
        literal_fits(self.text(), skip_ws(self.text(), self.position()))
    }

    /// Scans through the text, searching for the next [Token].
    ///
    /// Whitespace is skipped; then the token that starts there is read, as
    /// [lex_at] states. Tokens and errors carry the line and column where
    /// the token starts. An integer literal whose value does not fit in a
    /// `u128` is not accepted.
    pub fn scan(&mut self) -> (r: LResult<Token>)
        requires
            old(self).wf(),
            old(self).next_literal_fits(),
        ensures
            ({
                let p = skip_ws(old(self).text(), old(self).position());
                let (o, e) = lex_at(old(self).text(), p);
                &&& final(self).wf()
                &&& final(self).text() == old(self).text()
                &&& final(self).position() == e
                &&& match r {
                    Ok(t) => {
                        &&& o == Ok::<(Type, DataView), Reason>((t.spec_ty(), t.spec_data()))
                        &&& (t.spec_line() as int, t.spec_col() as int) == loc_at(old(self).text(), p)
                        &&& final(self).token_start() == e
                    },
                    Err(err) => {
                        &&& o == Err::<(Type, DataView), Reason>(err.reason)
                        &&& (err.line as int, err.col as int) == loc_at(old(self).text(), p)
                        &&& final(self).token_start() == p
                    },
                }
            }),
    {
        self.skip_whitespace();
        let c = match self.peek() {
            None => return Err(self.error(Reason::EndOfFile)),
            Some(c) => c,
        };
        match c {
            '{' => self.single(Type::LCurly),
            '}' => self.single(Type::RCurly),
            '[' => self.single(Type::LBrack),
            ']' => self.single(Type::RBrack),
            '(' => self.single(Type::LParen),
            ')' => self.single(Type::RParen),
            '&' => {
                self.consume();
                self.pick2('&', Type::AmpAmp, '=', Type::AmpEq, Type::Amp)
            },
            '@' => self.single(Type::At),
            '\\' => self.single(Type::Backslash),
            '!' => {
                self.consume();
                self.pick2('!', Type::BangBang, '=', Type::BangEq, Type::Bang)
            },
            '|' => {
                self.consume();
                self.pick2('|', Type::BarBar, '=', Type::BarEq, Type::Bar)
            },
            ':' => {
                self.consume();
                self.pick1(':', Type::ColonColon, Type::Colon)
            },
            ',' => self.single(Type::Comma),
            '.' => {
                self.consume();
                self.dot()
            },
            '=' => {
                self.consume();
                self.pick2('=', Type::EqEq, '>', Type::FatArrow, Type::Eq)
            },
            '`' => self.single(Type::Grave),
            '>' => {
                self.consume();
                self.angle('>', Type::Gt, Type::GtEq, Type::GtGt, Type::GtGtEq)
            },
            '#' => {
                self.consume();
                self.pick1('!', Type::HashBang, Type::Hash)
            },
            '<' => {
                self.consume();
                self.angle('<', Type::Lt, Type::LtEq, Type::LtLt, Type::LtLtEq)
            },
            '-' => {
                self.consume();
                self.pick2('=', Type::MinusEq, '>', Type::Arrow, Type::Minus)
            },
            '+' => {
                self.consume();
                self.pick1('=', Type::PlusEq, Type::Plus)
            },
            '?' => self.single(Type::Question),
            '%' => {
                self.consume();
                self.pick1('=', Type::RemEq, Type::Rem)
            },
            ';' => self.single(Type::Semi),
            '/' => {
                self.consume();
                self.slash()
            },
            '*' => {
                self.consume();
                self.pick1('=', Type::StarEq, Type::Star)
            },
            '~' => self.single(Type::Tilde),
            '^' => {
                self.consume();
                self.pick2('=', Type::XorEq, '^', Type::XorXor, Type::Xor)
            },
            '0' => {
                self.consume();
                self.int_with_base()
            },
            '"' => {
                self.consume();
                self.string()
            },
            '\'' => {
                self.consume();
                self.character()
            },
            '_' => self.identifier(),
            c => if '1' <= c && c <= '9' {
                self.digits(10)
            } else if is_xid_start(c) {
                self.identifier()
            } else {
                let err = self.error(Reason::UnexpectedChar(c));
                self.consume();
                Err(err)
            },
        }
    }

    /// The next token, or nothing at the end of the input: scanning as
    /// [Lexer::scan] does, with the end-of-file error turned into `None`.
    pub fn next_token(&mut self) -> (r: Option<LResult<Token>>)
        requires
            old(self).wf(),
            old(self).next_literal_fits(),
        ensures
            ({
                let p = skip_ws(old(self).text(), old(self).position());
                let (o, e) = lex_at(old(self).text(), p);
                &&& final(self).wf()
                &&& final(self).text() == old(self).text()
                &&& final(self).position() == e
                &&& match r {
                    None => o == Err::<(Type, DataView), Reason>(Reason::EndOfFile),
                    Some(Ok(t)) => {
                        &&& o == Ok::<(Type, DataView), Reason>((t.spec_ty(), t.spec_data()))
                        &&& (t.spec_line() as int, t.spec_col() as int) == loc_at(old(self).text(), p)
                    },
                    Some(Err(err)) => {
                        &&& o == Err::<(Type, DataView), Reason>(err.reason)
                        &&& err.reason != Reason::EndOfFile
                        &&& (err.line as int, err.col as int) == loc_at(old(self).text(), p)
                    },
                }
            }),
    {
        match self.scan() {
            Ok(v) => Some(Ok(v)),
            Err(e) => if e.reason == Reason::EndOfFile {
                None
            } else {
                Some(Err(e))
            },
        }
    }
}

proof fn lemma_unicode_body_advances(s: Seq<char>, q: int, out: u32)
    requires
        0 <= q,
    ensures
        sp_unicode_body(s, q, out).1 <= if q <= s.len() { s.len() as int } else { q },
        q <= sp_unicode_body(s, q, out).1,
    decreases s.len() - q,
{
    if 0 <= q < s.len() && s[q] != '}' {
        if let Some(d) = spec_to_digit(s[q], 16) {
            lemma_unicode_body_advances(s, q + 1, shift_in(out, d as u8));
        }
    }
}

/// Unescaping a char that succeeds reads at least one char and stays
/// within the text.
proof fn lemma_unescape_advances(s: Seq<char>, q: int)
    requires
        0 <= q <= s.len(),
    ensures
        q <= sp_unescape(s, q).1 <= s.len(),
        sp_unescape(s, q).0 is Ok ==> q < sp_unescape(s, q).1,
{
    if q + 3 <= s.len() && s[q] == '\\' && s[q + 1] == 'u' && s[q + 2] == '{' {
        lemma_unicode_body_advances(s, q + 3, 0);
    }
}

/// Whether the digits from `q` on keep every intermediate value of an
/// integer literal within a `u128`, starting from the value `v`.
fn check_digits_more(s: &Vec<char>, q: usize, radix: u32, v: u128) -> (r: bool)
    requires
        q <= s@.len(),
        2 <= radix <= 16,
    ensures
        r == digits_more_fit(s@, q as int, radix, v as int),
{
    let mut i = q;
    let mut cur = v;
    while i < s.len() && is_ascii_alphanumeric(s[i])
        invariant
            q <= i <= s@.len(),
            2 <= radix <= 16,
            digits_more_fit(s@, q as int, radix, v as int) == digits_more_fit(s@, i as int, radix, cur as int),
        decreases s@.len() - i,
    {
        let times = cur.checked_mul(radix as u128);
        match times {
            None => return false,
            Some(t) => match to_digit(s[i], radix) {
                None => return true,
                Some(d) => match t.checked_add(d as u128) {
                    None => return false,
                    Some(n) => {
                        cur = n;
                    },
                },
            },
        }
        i = i + 1;
    }
    true
}

/// Whether the digits of an integer literal from `q` on fit in a `u128`.
fn check_digits(s: &Vec<char>, q: usize, radix: u32) -> (r: bool)
    requires
        q <= s@.len(),
        2 <= radix <= 16,
    ensures
        r == digits_fit(s@, q as int, radix),
{
    if q < s.len() {
        match to_digit(s[q], radix) {
            None => true,
            Some(d) => check_digits_more(s, q + 1, radix, d as u128),
        }
    } else {
        true
    }
}

/// Whether the integer literal, if any, that starts at `p` fits in a
/// `u128`.
fn check_literal(s: &Vec<char>, p: usize) -> (r: bool)
    requires
        p <= s@.len(),
    ensures
        r == literal_fits(s@, p as int),
{
    if p >= s.len() {
        return true;
    }
    let c = s[p];
    if c == '0' {
        let q = p + 1;
        if q < s.len() && s[q] == 'x' {
            check_digits(s, q + 1, 16)
        } else if q < s.len() && s[q] == 'd' {
            check_digits(s, q + 1, 10)
        } else if q < s.len() && s[q] == 'o' {
            check_digits(s, q + 1, 8)
        } else if q < s.len() && s[q] == 'b' {
            check_digits(s, q + 1, 2)
        } else if q < s.len() && '0' <= s[q] && s[q] <= '9' {
            check_digits(s, q, 10)
        } else {
            true
        }
    } else if '1' <= c && c <= '9' {
        check_digits(s, p, 10)
    } else {
        true
    }
}

impl Lexer {
    /// Whether the next token, if it is an integer literal, fits in a
    /// `u128`: what [Lexer::scan] needs to read it.
    pub fn literal_ahead_fits(&self) -> (r: bool)
        requires
            self.wf(),
        ensures
            r == self.next_literal_fits(),
    {
        let mut i = self.cur.pos;
        while i < self.text.len() && is_whitespace(self.text[i])
            invariant
                self.cur.pos <= i <= self.text@.len(),
                skip_ws(self.text@, self.cur.pos as int) == skip_ws(self.text@, i as int),
            decreases self.text@.len() - i,
        {
            i = i + 1;
        }
        check_literal(&self.text, i)
    }
}

} // verus!
verus! {

proof fn lemma_line_comment_advances(s: Seq<char>, q: int)
    ensures
        sp_line_comment(s, q).1 >= q,
    decreases s.len() - q,
{
    if 0 <= q < s.len() && s[q] != '\n' {
        lemma_line_comment_advances(s, q + 1);
    }
}

proof fn lemma_block_comment_advances(s: Seq<char>, q: int)
    ensures
        sp_block_comment(s, q).1 >= q,
    decreases s.len() - q,
{
    if 0 <= q < s.len() {
        if s[q] == '*' {
            if q + 1 < s.len() && s[q + 1] != '/' {
                lemma_block_comment_advances(s, q + 2);
            }
        } else {
            lemma_block_comment_advances(s, q + 1);
        }
    }
}

proof fn lemma_ident_end_advances(s: Seq<char>, q: int)
    ensures
        ident_end(s, q) >= q,
    decreases s.len() - q,
{
    if 0 <= q < s.len() && ident_continue(s[q]) {
        lemma_ident_end_advances(s, q + 1);
    }
}

proof fn lemma_digits_more_advances(s: Seq<char>, q: int, radix: u32, v: int)
    ensures
        sp_digits_more(s, q, radix, v).1 >= q,
    decreases s.len() - q,
{
    if 0 <= q < s.len() && spec_is_ascii_alphanumeric(s[q]) {
        if let Some(d) = spec_to_digit(s[q], radix) {
            lemma_digits_more_advances(s, q + 1, radix, v * radix + d);
        }
    }
}

proof fn lemma_string_advances(s: Seq<char>, q: int, acc: Seq<char>)
    ensures
        sp_string(s, q, acc).1 >= q,
    decreases s.len() - q,
{
    if 0 <= q < s.len() && s[q] != '"' {
        lemma_unescape_advances(s, q);
        let (r, q1) = sp_unescape(s, q);
        if let Ok(c) = r {
            if q < q1 <= s.len() {
                lemma_string_advances(s, q1, acc.push(c));
            }
        }
    }
}

/// Inside a string or char literal, a backslash and a letter from the
/// escape table stand for one control char, given here by its code point:
/// `\a` is 7, `\b` is 8, `\t` is 9, `\n` is 10, `\f` is 12, `\r` is 13 and
/// `\0` is 0; a backslash before a quote, another backslash, or any char
/// that is not an escape letter stands for that char. Each takes two chars.
pub proof fn law_escape_table(s: Seq<char>, q: int)
    requires
        0 <= q,
        q + 1 < s.len(),
        s[q] == '\\',
    ensures
        sp_unescape(s, q).1 == q + 2 || s[q + 1] == 'x' || s[q + 1] == 'u',
        s[q + 1] == 'a' ==> sp_unescape(s, q).0 == Ok::<char, Reason>(7u32 as char),
        s[q + 1] == 'b' ==> sp_unescape(s, q).0 == Ok::<char, Reason>(8u32 as char),
        s[q + 1] == 't' ==> sp_unescape(s, q).0 == Ok::<char, Reason>(9u32 as char),
        s[q + 1] == 'n' ==> sp_unescape(s, q).0 == Ok::<char, Reason>(10u32 as char),
        s[q + 1] == 'f' ==> sp_unescape(s, q).0 == Ok::<char, Reason>(12u32 as char),
        s[q + 1] == 'r' ==> sp_unescape(s, q).0 == Ok::<char, Reason>(13u32 as char),
        s[q + 1] == '0' ==> sp_unescape(s, q).0 == Ok::<char, Reason>(0u32 as char),
        !(s[q + 1] == 'a' || s[q + 1] == 'b' || s[q + 1] == 't' || s[q + 1] == 'n' || s[q + 1] == 'f' || s[q + 1]
            == 'r' || s[q + 1] == '0' || s[q + 1] == 'x' || s[q + 1] == 'u') ==> sp_unescape(s, q).0 == Ok::<
            char,
            Reason,
        >(s[q + 1]),
        s[q + 1] == '\\' || s[q + 1] == '"' || s[q + 1] == '\'' ==> sp_unescape(s, q).0 == Ok::<char, Reason>(s[q + 1]),
{
    assert('\x07' as u32 == 7);
    assert('\x08' as u32 == 8);
    assert('\t' as u32 == 9);
    assert('\n' as u32 == 10);
    assert('\x0c' as u32 == 12);
    assert('\r' as u32 == 13);
    assert('\0' as u32 == 0);
}

/// Any char but a backslash stands for itself, and takes one char.
pub proof fn law_plain_char_unescapes_to_itself(s: Seq<char>, q: int)
    requires
        0 <= q < s.len(),
        s[q] != '\\',
    ensures
        sp_unescape(s, q) == (Ok::<char, Reason>(s[q]), q + 1),
{
}

/// The hex value of an ASCII hex digit.
pub open spec fn hex_value(c: char) -> int {
    if '0' <= c && c <= '9' {
        c as int - 48
    } else if 'a' <= c && c <= 'f' {
        c as int - 87
    } else {
        c as int - 55
    }
}

pub open spec fn is_hex_digit(c: char) -> bool {
    ('0' <= c && c <= '9') || ('a' <= c && c <= 'f') || ('A' <= c && c <= 'F')
}

/// `\x` and two hex digits stand for the char whose code is the number
/// they spell (high digit first); it takes four chars.
pub proof fn law_hex_escape(s: Seq<char>, q: int)
    requires
        0 <= q,
        q + 3 < s.len(),
        s[q] == '\\',
        s[q + 1] == 'x',
        is_hex_digit(s[q + 2]),
        is_hex_digit(s[q + 3]),
    ensures
        sp_unescape(s, q) == (Ok::<char, Reason>((hex_value(s[q + 2]) * 16 + hex_value(s[q + 3])) as char), q + 4),
{
    let v = hex_value(s[q + 2]) * 16 + hex_value(s[q + 3]);
    assert(0 <= v < 256);
    assert(spec_to_digit(s[q + 2], 16) == Some(hex_value(s[q + 2]) as u32));
    assert(spec_to_digit(s[q + 3], 16) == Some(hex_value(s[q + 3]) as u32));
}

/// Past a run of identifier chars that ends at `e`, the identifier ends at `e`.
proof fn lemma_ident_end_at(s: Seq<char>, q: int, e: int)
    requires
        0 <= q <= e <= s.len(),
        forall|i: int| q <= i < e ==> ident_continue(#[trigger] s[i]),
        e == s.len() || !ident_continue(s[e]),
    ensures
        ident_end(s, q) == e,
    decreases e - q,
{
    if q < e {
        lemma_ident_end_at(s, q + 1, e);
    }
}

/// Every char of a keyword is a lowercase ASCII letter.
proof fn lemma_keyword_letters(k: Keyword)
    ensures
        k.spec_text().len() >= 2,
        forall|i: int| 0 <= i < k.spec_text().len() ==> 'a' <= #[trigger] k.spec_text()[i] && k.spec_text()[i] <= 'z',
{
    reveal_strlit("break");
    reveal_strlit("continue");
    reveal_strlit("else");
    reveal_strlit("false");
    reveal_strlit("for");
    reveal_strlit("fn");
    reveal_strlit("if");
    reveal_strlit("in");
    reveal_strlit("let");
    reveal_strlit("return");
    reveal_strlit("true");
    reveal_strlit("while");
}

/// A keyword's own text, where no identifier char follows it, lexes to that
/// keyword and nothing more.
pub proof fn law_keyword_text_lexes(s: Seq<char>, p: int, k: Keyword)
    requires
        0 <= p,
        p + k.spec_text().len() <= s.len(),
        s.subrange(p, p + k.spec_text().len()) == k.spec_text(),
        p + k.spec_text().len() == s.len() || !ident_continue(s[p + k.spec_text().len()]),
    ensures
        lex_at(s, p) == (tok(Type::Keyword(k)), p + k.spec_text().len()),
{
    let t = k.spec_text();
    let e = p + t.len();
    lemma_keyword_letters(k);
    assert forall|i: int| p + 1 <= i < e implies ident_continue(#[trigger] s[i]) by {
        assert(s[i] == s.subrange(p, e)[i - p]);
        assert('a' <= t[i - p] && t[i - p] <= 'z');
    }
    lemma_ident_end_at(s, p + 1, e);
    assert(s[p] == s.subrange(p, e)[0]);
    assert('a' <= t[0] && t[0] <= 'z');
    crate::token::law_keyword_round_trip(k);
}

/// Punctuation is read by longest match: `<<=` and `>>=` take three chars,
/// `<<`, `<=`, `==`, `=>`, `->`, `-=`, `&&`, `||`, `::`, `+=`, `^=`, `!=`
/// and `..` take two, and a char that starts none of these is a token of
/// one char.
pub proof fn law_punctuation_longest_match(s: Seq<char>, p: int)
    requires
        0 <= p,
        p + 2 < s.len(),
    ensures
        s[p] == '<' && s[p + 1] == '<' && s[p + 2] == '=' ==> lex_at(s, p) == (tok(Type::LtLtEq), p + 3),
        s[p] == '>' && s[p + 1] == '>' && s[p + 2] == '=' ==> lex_at(s, p) == (tok(Type::GtGtEq), p + 3),
        s[p] == '.' && s[p + 1] == '.' && s[p + 2] == '=' ==> lex_at(s, p) == (tok(Type::DotDotEq), p + 3),
        s[p] == '<' && s[p + 1] == '<' && s[p + 2] != '=' ==> lex_at(s, p) == (tok(Type::LtLt), p + 2),
        s[p] == '>' && s[p + 1] == '>' && s[p + 2] != '=' ==> lex_at(s, p) == (tok(Type::GtGt), p + 2),
        s[p] == '.' && s[p + 1] == '.' && s[p + 2] != '=' ==> lex_at(s, p) == (tok(Type::DotDot), p + 2),
        s[p] == '<' && s[p + 1] == '=' ==> lex_at(s, p) == (tok(Type::LtEq), p + 2),
        s[p] == '>' && s[p + 1] == '=' ==> lex_at(s, p) == (tok(Type::GtEq), p + 2),
        s[p] == '<' && s[p + 1] != '<' && s[p + 1] != '=' ==> lex_at(s, p) == (tok(Type::Lt), p + 1),
        s[p] == '>' && s[p + 1] != '>' && s[p + 1] != '=' ==> lex_at(s, p) == (tok(Type::Gt), p + 1),
        s[p] == '=' && s[p + 1] == '=' ==> lex_at(s, p) == (tok(Type::EqEq), p + 2),
        s[p] == '=' && s[p + 1] == '>' ==> lex_at(s, p) == (tok(Type::FatArrow), p + 2),
        s[p] == '=' && s[p + 1] != '=' && s[p + 1] != '>' ==> lex_at(s, p) == (tok(Type::Eq), p + 1),
        s[p] == '-' && s[p + 1] == '>' ==> lex_at(s, p) == (tok(Type::Arrow), p + 2),
        s[p] == '-' && s[p + 1] == '=' ==> lex_at(s, p) == (tok(Type::MinusEq), p + 2),
        s[p] == '&' && s[p + 1] == '&' ==> lex_at(s, p) == (tok(Type::AmpAmp), p + 2),
        s[p] == '|' && s[p + 1] == '|' ==> lex_at(s, p) == (tok(Type::BarBar), p + 2),
        s[p] == ':' && s[p + 1] == ':' ==> lex_at(s, p) == (tok(Type::ColonColon), p + 2),
        s[p] == ':' && s[p + 1] != ':' ==> lex_at(s, p) == (tok(Type::Colon), p + 1),
        s[p] == '+' && s[p + 1] == '=' ==> lex_at(s, p) == (tok(Type::PlusEq), p + 2),
        s[p] == '^' && s[p + 1] == '=' ==> lex_at(s, p) == (tok(Type::XorEq), p + 2),
        s[p] == '!' && s[p + 1] == '=' ==> lex_at(s, p) == (tok(Type::BangEq), p + 2),
        s[p] == '.' && s[p + 1] != '.' ==> lex_at(s, p) == (tok(Type::Dot), p + 1),
        s[p] == ';' ==> lex_at(s, p) == (tok(Type::Semi), p + 1),
        s[p] == ',' ==> lex_at(s, p) == (tok(Type::Comma), p + 1),
        s[p] == '{' ==> lex_at(s, p) == (tok(Type::LCurly), p + 1),
        s[p] == '}' ==> lex_at(s, p) == (tok(Type::RCurly), p + 1),
        s[p] == '(' ==> lex_at(s, p) == (tok(Type::LParen), p + 1),
        s[p] == ')' ==> lex_at(s, p) == (tok(Type::RParen), p + 1),
{
}

/// Every token the lexer reads, or error it reports, takes at least one
/// char: scanning from inside the text always moves forward.
pub proof fn law_lexing_makes_progress(s: Seq<char>, p: int)
    requires
        0 <= p < s.len(),
    ensures
        lex_at(s, p).1 > p,
{
    let q = p + 1;
    lemma_line_comment_advances(s, q + 1);
    lemma_block_comment_advances(s, q + 1);
    lemma_ident_end_advances(s, q);
    lemma_digits_more_advances(s, q, 10, (s[p] as int) - ('0' as int));
    lemma_unescape_advances(s, q);
    lemma_string_advances(s, q, Seq::empty());
    if s[p] == '0' {
        let q2 = q + 1;
        if 0 <= q < s.len() && 0 <= q2 < s.len() {
            if let Some(d) = spec_to_digit(s[q2], 16) {
                lemma_digits_more_advances(s, q2 + 1, 16, d as int);
            }
            if let Some(d) = spec_to_digit(s[q2], 10) {
                lemma_digits_more_advances(s, q2 + 1, 10, d as int);
            }
            if let Some(d) = spec_to_digit(s[q2], 8) {
                lemma_digits_more_advances(s, q2 + 1, 8, d as int);
            }
            if let Some(d) = spec_to_digit(s[q2], 2) {
                lemma_digits_more_advances(s, q2 + 1, 2, d as int);
            }
        }
        if 0 <= q < s.len() {
            if let Some(d) = spec_to_digit(s[q], 10) {
                lemma_digits_more_advances(s, q + 1, 10, d as int);
            }
        }
    }
    if let Some(d) = spec_to_digit(s[p], 10) {
        lemma_digits_more_advances(s, q, 10, d as int);
    }
}

} // verus!
verus! {

impl Reason {
    pub open spec fn spec_text(self) -> Seq<char> {
        match self {
            Reason::UnmatchedDelimiters(c) => "Unmatched `"@ + seq![c] + "` in input"@,
            Reason::UnexpectedChar(c) => "Character `"@ + seq![c] + "` not expected"@,
            Reason::NotIdentifier(c) => "Character `"@ + seq![c] + "` not valid in identifiers"@,
            Reason::UnknownEscape(c) => "`\\"@ + seq![c] + "` is not a known escape sequence"@,
            Reason::InvalidEscape(c) => "Escape sequence `\\"@ + seq![c] + "`... is malformed"@,
            Reason::InvalidDigit(c) => "`"@ + seq![c] + "` is not a valid digit"@,
            Reason::UnknownBase(c) => "`0"@ + seq![c] + "`... is not a valid base"@,
            Reason::BadUnicode(v) => "`"@ + crate::text::decimal(v as nat)
                + "` is not a valid unicode code-point"@,
            Reason::EndOfFile => "Reached end of input"@,
        }
    }

    /// A description of the reason, for people.
    pub fn to_text(&self) -> (r: String)
        ensures
            r@ == self.spec_text(),
    {
        let mut out = String::new();
        let (before, c, after): (&str, char, &str) = match *self {
            Reason::UnmatchedDelimiters(c) => ("Unmatched `", c, "` in input"),
            Reason::UnexpectedChar(c) => ("Character `", c, "` not expected"),
            Reason::NotIdentifier(c) => ("Character `", c, "` not valid in identifiers"),
            Reason::UnknownEscape(c) => ("`\\", c, "` is not a known escape sequence"),
            Reason::InvalidEscape(c) => ("Escape sequence `\\", c, "`... is malformed"),
            Reason::InvalidDigit(c) => ("`", c, "` is not a valid digit"),
            Reason::UnknownBase(c) => ("`0", c, "`... is not a valid base"),
            Reason::BadUnicode(v) => {
                crate::text::string_append(&mut out, "`");
                crate::text::write_decimal(&mut out, v as u128);
                crate::text::string_append(&mut out, "` is not a valid unicode code-point");
                return out;
            },
            Reason::EndOfFile => {
                crate::text::string_append(&mut out, "Reached end of input");
                return out;
            },
        };
        crate::text::string_append(&mut out, before);
        crate::text::string_push(&mut out, c);
        crate::text::string_append(&mut out, after);
        assert(out@ =~= before@ + seq![c] + after@);
        out
    }
}

impl Error {
    pub open spec fn spec_text(self) -> Seq<char> {
        crate::text::decimal(self.line as nat) + ":"@ + crate::text::decimal(self.col as nat)
            + ": "@ + self.reason.spec_text()
    }

    /// The error as `line:col: reason`.
    pub fn to_text(&self) -> (r: String)
        ensures
            r@ == self.spec_text(),
    {
        let mut out = String::new();
        crate::text::write_decimal(&mut out, self.line as u128);
        crate::text::string_append(&mut out, ":");
        crate::text::write_decimal(&mut out, self.col as u128);
        crate::text::string_append(&mut out, ": ");
        let reason = self.reason.to_text();
        crate::text::string_append(&mut out, reason.as_str());
        assert(out@ =~= self.spec_text());
        out
    }
}

} // verus!
