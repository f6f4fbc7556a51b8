//! String tools for Conlang: digit conversion, escape sequences and
//! integer parsing over sequences of chars.
use vstd::prelude::*;

verus! {

// ---------------------------------------------------------------------
// Digits
// ---------------------------------------------------------------------

/// The conventional value of an ASCII alphanumeric char: `0-9` are worth
/// 0 to 9, `A-Z` and `a-z` are worth 10 to 35.
pub open spec fn ascii_digit_value(c: char) -> Option<int> {
    if '0' <= c && c <= '9' {
        Some(c as int - '0' as int)
    } else if 'A' <= c && c <= 'Z' {
        Some(c as int - 'A' as int + 10)
    } else if 'a' <= c && c <= 'z' {
        Some(c as int - 'a' as int + 10)
    } else {
        None
    }
}

/// What `base::<B>` gives for a char: its value when it is a char of
/// `[0-9A-Za-z]` worth less than the radix, and nothing otherwise.
pub open spec fn spec_base(radix: int, c: char) -> Option<u8> {
    match ascii_digit_value(c) {
        Some(d) => if d < radix {
            Some(d as u8)
        } else {
            None
        },
        None => None,
    }
}

/// Converts a single char `[0-9A-Za-z]` to its base `B` equivalent.
///
/// Only radixes up to 36 are supported.
pub fn base<const B: u8>(c: char) -> (r: Option<u8>)
    requires
        B <= 36,
    ensures
        r == spec_base(B as int, c),
{
    let d: u8 = if '0' <= c && c <= '9' {
        (c as u32 - '0' as u32) as u8
    } else if 'A' <= c && c <= 'Z' {
        (c as u32 - 'A' as u32 + 10) as u8
    } else if 'a' <= c && c <= 'z' {
        (c as u32 - 'a' as u32 + 10) as u8
    } else {
        return None;
    };
    if d < B {
        Some(d)
    } else {
        None
    }
}

/// Every char of `[0-9A-Za-z]` is a digit of exactly the radixes above its
/// value, and no other char is a digit of any radix.
pub proof fn law_base_ascii_alphanumeric(radix: int, c: char)
    requires
        2 <= radix <= 36,
    ensures
        spec_base(radix, c) is Some <==> (ascii_digit_value(c) is Some
            && ascii_digit_value(c).unwrap() < radix),
        spec_base(radix, c) is Some ==> spec_base(radix, c).unwrap() as int
            == ascii_digit_value(c).unwrap(),
        spec_base(radix, c) is Some ==> spec_base(radix, c).unwrap() < radix,
{
}

// ---------------------------------------------------------------------
// Char values
// ---------------------------------------------------------------------

/// A `u32` names a char when it is at most 0x10FFFF and no surrogate.
pub open spec fn is_scalar_value(v: u32) -> bool {
    v <= 0x10FFFF && !(0xD800 <= v && v <= 0xDFFF)
}

pub open spec fn spec_char_from_u32(v: u32) -> Option<char> {
    if is_scalar_value(v) {
        Some(v as char)
    } else {
        None
    }
}

/// `char::from_u32`: the char with the given code point, if there is one.
#[verifier::external_body]
pub(crate) fn char_from_u32(v: u32) -> (r: Option<char>)
    ensures
        r == spec_char_from_u32(v),
{
    char::from_u32(v)
}

// ---------------------------------------------------------------------
// Escape sequences
// ---------------------------------------------------------------------

/// Reading one char at position `p` of `s`.
pub open spec fn sp_next(s: Seq<char>, p: int) -> (Option<char>, int) {
    if 0 <= p < s.len() {
        (Some(s[p]), p + 1)
    } else {
        (None, p)
    }
}

pub open spec fn sp_hex_digit(s: Seq<char>, p: int) -> (Option<u8>, int) {
    let (c, p1) = sp_next(s, p);
    match c {
        None => (None, p1),
        Some(c) => (spec_base(16, c), p1),
    }
}

/// A two-digit hex escape: `\xHH`.
pub open spec fn sp_hex2(s: Seq<char>, p: int) -> (Option<char>, int) {
    let (d1, p1) = sp_hex_digit(s, p);
    match d1 {
        None => (None, p1),
        Some(d1) => {
            let (d2, p2) = sp_hex_digit(s, p1);
            match d2 {
                None => (None, p2),
                Some(d2) => (spec_char_from_u32((d1 * 16 + d2) as u32), p2),
            }
        },
    }
}

/// Shifting in one more hex digit, as `(out << 4) + digit` on a `u32`.
pub open spec fn shift_in(out: u32, d: u8) -> u32 {
    ((out as int * 16) % 0x1_0000_0000 + d) as u32
}

/// The digits of a `\u{...}` escape, up to the closing brace.
pub open spec fn sp_unicode_digits(s: Seq<char>, p: int, out: u32) -> (Option<char>, int)
    decreases s.len() - p,
{
    if 0 <= p < s.len() {
        if s[p] == '}' {
            (spec_char_from_u32(out), p + 1)
        } else {
            match spec_base(16, s[p]) {
                None => (None, p + 1),
                Some(d) => sp_unicode_digits(s, p + 1, shift_in(out, d)),
            }
        }
    } else {
        (None, p)
    }
}

/// A unicode escape `\u{...}`, starting after the `u`.
pub open spec fn sp_unicode(s: Seq<char>, p: int) -> (Option<char>, int) {
    let (c, p1) = sp_next(s, p);
    if c == Some('{') {
        sp_unicode_digits(s, p1, 0)
    } else {
        (None, p1)
    }
}

/// The char that the escape letter `e` stands for, after a backslash.
pub open spec fn sp_escape(s: Seq<char>, e: char, p: int) -> (Option<char>, int) {
    if e == 'a' {
        (Some('\x07'), p)
    } else if e == 'b' {
        (Some('\x08'), p)
    } else if e == 'f' {
        (Some('\x0c'), p)
    } else if e == 'n' {
        (Some('\n'), p)
    } else if e == 'r' {
        (Some('\r'), p)
    } else if e == 't' {
        (Some('\t'), p)
    } else if e == 'x' {
        sp_hex2(s, p)
    } else if e == 'u' {
        sp_unicode(s, p)
    } else if e == '0' {
        (Some('\0'), p)
    } else {
        (Some(e), p)
    }
}

/// One unescaped char, read from position `p`.
pub open spec fn sp_unescape(s: Seq<char>, p: int) -> (Option<char>, int) {
    let (c, p1) = sp_next(s, p);
    match c {
        None => (None, p1),
        Some(c) => if c != '\\' {
            (Some(c), p1)
        } else {
            let (e, p2) = sp_next(s, p1);
            match e {
                None => (None, p2),
                Some(e) => sp_escape(s, e, p2),
            }
        },
    }
}

proof fn lemma_unicode_digits_advance(s: Seq<char>, p: int, out: u32)
    requires
        0 <= p,
    ensures
        p <= sp_unicode_digits(s, p, out).1 <= if p < s.len() { s.len() as int } else { p },
        sp_unicode_digits(s, p, out).0 is Some ==> p < sp_unicode_digits(s, p, out).1,
    decreases s.len() - p,
{
    if 0 <= p < s.len() && s[p] != '}' {
        if let Some(d) = spec_base(16, s[p]) {
            lemma_unicode_digits_advance(s, p + 1, shift_in(out, d));
        }
    }
}

/// Reading an unescaped char never goes back, stays within the input,
/// and moves forward whenever it yields a char.
pub proof fn lemma_unescape_advance(s: Seq<char>, p: int)
    requires
        0 <= p <= s.len(),
    ensures
        p <= sp_unescape(s, p).1 <= s.len(),
        sp_unescape(s, p).0 is Some ==> p < sp_unescape(s, p).1,
{
    if p + 2 <= s.len() && s[p] == '\\' && s[p + 1] == 'u' && p + 2 < s.len() && s[p + 2]
        == '{' {
        lemma_unicode_digits_advance(s, p + 3, 0);
    }
}

/// All the chars that unescaping yields from position `p`, up to the first
/// point where it yields nothing.
pub open spec fn sp_unescape_all(s: Seq<char>, p: int) -> Seq<char>
    decreases s.len() - p,
{
    let (c, p1) = sp_unescape(s, p);
    match c {
        None => Seq::empty(),
        Some(c) => if p < p1 && p1 <= s.len() {
            seq![c] + sp_unescape_all(s, p1)
        } else {
            Seq::empty()
        },
    }
}

/// Unescapes string escape sequences from a sequence of chars.
pub struct UnescapeString {
    chars: Vec<char>,
    pos: usize,
}

impl UnescapeString {
    /// The chars still to be read.
    pub closed spec fn input(&self) -> Seq<char> {
        self.chars@
    }

    /// How many chars have been read.
    pub closed spec fn position(&self) -> int {
        self.pos as int
    }

    pub fn new(inner: Vec<char>) -> (r: Self)
        ensures
            r.input() == inner@,
            r.position() == 0,
    {
        UnescapeString { chars: inner, pos: 0 }
    }

    fn next_char(&mut self) -> (r: Option<char>)
        ensures
            final(self).chars@ == old(self).chars@,
            (r, final(self).pos as int) == sp_next(old(self).chars@, old(self).pos as int),
    {
        if self.pos < self.chars.len() {
            let c = self.chars[self.pos];
            self.pos = self.pos + 1;
            Some(c)
        } else {
            None
        }
    }

    fn hex_digit(&mut self) -> (r: Option<u8>)
        ensures
            final(self).chars@ == old(self).chars@,
            (r, final(self).pos as int) == sp_hex_digit(old(self).chars@, old(self).pos as int),
    {
        match self.next_char() {
            None => None,
            Some(c) => base::<16>(c),
        }
    }

    /// Reads the two hex digits of a `\x` escape.
    fn hex_digits(&mut self) -> (r: Option<char>)
        ensures
            final(self).chars@ == old(self).chars@,
            (r, final(self).pos as int) == sp_hex2(old(self).chars@, old(self).pos as int),
    {
        let d1 = match self.hex_digit() {
            None => return None,
            Some(d) => d,
        };
        let d2 = match self.hex_digit() {
            None => return None,
            Some(d) => d,
        };
        char_from_u32((d1 as u32) * 16 + d2 as u32)
    }

    /// Reads the braced digits of a `\u` escape.
    fn unicode(&mut self) -> (r: Option<char>)
        ensures
            final(self).chars@ == old(self).chars@,
            (r, final(self).pos as int) == sp_unicode(old(self).chars@, old(self).pos as int),
    {
        let ghost s = self.chars@;
        match self.next_char() {
            Some('{') => {},
            _ => return None,
        }
        let mut out: u32 = 0;
        while self.pos < self.chars.len()
            invariant
                self.chars@ == s,
                s == old(self).chars@,
                self.pos <= s.len(),
                sp_unicode(s, old(self).pos as int) == sp_unicode_digits(s, self.pos as int, out),
            decreases s.len() - self.pos,
        {
            let c = self.chars[self.pos];
            self.pos = self.pos + 1;
            if c == '}' {
                return char_from_u32(out);
            }
            match base::<16>(c) {
                None => return None,
                Some(d) => {
                    let d32: u32 = d as u32;
                    assert((out << 4u32) + d32 == shift_in(out, d)) by (bit_vector)
                        requires
                            d32 == d,
                            d < 16,
                    ;
                    assert(d < 16);
                    out = (out << 4u32) + d32;
                },
            }
        }
        None
    }

    /// Consumes an escape sequence, or a plain char.
    pub fn unescape(&mut self) -> (r: Option<char>)
        ensures
            final(self).input() == old(self).input(),
            (r, final(self).position()) == sp_unescape(old(self).input(), old(self).position()),
    {
        match self.next_char() {
            None => return None,
            Some('\\') => {},
            Some(other) => return Some(other),
        }
        let e = match self.next_char() {
            None => return None,
            Some(e) => e,
        };
        match e {
            'a' => Some('\x07'),
            'b' => Some('\x08'),
            'f' => Some('\x0c'),
            'n' => Some('\n'),
            'r' => Some('\r'),
            't' => Some('\t'),
            'x' => self.hex_digits(),
            'u' => self.unicode(),
            '0' => Some('\0'),
            byte => Some(byte),
        }
    }

    /// The next unescaped char, if any.
    pub fn next(&mut self) -> (r: Option<char>)
        ensures
            final(self).input() == old(self).input(),
            (r, final(self).position()) == sp_unescape(old(self).input(), old(self).position()),
    {
        self.unescape()
    }

    /// Reads unescaped chars until the input yields no more.
    pub fn collect_chars(&mut self) -> (r: Vec<char>)
        requires
            old(self).position() <= old(self).input().len(),
        ensures
            r@ == sp_unescape_all(old(self).input(), old(self).position()),
    {
        let ghost s = self.chars@;
        let ghost p0 = self.pos as int;
        let mut out: Vec<char> = Vec::new();
        loop
            invariant
                self.chars@ == s,
                s == old(self).chars@,
                p0 == old(self).pos as int,
                self.pos <= s.len(),
                sp_unescape_all(s, p0) == out@ + sp_unescape_all(s, self.pos as int),
            decreases s.len() - self.pos,
        {
            let ghost p = self.pos as int;
            proof {
                lemma_unescape_advance(s, p);
            }
            match self.unescape() {
                None => {
                    assert(sp_unescape(s, p).0 is None);
                    assert(sp_unescape_all(s, p) == Seq::<char>::empty());
                    assert(out@ + Seq::<char>::empty() == out@);
                    assert(sp_unescape_all(s, p0) == out@);
                    return out;
                },
                Some(c) => {
                    assert(sp_unescape_all(s, p) == seq![c] + sp_unescape_all(s, self.pos as int));
                    let ghost before = out@;
                    out.push(c);
                    assert(before + sp_unescape_all(s, p) == out@ + sp_unescape_all(s, self.pos as int));
                },
            }
        }
    }
}

/// Unescapes every escape sequence in a string, stopping at the first
/// malformed one.
pub fn unescape_str(s: &Vec<char>) -> (r: Vec<char>)
    ensures
        r@ == sp_unescape_all(s@, 0),
{
    let mut u = UnescapeString::new(s.clone());
    u.collect_chars()
}

/// A string without backslashes unescapes to itself.
pub proof fn law_unescape_plain(s: Seq<char>, p: int)
    requires
        0 <= p <= s.len(),
        forall|i: int| p <= i < s.len() ==> s[i] != '\\',
    ensures
        sp_unescape_all(s, p) == s.subrange(p, s.len() as int),
    decreases s.len() - p,
{
    if p < s.len() {
        law_unescape_plain(s, p + 1);
        assert(s.subrange(p, s.len() as int) == seq![s[p]] + s.subrange(p + 1, s.len() as int));
    } else {
        assert(s.subrange(p, s.len() as int) == Seq::<char>::empty());
    }
}

// ---------------------------------------------------------------------
// Integer parsing
// ---------------------------------------------------------------------

/// The next digit in the given radix, skipping `_` separators.
pub open spec fn sp_digit(s: Seq<char>, p: int, radix: int) -> (Option<u8>, int)
    decreases s.len() - p,
{
    if 0 <= p < s.len() {
        if s[p] == '_' {
            sp_digit(s, p + 1, radix)
        } else {
            (spec_base(radix, s[p]), p + 1)
        }
    } else {
        (None, p)
    }
}

proof fn lemma_digit_bound(s: Seq<char>, p: int, radix: int)
    ensures
        sp_digit(s, p, radix).0 matches Some(d) ==> d < radix,
    decreases s.len() - p,
{
    if 0 <= p < s.len() && s[p] == '_' {
        lemma_digit_bound(s, p + 1, radix);
    }
}

proof fn lemma_digit_advance(s: Seq<char>, p: int, radix: int)
    requires
        0 <= p,
    ensures
        p <= sp_digit(s, p, radix).1,
        sp_digit(s, p, radix).1 <= if p < s.len() { s.len() as int } else { p },
        sp_digit(s, p, radix).0 is Some ==> p < sp_digit(s, p, radix).1,
    decreases s.len() - p,
{
    if 0 <= p < s.len() && s[p] == '_' {
        lemma_digit_advance(s, p + 1, radix);
    }
}

/// Reads further digits onto `out` until a non-digit, failing as soon as
/// the value would exceed `max`.
pub open spec fn sp_digits_loop(s: Seq<char>, p: int, radix: int, max: int, out: int) -> (
    Option<int>,
    int,
)
    decreases s.len() - p,
{
    let (d, p1) = sp_digit(s, p, radix);
    match d {
        None => (Some(out), p1),
        Some(d) => if out * radix + d > max {
            (None, p1)
        } else if 0 <= p < p1 <= s.len() {
            sp_digits_loop(s, p1, radix, max, out * radix + d)
        } else {
            (Some(out * radix + d), p1)
        },
    }
}

/// Reads a number in the given radix, starting from `init` if a first
/// digit was already read.
pub open spec fn sp_digits(s: Seq<char>, p: int, radix: int, max: int, init: Option<u8>) -> (
    Option<int>,
    int,
) {
    match init {
        Some(d) => sp_digits_loop(s, p, radix, max, d as int),
        None => {
            let (d, p1) = sp_digit(s, p, radix);
            match d {
                None => (None, p1),
                Some(d) => sp_digits_loop(s, p1, radix, max, d as int),
            }
        },
    }
}

/// After a leading `0`: an optional base letter, then digits.
pub open spec fn sp_base_prefix(s: Seq<char>, p: int, max: int) -> (Option<int>, int) {
    let (c, p1) = sp_next(s, p);
    match c {
        None => (None, p1),
        Some(c) => if c == 'b' {
            sp_digits(s, p1, 2, max, None)
        } else if c == 'd' {
            sp_digits(s, p1, 10, max, None)
        } else if c == 'o' {
            sp_digits(s, p1, 8, max, None)
        } else if c == 'x' {
            sp_digits(s, p1, 16, max, None)
        } else {
            match spec_base(10, c) {
                None => (None, p1),
                Some(d) => sp_digits(s, p1, 10, max, Some(d)),
            }
        },
    }
}

/// The next integer that parsing yields, as a mathematical value bounded
/// by `max`, and the position after it.
pub open spec fn sp_parse_int(s: Seq<char>, p: int, max: int) -> (Option<int>, int) {
    let (d, p1) = sp_digit(s, p, 10);
    match d {
        None => (None, p1),
        Some(d) => if d == 0 {
            sp_base_prefix(s, p1, max)
        } else {
            sp_digits(s, p1, 10, max, Some(d))
        },
    }
}

/// Parses integers out of a sequence of chars.
///
/// Each call of a `next_*` method reads one integer: a decimal number,
/// or `0` followed by `b`, `d`, `o` or `x` and digits in base 2, 10, 8 or
/// 16. Underscores between digits are skipped. A value that does not fit
/// the requested type gives nothing.
pub struct ParseInt {
    chars: Vec<char>,
    pos: usize,
}

impl ParseInt {
    pub closed spec fn input(&self) -> Seq<char> {
        self.chars@
    }

    pub closed spec fn position(&self) -> int {
        self.pos as int
    }

    pub fn new(inner: Vec<char>) -> (r: Self)
        ensures
            r.input() == inner@,
            r.position() == 0,
    {
        ParseInt { chars: inner, pos: 0 }
    }

    fn next_char(&mut self) -> (r: Option<char>)
        ensures
            final(self).chars@ == old(self).chars@,
            (r, final(self).pos as int) == sp_next(old(self).chars@, old(self).pos as int),
    {
        if self.pos < self.chars.len() {
            let c = self.chars[self.pos];
            self.pos = self.pos + 1;
            Some(c)
        } else {
            None
        }
    }

    fn digit<const B: u8>(&mut self) -> (r: Option<u8>)
        requires
            B <= 36,
        ensures
            final(self).chars@ == old(self).chars@,
            (r, final(self).pos as int) == sp_digit(
                old(self).chars@,
                old(self).pos as int,
                B as int,
            ),
    {
        let ghost s = self.chars@;
        loop
            invariant
                self.chars@ == s,
                s == old(self).chars@,
                B <= 36,
                sp_digit(s, old(self).pos as int, B as int) == sp_digit(
                    s,
                    self.pos as int,
                    B as int,
                ),
            decreases s.len() - self.pos,
        {
            match self.next_char() {
                None => return None,
                Some('_') => {},
                Some(c) => return base::<B>(c),
            }
        }
    }

    fn digits<const B: u8>(&mut self, max: u128, init: Option<u8>) -> (r: Option<u128>)
        requires
            2 <= B <= 36,
            max >= 36,
            init matches Some(d) ==> d < B,
        ensures
            final(self).chars@ == old(self).chars@,
            ({
                let (v, p) = sp_digits(old(self).chars@, old(self).pos as int, B as int, max as int, init);
                &&& final(self).pos as int == p
                &&& match r {
                    Some(x) => v == Some(x as int),
                    None => v is None,
                }
            }),
    {
        let ghost s = self.chars@;
        let ghost p0 = self.pos as int;
        let first: u8 = match init {
            Some(digit) => digit,
            None => match self.digit::<B>() {
                None => return None,
                Some(d) => d,
            },
        };
        proof {
            lemma_digit_advance(s, p0, B as int);
        }
        let mut out: u128 = first as u128;
        proof {
            lemma_digit_bound(s, p0, B as int);
        }
        assert(first < B);
        loop
            invariant
                self.chars@ == s,
                s == old(self).chars@,
                p0 == old(self).pos as int,
                2 <= B <= 36,
                out <= max,
                0 <= self.pos,
                sp_digits(s, p0, B as int, max as int, init) == sp_digits_loop(
                    s,
                    self.pos as int,
                    B as int,
                    max as int,
                    out as int,
                ),
            decreases s.len() - self.pos,
        {
            let ghost p = self.pos as int;
            proof {
                lemma_digit_advance(s, p, B as int);
            }
            match self.digit::<B>() {
                None => return Some(out),
                Some(d) => {
                    let m = match out.checked_mul(B as u128) {
                        None => return None,
                        Some(m) => m,
                    };
                    if m > max {
                        return None;
                    }
                    let a = match m.checked_add(d as u128) {
                        None => return None,
                        Some(a) => a,
                    };
                    if a > max {
                        return None;
                    }
                    out = a;
                },
            }
        }
    }

    fn base_prefix(&mut self, max: u128) -> (r: Option<u128>)
        requires
            max >= 36,
        ensures
            final(self).chars@ == old(self).chars@,
            ({
                let (v, p) = sp_base_prefix(old(self).chars@, old(self).pos as int, max as int);
                &&& final(self).pos as int == p
                &&& match r {
                    Some(x) => v == Some(x as int),
                    None => v is None,
                }
            }),
    {
        match self.next_char() {
            None => None,
            Some('b') => self.digits::<2>(max, None),
            Some('d') => self.digits::<10>(max, None),
            Some('o') => self.digits::<8>(max, None),
            Some('x') => self.digits::<16>(max, None),
            Some(c) => match base::<10>(c) {
                None => None,
                Some(d) => self.digits::<10>(max, Some(d)),
            },
        }
    }

    /// Reads the next integer that fits in a `u8`.
    pub fn next_u8(&mut self) -> (r: Option<u8>)
        ensures
            final(self).input() == old(self).input(),
            final(self).position() == sp_parse_int(old(self).input(), old(self).position(), u8::MAX as int).1,
            r == match sp_parse_int(old(self).input(), old(self).position(), u8::MAX as int).0 {
                Some(v) => Some(v as u8),
                None => None,
            },
    {
        match self.next_bounded(255) {
            Some(v) => Some(v as u8),
            None => None,
        }
    }

    /// Reads the next integer that fits in a `i8`.
    pub fn next_i8(&mut self) -> (r: Option<i8>)
        ensures
            final(self).input() == old(self).input(),
            final(self).position() == sp_parse_int(old(self).input(), old(self).position(), i8::MAX as int).1,
            r == match sp_parse_int(old(self).input(), old(self).position(), i8::MAX as int).0 {
                Some(v) => Some(v as i8),
                None => None,
            },
    {
        match self.next_bounded(127) {
            Some(v) => Some(v as i8),
            None => None,
        }
    }

    /// Reads the next integer that fits in a `u16`.
    pub fn next_u16(&mut self) -> (r: Option<u16>)
        ensures
            final(self).input() == old(self).input(),
            final(self).position() == sp_parse_int(old(self).input(), old(self).position(), u16::MAX as int).1,
            r == match sp_parse_int(old(self).input(), old(self).position(), u16::MAX as int).0 {
                Some(v) => Some(v as u16),
                None => None,
            },
    {
        match self.next_bounded(65535) {
            Some(v) => Some(v as u16),
            None => None,
        }
    }

    /// Reads the next integer that fits in a `i16`.
    pub fn next_i16(&mut self) -> (r: Option<i16>)
        ensures
            final(self).input() == old(self).input(),
            final(self).position() == sp_parse_int(old(self).input(), old(self).position(), i16::MAX as int).1,
            r == match sp_parse_int(old(self).input(), old(self).position(), i16::MAX as int).0 {
                Some(v) => Some(v as i16),
                None => None,
            },
    {
        match self.next_bounded(32767) {
            Some(v) => Some(v as i16),
            None => None,
        }
    }

    /// Reads the next integer that fits in a `u32`.
    pub fn next_u32(&mut self) -> (r: Option<u32>)
        ensures
            final(self).input() == old(self).input(),
            final(self).position() == sp_parse_int(old(self).input(), old(self).position(), u32::MAX as int).1,
            r == match sp_parse_int(old(self).input(), old(self).position(), u32::MAX as int).0 {
                Some(v) => Some(v as u32),
                None => None,
            },
    {
        match self.next_bounded(4294967295) {
            Some(v) => Some(v as u32),
            None => None,
        }
    }

    /// Reads the next integer that fits in a `i32`.
    pub fn next_i32(&mut self) -> (r: Option<i32>)
        ensures
            final(self).input() == old(self).input(),
            final(self).position() == sp_parse_int(old(self).input(), old(self).position(), i32::MAX as int).1,
            r == match sp_parse_int(old(self).input(), old(self).position(), i32::MAX as int).0 {
                Some(v) => Some(v as i32),
                None => None,
            },
    {
        match self.next_bounded(2147483647) {
            Some(v) => Some(v as i32),
            None => None,
        }
    }

    /// Reads the next integer that fits in a `u64`.
    pub fn next_u64(&mut self) -> (r: Option<u64>)
        ensures
            final(self).input() == old(self).input(),
            final(self).position() == sp_parse_int(old(self).input(), old(self).position(), u64::MAX as int).1,
            r == match sp_parse_int(old(self).input(), old(self).position(), u64::MAX as int).0 {
                Some(v) => Some(v as u64),
                None => None,
            },
    {
        match self.next_bounded(18446744073709551615) {
            Some(v) => Some(v as u64),
            None => None,
        }
    }

    /// Reads the next integer that fits in a `i64`.
    pub fn next_i64(&mut self) -> (r: Option<i64>)
        ensures
            final(self).input() == old(self).input(),
            final(self).position() == sp_parse_int(old(self).input(), old(self).position(), i64::MAX as int).1,
            r == match sp_parse_int(old(self).input(), old(self).position(), i64::MAX as int).0 {
                Some(v) => Some(v as i64),
                None => None,
            },
    {
        match self.next_bounded(9223372036854775807) {
            Some(v) => Some(v as i64),
            None => None,
        }
    }

    /// Reads the next integer that fits in a `u128`.
    pub fn next_u128(&mut self) -> (r: Option<u128>)
        ensures
            final(self).input() == old(self).input(),
            final(self).position() == sp_parse_int(old(self).input(), old(self).position(), u128::MAX as int).1,
            r == match sp_parse_int(old(self).input(), old(self).position(), u128::MAX as int).0 {
                Some(v) => Some(v as u128),
                None => None,
            },
    {
        match self.next_bounded(340282366920938463463374607431768211455) {
            Some(v) => Some(v as u128),
            None => None,
        }
    }

    /// Reads the next integer that fits in a `i128`.
    pub fn next_i128(&mut self) -> (r: Option<i128>)
        ensures
            final(self).input() == old(self).input(),
            final(self).position() == sp_parse_int(old(self).input(), old(self).position(), i128::MAX as int).1,
            r == match sp_parse_int(old(self).input(), old(self).position(), i128::MAX as int).0 {
                Some(v) => Some(v as i128),
                None => None,
            },
    {
        match self.next_bounded(170141183460469231731687303715884105727) {
            Some(v) => Some(v as i128),
            None => None,
        }
    }

    /// Reads the next integer whose value is at most `max`.
    pub fn next_bounded(&mut self, max: u128) -> (r: Option<u128>)
        requires
            max >= 36,
        ensures
            final(self).input() == old(self).input(),
            ({
                let (v, p) = sp_parse_int(old(self).input(), old(self).position(), max as int);
                &&& final(self).position() == p
                &&& match r {
                    Some(x) => v == Some(x as int),
                    None => v is None,
                }
            }),
    {
        proof {
            lemma_digit_bound(self.chars@, self.pos as int, 10);
        }
        match self.digit::<10>() {
            None => None,
            Some(0) => self.base_prefix(max),
            Some(c) => self.digits::<10>(max, Some(c)),
        }
    }
}

} // verus!
verus! {

/// The value of decimal digits read left to right onto `out`.
pub open spec fn fold_digits(out: int, ds: Seq<char>) -> int
    decreases ds.len(),
{
    if ds.len() == 0 {
        out
    } else {
        fold_digits(out * 10 + (ds[0] as int - '0' as int), ds.drop_first())
    }
}

/// Whether every char is an ASCII decimal digit.
pub open spec fn all_decimal(ds: Seq<char>) -> bool {
    forall|i: int| 0 <= i < ds.len() ==> '0' <= #[trigger] ds[i] && ds[i] <= '9'
}

proof fn lemma_base10_digit(c: char)
    requires
        '0' <= c && c <= '9',
    ensures
        spec_base(10, c) == Some((c as int - '0' as int) as u8),
{
}

proof fn lemma_fold_push(out: int, ds: Seq<char>, c: char)
    ensures
        fold_digits(out, ds.push(c)) == fold_digits(out, ds) * 10 + (c as int - '0' as int),
    decreases ds.len(),
{
    if ds.len() > 0 {
        assert(ds.push(c).drop_first() =~= ds.drop_first().push(c));
        assert(ds.push(c)[0] == ds[0]);
        let o = out * 10 + (ds[0] as int - '0' as int);
        lemma_fold_push(o, ds.drop_first(), c);
        assert(fold_digits(out, ds.push(c)) == fold_digits(o, ds.drop_first().push(c)));
        assert(fold_digits(out, ds) == fold_digits(o, ds.drop_first()));
    } else {
        assert(ds.push(c).drop_first() =~= Seq::<char>::empty());
        assert(ds.push(c)[0] == c);
        assert(fold_digits(out, ds.push(c)) == fold_digits(out * 10 + (c as int - '0' as int), Seq::<char>::empty()));
    }
}

proof fn lemma_fold_grows(out: int, ds: Seq<char>)
    requires
        out >= 0,
        all_decimal(ds),
    ensures
        fold_digits(out, ds) >= out,
    decreases ds.len(),
{
    if ds.len() > 0 {
        assert(all_decimal(ds.drop_first())) by {
            assert forall|i: int| 0 <= i < ds.drop_first().len() implies '0' <= #[trigger] ds.drop_first()[i]
                && ds.drop_first()[i] <= '9' by {
                assert(ds.drop_first()[i] == ds[i + 1]);
            }
        }
        assert(out * 10 >= out) by (nonlinear_arith)
            requires
                out >= 0,
        ;
        lemma_fold_grows(out * 10 + (ds[0] as int - '0' as int), ds.drop_first());
    }
}

proof fn lemma_decimal_digits(n: nat)
    ensures
        all_decimal(crate::text::decimal(n)),
        fold_digits(0, crate::text::decimal(n)) == n,
        n > 0 ==> crate::text::decimal(n)[0] != '0',
        crate::text::decimal(n).len() >= 1,
    decreases n,
{
    let s = crate::text::decimal(n);
    if n < 10 {
        assert(fold_digits(0, s) == fold_digits(n as int, s.drop_first()));
        assert(s.drop_first() =~= Seq::<char>::empty());
    } else {
        let q = (n / 10) as nat;
        lemma_decimal_digits(q);
        let d = crate::text::digit_char((n % 10) as nat);
        assert(s == crate::text::decimal(q).push(d));
        lemma_fold_push(0, crate::text::decimal(q), d);
        assert(n == q * 10 + n % 10) by (nonlinear_arith)
            requires
                q == n / 10,
        ;
        assert forall|i: int| 0 <= i < s.len() implies '0' <= #[trigger] s[i] && s[i] <= '9' by {
            if i < s.len() - 1 {
                assert(s[i] == crate::text::decimal(q)[i]);
            }
        }
    }
}

proof fn lemma_digits_loop_reads(s: Seq<char>, p: int, max: int, out: int)
    requires
        0 <= p <= s.len(),
        out >= 0,
        all_decimal(s.subrange(p, s.len() as int)),
        fold_digits(out, s.subrange(p, s.len() as int)) <= max,
    ensures
        sp_digits_loop(s, p, 10, max, out) == (
            Some(fold_digits(out, s.subrange(p, s.len() as int))),
            s.len() as int,
        ),
    decreases s.len() - p,
{
    let rest = s.subrange(p, s.len() as int);
    if p < s.len() {
        let c = s[p];
        assert(rest[0] == c);
        lemma_base10_digit(c);
        let d = c as int - '0' as int;
        let next = s.subrange(p + 1, s.len() as int);
        assert(rest.drop_first() =~= next);
        assert(all_decimal(next)) by {
            assert forall|i: int| 0 <= i < next.len() implies '0' <= #[trigger] next[i] && next[i] <= '9' by {
                assert(next[i] == rest[i + 1]);
            }
        }
        assert(out * 10 + d >= 0) by (nonlinear_arith)
            requires
                out >= 0,
                0 <= d,
        ;
        lemma_fold_grows(out * 10 + d, next);
        lemma_digits_loop_reads(s, p + 1, max, out * 10 + d);
    } else {
        assert(rest =~= Seq::<char>::empty());
    }
}

/// Reading back the decimal text of a positive number gives the number,
/// when it is within the bound: [ParseInt] undoes writing a number out.
pub proof fn law_parse_decimal_round_trip(n: nat, max: int)
    requires
        n > 0,
        n <= max,
    ensures
        sp_parse_int(crate::text::decimal(n), 0, max) == (
            Some(n as int),
            crate::text::decimal(n).len() as int,
        ),
{
    let s = crate::text::decimal(n);
    lemma_decimal_digits(n);
    let c = s[0];
    lemma_base10_digit(c);
    let d = c as int - '0' as int;
    assert(s.subrange(0, s.len() as int) =~= s);
    assert(s.subrange(1, s.len() as int) =~= s.drop_first());
    assert(fold_digits(0, s) == fold_digits(d, s.drop_first()));
    assert(all_decimal(s.drop_first())) by {
        assert forall|i: int| 0 <= i < s.drop_first().len() implies '0' <= #[trigger] s.drop_first()[i]
            && s.drop_first()[i] <= '9' by {
            assert(s.drop_first()[i] == s[i + 1]);
        }
    }
    lemma_digits_loop_reads(s, 1, max, d);
}

} // verus!
