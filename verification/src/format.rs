//! Code formatting: a [Prettifier] indents text by the number of curly
//! braces that are open, and [delimit] and [separate] lay out lists.
use vstd::prelude::*;
use vstd::string::StringSliceAdditionalSpecFns;
use vstd::string::StringExecFns;

verus! {

/// Whether a byte is a curly brace.
pub open spec fn is_brace(b: u8) -> bool {
    b == 123u8 || b == 125u8
}

/// How a byte changes the brace level: `{` opens, `}` closes.
pub open spec fn brace_delta(b: u8) -> int {
    if b == 123u8 {
        1
    } else if b == 125u8 {
        -1
    } else {
        0
    }
}

/// The number of curly braces opened, less the number closed.
pub open spec fn brace_balance(s: Seq<u8>) -> int
    decreases s.len(),
{
    if s.len() == 0 {
        0
    } else {
        brace_balance(s.drop_last()) + brace_delta(s.last())
    }
}

/// The length of the first chunk of `s`: up to and including its first
/// brace, or all of it when it has none.
pub open spec fn chunk_len(s: Seq<u8>) -> nat
    decreases s.len(),
{
    if s.len() == 0 {
        0
    } else if is_brace(s[0]) {
        1
    } else {
        1 + chunk_len(s.drop_first())
    }
}

/// `s` written `n` times.
pub open spec fn repeat(s: Seq<u8>, n: int) -> Seq<u8>
    decreases n,
{
    if n <= 0 {
        Seq::empty()
    } else {
        repeat(s, n - 1) + s
    }
}

/// The bytes of `chunk`, each newline followed by `level` copies of the
/// indentation.
pub open spec fn indent_lines(chunk: Seq<u8>, level: int, indent: Seq<u8>) -> Seq<u8>
    decreases chunk.len(),
{
    if chunk.len() == 0 {
        Seq::empty()
    } else {
        indent_lines(chunk.drop_last(), level, indent).push(chunk.last()) + (if chunk.last() == 10u8 {
            repeat(indent, level)
        } else {
            Seq::empty()
        })
    }
}

/// A non-empty text has a first chunk of at least one byte.
pub proof fn lemma_chunk_len_bounds(s: Seq<u8>)
    ensures
        s.len() > 0 ==> 1 <= chunk_len(s) <= s.len(),
        s.len() == 0 ==> chunk_len(s) == 0,
    decreases s.len(),
{
    if s.len() > 0 {
        lemma_chunk_len_bounds(s.drop_first());
    }
}

/// What a prettifier at brace level `level` writes for `buf`, and the level
/// it is left at. The text goes chunk by chunk, each chunk ending at a
/// brace: the brace's change of level takes effect for the whole chunk, so
/// the line that a closing brace starts is already indented one step less.
pub open spec fn prettify(level: int, indent: Seq<u8>, buf: Seq<u8>) -> (Seq<u8>, int)
    decreases buf.len(),
{
    if buf.len() == 0 {
        (Seq::empty(), level)
    } else {
        proof {
            lemma_chunk_len_bounds(buf);
        }
        let n = chunk_len(buf) as int;
        let next = level + brace_delta(buf[n - 1]);
        let rest = prettify(next, indent, buf.skip(n));
        (indent_lines(buf.take(n), next, indent) + rest.0, rest.1)
    }
}

proof fn lemma_chunk_len_at(s: Seq<u8>, m: int)
    requires
        0 <= m <= s.len(),
        forall|k: int| 0 <= k < m ==> !is_brace(#[trigger] s[k]),
        m == s.len() || is_brace(s[m]),
    ensures
        chunk_len(s) == if m < s.len() {
            m + 1
        } else {
            m
        },
    decreases m,
{
    if m > 0 {
        assert forall|k: int| 0 <= k < m - 1 implies !is_brace(#[trigger] s.drop_first()[k]) by {
            assert(s.drop_first()[k] == s[k + 1]);
        }
        lemma_chunk_len_at(s.drop_first(), m - 1);
    }
}

proof fn lemma_brace_balance_append(a: Seq<u8>, b: Seq<u8>)
    ensures
        brace_balance(a + b) == brace_balance(a) + brace_balance(b),
    decreases b.len(),
{
    if b.len() > 0 {
        lemma_brace_balance_append(a, b.drop_last());
        assert((a + b).drop_last() =~= a + b.drop_last());
    } else {
        assert(a + b =~= a);
    }
}

proof fn lemma_brace_balance_plain(s: Seq<u8>)
    requires
        forall|k: int| 0 <= k < s.len() ==> !is_brace(#[trigger] s[k]),
    ensures
        brace_balance(s) == 0,
    decreases s.len(),
{
    if s.len() > 0 {
        lemma_brace_balance_plain(s.drop_last());
    }
}

proof fn lemma_chunk_balance(s: Seq<u8>)
    requires
        s.len() > 0,
    ensures
        brace_balance(s.take(chunk_len(s) as int)) == brace_delta(s[chunk_len(s) - 1]),
    decreases s.len(),
{
    lemma_chunk_len_bounds(s);
    let n = chunk_len(s) as int;
    assert(seq![s[0]].drop_last() =~= Seq::<u8>::empty());
    assert(brace_balance(Seq::<u8>::empty()) == 0);
    assert(seq![s[0]].last() == s[0]);
    assert(brace_balance(seq![s[0]]) == brace_delta(s[0]));
    if !is_brace(s[0]) && s.len() > 1 {
        let t = s.drop_first();
        lemma_chunk_balance(t);
        assert(n - 1 == chunk_len(t));
        assert(s.take(n) =~= seq![s[0]] + t.take(n - 1));
        lemma_brace_balance_append(seq![s[0]], t.take(n - 1));
        assert(s[n - 1] == t[n - 2]);
    } else {
        assert(s.take(n) =~= seq![s[0]]);
    }
}

/// Writing text leaves a prettifier at its level plus the number of braces
/// the text opens, less the number it closes.
pub proof fn law_level_follows_braces(level: int, indent: Seq<u8>, buf: Seq<u8>)
    ensures
        prettify(level, indent, buf).1 == level + brace_balance(buf),
    decreases buf.len(),
{
    if buf.len() > 0 {
        lemma_chunk_len_bounds(buf);
        let n = chunk_len(buf) as int;
        let next = level + brace_delta(buf[n - 1]);
        law_level_follows_braces(next, indent, buf.skip(n));
        lemma_chunk_balance(buf);
        assert(buf =~= buf.take(n) + buf.skip(n));
        lemma_brace_balance_append(buf.take(n), buf.skip(n));
    }
}

/// Text with no braces and no newlines is written as it is.
pub proof fn law_plain_text_unchanged(level: int, indent: Seq<u8>, buf: Seq<u8>)
    requires
        forall|k: int| 0 <= k < buf.len() ==> !is_brace(#[trigger] buf[k]) && buf[k] != 10u8,
    ensures
        prettify(level, indent, buf) == (buf, level),
{
    if buf.len() > 0 {
        lemma_chunk_len_at(buf, buf.len() as int);
        assert(buf.take(buf.len() as int) =~= buf);
        lemma_indent_lines_plain(buf, level, indent);
        assert(buf.skip(buf.len() as int) =~= Seq::<u8>::empty());
        assert(prettify(level, indent, Seq::<u8>::empty()) == (Seq::<u8>::empty(), level));
        assert(brace_delta(buf[buf.len() - 1]) == 0);
        assert(buf + Seq::<u8>::empty() =~= buf);
    }
}

proof fn lemma_indent_lines_plain(s: Seq<u8>, level: int, indent: Seq<u8>)
    requires
        forall|k: int| 0 <= k < s.len() ==> s[k] != 10u8,
    ensures
        indent_lines(s, level, indent) == s,
    decreases s.len(),
{
    if s.len() > 0 {
        lemma_indent_lines_plain(s.drop_last(), level, indent);
        assert(s.drop_last().push(s.last()) =~= s);
        assert(s + Seq::<u8>::empty() =~= s);
    }
}

/// Writing text that ends with a brace, then more text, writes what the two
/// together write.
pub proof fn law_split_after_brace(level: int, indent: Seq<u8>, a: Seq<u8>, b: Seq<u8>)
    requires
        a.len() > 0 ==> is_brace(a.last()),
    ensures
        prettify(level, indent, a + b) == (
            prettify(level, indent, a).0 + prettify(prettify(level, indent, a).1, indent, b).0,
            prettify(prettify(level, indent, a).1, indent, b).1,
        ),
    decreases a.len(),
{
    if a.len() == 0 {
        assert(a + b =~= b);
        assert(Seq::<u8>::empty() + prettify(level, indent, b).0 =~= prettify(level, indent, b).0);
    } else {
        lemma_chunk_len_bounds(a);
        let n = chunk_len(a) as int;
        let ab = a + b;
        // the first chunk of `a` is the first chunk of `a + b`
        let m = n - 1;
        assert forall|k: int| 0 <= k < m implies !is_brace(#[trigger] a[k]) by {
            if is_brace(a[k]) {
                lemma_first_chunk_no_brace(a, k);
            }
        }
        assert(m == a.len() - 1 || is_brace(a[m])) by {
            lemma_chunk_last_is_brace(a);
        }
        assert forall|k: int| 0 <= k < m implies !is_brace(#[trigger] ab[k]) by {
            assert(ab[k] == a[k]);
        }
        lemma_chunk_len_at(a, m);
        lemma_chunk_len_at(ab, m);
        assert(ab.take(n) =~= a.take(n));
        assert(ab.skip(n) =~= a.skip(n) + b);
        let next = level + brace_delta(a[n - 1]);
        let rest = a.skip(n);
        assert(rest.len() > 0 ==> rest.last() == a.last());
        law_split_after_brace(next, indent, rest, b);
    }
}

proof fn lemma_first_chunk_no_brace(s: Seq<u8>, k: int)
    requires
        0 <= k < s.len(),
        is_brace(s[k]),
    ensures
        chunk_len(s) <= k + 1,
    decreases k,
{
    if k > 0 && !is_brace(s[0]) {
        assert(s.drop_first()[k - 1] == s[k]);
        lemma_first_chunk_no_brace(s.drop_first(), k - 1);
    }
}

proof fn lemma_chunk_last_is_brace(s: Seq<u8>)
    requires
        s.len() > 0,
        is_brace(s.last()),
    ensures
        is_brace(s[chunk_len(s) - 1]),
        1 <= chunk_len(s) <= s.len(),
    decreases s.len(),
{
    lemma_chunk_len_bounds(s);
    if !is_brace(s[0]) {
        lemma_chunk_last_is_brace(s.drop_first());
    }
}

/// Indents code according to the number of matched curly braces, writing
/// into a buffer of bytes.
pub struct Prettifier<'i> {
    level: isize,
    indent: &'i str,
    writer: Vec<u8>,
}

impl<'i> Prettifier<'i> {
    /// The current brace level.
    pub closed spec fn spec_level(&self) -> int {
        self.level as int
    }

    /// The brace level always fits in an `isize`.
    pub proof fn lemma_level_in_range(&self)
        ensures
            isize::MIN <= self.spec_level() <= isize::MAX,
    {
    }

    /// The text written for each level of indentation.
    pub closed spec fn spec_indent(&self) -> Seq<u8> {
        self.indent.spec_bytes()
    }

    /// Everything written so far.
    pub closed spec fn spec_output(&self) -> Seq<u8> {
        self.writer@
    }

    /// A prettifier that indents by four spaces, writing after what
    /// `writer` already holds.
    pub fn new(writer: Vec<u8>) -> (r: Self)
        ensures
            r.spec_level() == 0,
            r.spec_indent() == seq![32u8, 32u8, 32u8, 32u8],
            r.spec_output() == writer@,
    {
        let indent = "    ";
        proof {
            reveal_strlit("    ");
            vstd::string::is_ascii_spec_bytes(indent);
            assert(vstd::string::is_ascii(indent));
        }
        assert(indent.spec_bytes() =~= seq![32u8, 32u8, 32u8, 32u8]);
        Prettifier { level: 0, indent, writer }
    }

    /// A prettifier that indents by the given text.
    pub fn with_indent(indent: &'i str, writer: Vec<u8>) -> (r: Self)
        ensures
            r.spec_level() == 0,
            r.spec_indent() == indent.spec_bytes(),
            r.spec_output() == writer@,
    {
        Prettifier { level: 0, indent, writer }
    }

    /// Enters one more level of indentation, until the [Indent] is finished.
    pub fn indent(self) -> (r: Indent<'i>)
        requires
            self.spec_level() < isize::MAX,
        ensures
            r.formatter().spec_level() == self.spec_level() + 1,
            r.formatter().spec_indent() == self.spec_indent(),
            r.formatter().spec_output() == self.spec_output(),
    {
        Indent::new(self)
    }

    /// The current brace level.
    pub fn level(&self) -> (r: isize)
        ensures
            r == self.spec_level(),
    {
        self.level
    }

    /// Everything written so far.
    pub fn output(&self) -> (r: &Vec<u8>)
        ensures
            r@ == self.spec_output(),
    {
        &self.writer
    }

    /// Gives up the written bytes.
    pub fn into_output(self) -> (r: Vec<u8>)
        ensures
            r@ == self.spec_output(),
    {
        self.writer
    }

    fn put_indentation(&mut self)
        ensures
            final(self).writer@ == old(self).writer@ + repeat(old(self).indent.spec_bytes(), old(self).level as int),
            final(self).level == old(self).level,
            final(self).indent == old(self).indent,
    {
        let bytes = self.indent.as_bytes();
        let ghost start = self.writer@;
        let mut n: isize = 0;
        while n < self.level
            invariant
                0 <= n,
                self.level >= 0 ==> n <= self.level,
                self.level < 0 ==> n == 0,
                self.level == old(self).level,
                self.indent == old(self).indent,
                bytes@ == self.indent.spec_bytes(),
                self.writer@ == start + repeat(bytes@, n as int),
            decreases self.level - n,
        {
            let ghost before = self.writer@;
            let mut k: usize = 0;
            while k < bytes.len()
                invariant
                    k <= bytes@.len(),
                    0 <= n < self.level,
                    self.level == old(self).level,
                    self.indent == old(self).indent,
                    bytes@ == self.indent.spec_bytes(),
                    self.writer@ == before + bytes@.take(k as int),
                decreases bytes@.len() - k,
            {
                self.writer.push(bytes[k]);
                assert(bytes@.take(k + 1) =~= bytes@.take(k as int).push(bytes@[k as int]));
                k = k + 1;
            }
            assert(bytes@.take(bytes@.len() as int) =~= bytes@);
            assert(self.writer@ =~= start + repeat(bytes@, n + 1));
            n = n + 1;
        }
        assert(repeat(bytes@, 0) =~= Seq::<u8>::empty());
        assert(self.level <= 0 ==> repeat(bytes@, self.level as int) =~= Seq::<u8>::empty());
        assert(self.level <= 0 ==> start + Seq::<u8>::empty() =~= start);
    }

    /// Writes the indentation for the current level, and counts the bytes
    /// written.
    pub fn write_indentation(&mut self) -> (r: usize)
        requires
            old(self).spec_level() * old(self).spec_indent().len() <= usize::MAX,
        ensures
            final(self).spec_output() == old(self).spec_output() + repeat(
                old(self).spec_indent(),
                old(self).spec_level(),
            ),
            r == repeat(old(self).spec_indent(), old(self).spec_level()).len(),
            final(self).spec_level() == old(self).spec_level(),
            final(self).spec_indent() == old(self).spec_indent(),
    {
        let before = self.writer.len();
        self.put_indentation();
        proof {
            lemma_repeat_len(self.indent.spec_bytes(), self.level as int);
        }
        self.writer.len() - before
    }

    /// Writes `buf`, indenting each new line by the brace level, and counts
    /// the bytes of `buf` written.
    pub fn write(&mut self, buf: &[u8]) -> (r: usize)
        requires
            isize::MIN + buf@.len() <= old(self).spec_level() <= isize::MAX - buf@.len(),
        ensures
            r == buf@.len(),
            final(self).spec_output() == old(self).spec_output() + prettify(
                old(self).spec_level(),
                old(self).spec_indent(),
                buf@,
            ).0,
            final(self).spec_level() == prettify(old(self).spec_level(), old(self).spec_indent(), buf@).1,
            final(self).spec_indent() == old(self).spec_indent(),
    {
        let ghost ind = self.indent.spec_bytes();
        let ghost lvl0 = self.level as int;
        let ghost out0 = self.writer@;
        let ghost whole = prettify(lvl0, ind, buf@);
        let mut i: usize = 0;
        assert(buf@.skip(0) =~= buf@);
        assert(out0 + whole.0 =~= self.writer@ + prettify(self.level as int, ind, buf@.skip(0)).0);
        while i < buf.len()
            invariant
                i <= buf@.len(),
                self.indent == old(self).indent,
                ind == self.indent.spec_bytes(),
                lvl0 - i <= self.level <= lvl0 + i,
                isize::MIN + buf@.len() <= lvl0 <= isize::MAX - buf@.len(),
                whole == prettify(lvl0, ind, buf@),
                out0 + whole.0 == self.writer@ + prettify(self.level as int, ind, buf@.skip(i as int)).0,
                whole.1 == prettify(self.level as int, ind, buf@.skip(i as int)).1,
            decreases buf@.len() - i,
        {
            let ghost rest = buf@.skip(i as int);
            let mut e: usize = i;
            while e < buf.len() && buf[e] != 123u8 && buf[e] != 125u8
                invariant
                    i <= e <= buf@.len(),
                    forall|k: int| i <= k < e ==> !is_brace(#[trigger] buf@[k]),
                decreases buf@.len() - e,
            {
                e = e + 1;
            }
            let end: usize = if e < buf.len() {
                e + 1
            } else {
                e
            };
            proof {
                assert forall|k: int| 0 <= k < e - i implies !is_brace(#[trigger] rest[k]) by {
                    assert(rest[k] == buf@[i + k]);
                }
                if e < buf.len() {
                    assert(rest[e - i] == buf@[e as int]);
                }
                lemma_chunk_len_at(rest, e - i);
                lemma_chunk_len_bounds(rest);
            }
            let ghost level_before = self.level as int;
            assert(end > i);
            assert(rest.len() > 0);
            assert(chunk_len(rest) == end - i);
            if e < buf.len() {
                if buf[e] == 123u8 {
                    self.level = self.level + 1;
                } else {
                    self.level = self.level - 1;
                }
            }
            assert(self.level == level_before + brace_delta(rest[end - i - 1]));
            let ghost mid = self.writer@;
            let ghost lvl_now = self.level;
            let mut k: usize = i;
            assert(buf@.subrange(i as int, i as int) =~= Seq::<u8>::empty());
            while k < end
                invariant
                    i <= k <= end <= buf@.len(),
                    self.level == lvl_now,
                    self.indent == old(self).indent,
                    ind == self.indent.spec_bytes(),
                    self.writer@ == mid + indent_lines(buf@.subrange(i as int, k as int), self.level as int, ind),
                decreases end - k,
            {
                let b = buf[k];
                let ghost at = self.writer@;
                self.writer.push(b);
                if b == 10u8 {
                    self.put_indentation();
                }
                proof {
                    let s = buf@.subrange(i as int, k + 1);
                    assert(s.drop_last() =~= buf@.subrange(i as int, k as int));
                    if b == 10u8 {
                        assert(self.writer@ =~= at.push(b) + repeat(ind, self.level as int));
                    } else {
                        assert(self.writer@ =~= at.push(b) + Seq::<u8>::empty());
                    }
                    assert(self.writer@ =~= mid + indent_lines(s, self.level as int, ind));
                }
                k = k + 1;
            }
            proof {
                assert(rest.take(end - i) =~= buf@.subrange(i as int, end as int));
                assert(rest.skip(end - i) =~= buf@.skip(end as int));
                let p = prettify(level_before, ind, rest);
                let q = prettify(self.level as int, ind, buf@.skip(end as int));
                assert(p.0 == indent_lines(rest.take(end - i), self.level as int, ind) + q.0);
                assert(p.1 == q.1);
                assert(self.writer@ + q.0 =~= mid + p.0);
            }
            i = end;
        }
        assert(buf@.skip(buf@.len() as int) =~= Seq::<u8>::empty());
        assert(self.writer@ + Seq::<u8>::empty() =~= self.writer@);
        buf.len()
    }
}

proof fn lemma_repeat_len(s: Seq<u8>, n: int)
    ensures
        repeat(s, n).len() == if n <= 0 {
            0
        } else {
            n * s.len()
        },
    decreases n,
{
    if n > 0 {
        lemma_repeat_len(s, n - 1);
        assert(n * s.len() == (n - 1) * s.len() + s.len() && (n == 1 ==> n * s.len() == s.len()))
            by (nonlinear_arith);
    }
}

/// Turns a byte buffer into a [Prettifier] that writes after its contents.
pub trait Pretty {
    /// Indents code according to the number of matched curly braces
    fn pretty(self) -> Prettifier<'static>;
}

impl Pretty for Vec<u8> {
    /// A prettifier at level zero, indenting by four spaces, after these bytes.
    fn pretty(self) -> (r: Prettifier<'static>)
        ensures
            r.spec_level() == 0,
            r.spec_indent() == seq![32u8, 32u8, 32u8, 32u8],
            r.spec_output() == self@,
    {
        Prettifier::new(self)
    }
}

/// One more level of indentation for a [Prettifier], taken back by
/// [Indent::finish].
pub struct Indent<'i> {
    formatter: Prettifier<'i>,
}

impl<'i> Indent<'i> {
    /// The prettifier, one level further in.
    pub closed spec fn formatter(&self) -> Prettifier<'i> {
        self.formatter
    }

    pub fn new(formatter: Prettifier<'i>) -> (r: Self)
        requires
            formatter.spec_level() < isize::MAX,
        ensures
            r.formatter().spec_level() == formatter.spec_level() + 1,
            r.formatter().spec_indent() == formatter.spec_indent(),
            r.formatter().spec_output() == formatter.spec_output(),
    {
        let mut formatter = formatter;
        formatter.level = formatter.level + 1;
        Indent { formatter }
    }

    /// Writes through the prettifier.
    pub fn write(&mut self, buf: &[u8]) -> (r: usize)
        requires
            isize::MIN + buf@.len() <= old(self).formatter().spec_level() <= isize::MAX - buf@.len(),
        ensures
            r == buf@.len(),
            final(self).formatter().spec_output() == old(self).formatter().spec_output() + prettify(
                old(self).formatter().spec_level(),
                old(self).formatter().spec_indent(),
                buf@,
            ).0,
            final(self).formatter().spec_level() == prettify(
                old(self).formatter().spec_level(),
                old(self).formatter().spec_indent(),
                buf@,
            ).1,
            final(self).formatter().spec_indent() == old(self).formatter().spec_indent(),
    {
        self.formatter.write(buf)
    }

    /// Leaves the level of indentation, giving the prettifier back.
    pub fn finish(self) -> (r: Prettifier<'i>)
        requires
            self.formatter().spec_level() > isize::MIN,
        ensures
            r.spec_level() == self.formatter().spec_level() - 1,
            r.spec_indent() == self.formatter().spec_indent(),
            r.spec_output() == self.formatter().spec_output(),
    {
        let mut formatter = self.formatter;
        formatter.level = formatter.level - 1;
        formatter
    }
}


/// The text that opens and the text that closes a delimited list.
#[derive(Clone, Copy, Debug)]
pub struct Delimiters<'t> {
    pub open: &'t str,
    pub close: &'t str,
}

impl Delimiters<'static> {
    /// Delimits with braces on separate lines `{\n`, ..., `\n}`
    pub fn braces() -> (r: Self)
        ensures
            r.open@ == "{\n"@,
            r.close@ == "\n}"@,
    {
        Delimiters { open: "{\n", close: "\n}" }
    }

    /// Delimits with parentheses on separate lines `(\n`, ..., `\n)`
    pub fn parens() -> (r: Self)
        ensures
            r.open@ == "(\n"@,
            r.close@ == "\n)"@,
    {
        Delimiters { open: "(\n", close: "\n)" }
    }

    /// Delimits with square brackets on separate lines `[\n`, ..., `\n]`
    pub fn square() -> (r: Self)
        ensures
            r.open@ == "[\n"@,
            r.close@ == "\n]"@,
    {
        Delimiters { open: "[\n", close: "\n]" }
    }

    /// Delimits with braces on the same line `{ `, ..., ` }`
    pub fn inline_braces() -> (r: Self)
        ensures
            r.open@ == "{ "@,
            r.close@ == " }"@,
    {
        Delimiters { open: "{ ", close: " }" }
    }

    /// Delimits with parentheses on the same line `(`, ..., `)`
    pub fn inline_parens() -> (r: Self)
        ensures
            r.open@ == "("@,
            r.close@ == ")"@,
    {
        Delimiters { open: "(", close: ")" }
    }

    /// Delimits with square brackets on the same line `[`, ..., `]`
    pub fn inline_square() -> (r: Self)
        ensures
            r.open@ == "["@,
            r.close@ == "]"@,
    {
        Delimiters { open: "[", close: "]" }
    }
}

/// Writes `inner` between the delimiters.
pub fn delimit(inner: &str, delim: Delimiters) -> (r: String)
    ensures
        r@ == delim.open@ + inner@ + delim.close@,
{
    let mut out = delim.open.to_owned();
    out.append(inner);
    out.append(delim.close);
    out
}

/// The texts in order, with `sep` between each two.
pub open spec fn join(items: Seq<Seq<char>>, sep: Seq<char>) -> Seq<char>
    decreases items.len(),
{
    if items.len() == 0 {
        Seq::empty()
    } else if items.len() == 1 {
        items[0]
    } else {
        join(items.drop_last(), sep) + sep + items.last()
    }
}

/// The views of a slice of strings.
pub open spec fn views(items: Seq<String>) -> Seq<Seq<char>> {
    Seq::new(items.len(), |i: int| items[i]@)
}

/// Writes the items one after another, with `sep` between each two.
pub fn separate(items: &[String], sep: &str) -> (r: String)
    ensures
        r@ == join(views(items@), sep@),
{
    let mut out = String::new();
    let mut i: usize = 0;
    while i < items.len()
        invariant
            i <= items@.len(),
            out@ == join(views(items@.take(i as int)), sep@),
        decreases items@.len() - i,
    {
        if i > 0 {
            out.append(sep);
        }
        out.append(items[i].as_str());
        proof {
            let vs = views(items@.take(i + 1));
            assert(vs.drop_last() =~= views(items@.take(i as int)));
            if i == 0 {
                assert(join(Seq::<Seq<char>>::empty(), sep@) == Seq::<char>::empty());
                assert(out@ =~= items@[0]@);
            }
        }
        i = i + 1;
    }
    assert(items@.take(items@.len() as int) =~= items@);
    out
}

/// Separating a list of one item gives the item, and each further item
/// adds the separator and the item.
pub proof fn law_join_steps(items: Seq<Seq<char>>, sep: Seq<char>, item: Seq<char>)
    ensures
        join(seq![item], sep) == item,
        items.len() > 0 ==> join(items.push(item), sep) == join(items, sep) + sep + item,
{
    assert(items.push(item).drop_last() =~= items);
}

} // verus!
