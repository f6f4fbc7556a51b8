//! A [Printer] lays out a syntax tree as text, keeping track of how deeply
//! the current line is indented.
use vstd::prelude::*;
use vstd::string::StringExecFns;
use crate::ast::{Continue, Identifier, Literal, Path, PathPart};
use crate::ast_text::{identifier_text, literal_text, path_part_text, path_text};

verus! {

/// `n` spaces.
pub open spec fn spaces(n: nat) -> Seq<char>
    decreases n,
{
    if n == 0 {
        Seq::empty()
    } else {
        spaces((n - 1) as nat).push(' ')
    }
}

/// Prints text into a buffer, indenting new lines by four spaces a level.
#[derive(Debug)]
pub struct Printer {
    level: u32,
    writer: String,
}

impl Printer {
    /// The indentation level.
    pub closed spec fn spec_level(&self) -> nat {
        self.level as nat
    }

    /// The indentation level always fits in a `u32`.
    pub proof fn lemma_level_in_range(&self)
        ensures
            self.spec_level() <= u32::MAX,
    {
    }

    /// Everything printed so far.
    pub closed spec fn spec_output(&self) -> Seq<char> {
        self.writer@
    }

    /// A printer at level zero, printing after what `writer` holds.
    pub fn new(writer: String) -> (r: Self)
        ensures
            r.spec_level() == 0,
            r.spec_output() == writer@,
    {
        Printer { level: 0, writer }
    }

    /// The indentation level.
    pub fn level(&self) -> (r: u32)
        ensures
            r == self.spec_level(),
    {
        self.level
    }

    /// Everything printed so far.
    pub fn output(&self) -> (r: &String)
        ensures
            r@ == self.spec_output(),
    {
        &self.writer
    }

    /// Gives up the printed text.
    pub fn into_output(self) -> (r: String)
        ensures
            r@ == self.spec_output(),
    {
        self.writer
    }

    /// Writes the indentation of the current level: four spaces a level.
    pub fn pad(&mut self) -> (r: &mut Self)
        requires
            old(self).spec_level() * 4 <= u32::MAX,
        ensures
            r.spec_output() == old(self).spec_output() + spaces(old(self).spec_level() * 4),
            r.spec_level() == old(self).spec_level(),
            *final(self) == *final(r),
    {
        let n: u32 = self.level * 4;
        let ghost start = self.writer@;
        let mut i: u32 = 0;
        while i < n
            invariant
                i <= n,
                n == self.level * 4,
                self.level == old(self).level,
                self.writer@ == start + spaces(i as nat),
            decreases n - i,
        {
            self.writer.append(" ");
            proof {
                reveal_strlit(" ");
            }
            assert(self.writer@ =~= start + spaces((i + 1) as nat));
            i = i + 1;
        }
        self
    }

    /// Ends the line and indents the next one.
    pub fn newline(&mut self) -> (r: &mut Self)
        requires
            old(self).spec_level() * 4 <= u32::MAX,
        ensures
            r.spec_output() == old(self).spec_output() + seq!['\n'] + spaces(
                old(self).spec_level() * 4,
            ),
            r.spec_level() == old(self).spec_level(),
            *final(self) == *final(r),
    {
        self.writer.append("\n");
        proof {
            reveal_strlit("\n");
        }
        let ghost mid = self.writer@;
        self.pad();
        assert(mid == old(self).spec_output() + seq!['\n']);
        self
    }

    /// Writes some text.
    pub fn put(&mut self, d: &str) -> (r: &mut Self)
        ensures
            r.spec_output() == old(self).spec_output() + d@,
            r.spec_level() == old(self).spec_level(),
            *final(self) == *final(r),
    {
        self.writer.append(d);
        self
    }

    /// Writes one space.
    pub fn space(&mut self) -> (r: &mut Self)
        ensures
            r.spec_output() == old(self).spec_output() + seq![' '],
            r.spec_level() == old(self).spec_level(),
            *final(self) == *final(r),
    {
        self.writer.append(" ");
        proof {
            reveal_strlit(" ");
        }
        assert(" "@ =~= seq![' ']);
        self
    }

    /// Increase the indentation level by 1
    pub fn indent(&mut self) -> (r: &mut Self)
        requires
            old(self).spec_level() < u32::MAX,
        ensures
            r.spec_level() == old(self).spec_level() + 1,
            r.spec_output() == old(self).spec_output(),
            *final(self) == *final(r),
    {
        self.level = self.level + 1;
        self
    }

    /// Decrease the indentation level by 1
    pub fn dedent(&mut self) -> (r: &mut Self)
        requires
            old(self).spec_level() > 0,
        ensures
            r.spec_level() == old(self).spec_level() - 1,
            r.spec_output() == old(self).spec_output(),
            *final(self) == *final(r),
    {
        self.level = self.level - 1;
        self
    }
}

/// A syntax tree node that a [Printer] can lay out.
pub trait PrettyPrintable {
    /// Prints this node: the printer's text grows, its level stays.
    fn visit(&self, p: &mut Printer)
        ensures
            old(p).spec_output().is_prefix_of(final(p).spec_output()),
            final(p).spec_level() == old(p).spec_level(),
    ;
}

impl PrettyPrintable for Identifier {
    /// Prints the name.
    fn visit(&self, p: &mut Printer)
        ensures
            final(p).spec_output() == old(p).spec_output() + identifier_text(*self),
    {
        p.put(self.0.as_str());
        assert(old(p).spec_output().is_prefix_of(p.spec_output()));
    }
}

impl PrettyPrintable for PathPart {
    /// Prints `super`, `self` or the name.
    fn visit(&self, p: &mut Printer)
        ensures
            final(p).spec_output() == old(p).spec_output() + path_part_text(*self),
    {
        match self {
            PathPart::SuperKw => {
                p.put("super");
            },
            PathPart::SelfKw => {
                p.put("self");
            },
            PathPart::Ident(id) => {
                p.put(id.0.as_str());
            },
        }
        assert(old(p).spec_output().is_prefix_of(p.spec_output()));
    }
}

impl PrettyPrintable for Path {
    /// Prints the parts, joined by `::`, after a leading `::` if the path is absolute.
    fn visit(&self, p: &mut Printer)
        ensures
            final(p).spec_output() == old(p).spec_output() + path_text(*self),
    {
        let t = self.to_text();
        p.put(t.as_str());
        assert(old(p).spec_output().is_prefix_of(p.spec_output()));
    }
}

impl PrettyPrintable for Literal {
    /// Prints the literal as it is written in source.
    fn visit(&self, p: &mut Printer)
        ensures
            final(p).spec_output() == old(p).spec_output() + literal_text(*self),
    {
        let t = self.to_text();
        p.put(t.as_str());
        assert(old(p).spec_output().is_prefix_of(p.spec_output()));
    }
}

impl PrettyPrintable for Continue {
    /// Prints `continue`.
    fn visit(&self, p: &mut Printer)
        ensures
            final(p).spec_output() == old(p).spec_output() + "continue"@,
    {
        p.put("continue");
        assert(old(p).spec_output().is_prefix_of(p.spec_output()));
    }
}

/// Padding at a level writes four spaces for each level.
pub proof fn law_spaces_len(n: nat)
    ensures
        spaces(n).len() == n,
        forall|i: int| 0 <= i < n ==> spaces(n)[i] == ' ',
    decreases n,
{
    if n > 0 {
        law_spaces_len((n - 1) as nat);
    }
}

} // verus!
