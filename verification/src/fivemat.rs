//! Indent-aware writing: a text buffer that indents every line it is given.

use vstd::prelude::*;
use crate::text::{chars_of, push_char, push_str, string_of_range};

verus! {

/// A text buffer that starts every non-empty line with the current indent.
#[derive(Debug)]
pub struct Fivemat {
    indent_text: String,
    indent: usize,
    indent_pending: bool,
    out: String,
}

/// The abstract form of a [`Fivemat`].
pub struct FivematV {
    /// The text repeated once per indent level.
    pub indent_text: Seq<char>,
    /// The indent level.
    pub indent: nat,
    /// Whether the current line has not been indented yet.
    pub indent_pending: bool,
    /// What has been written.
    pub out: Seq<char>,
}

impl View for Fivemat {
    type V = FivematV;

    closed spec fn view(&self) -> FivematV {
        FivematV {
            indent_text: self.indent_text@,
            indent: self.indent as nat,
            indent_pending: self.indent_pending,
            out: self.out@,
        }
    }
}

/// `t` repeated `n` times.
pub open spec fn repeat(t: Seq<char>, n: nat) -> Seq<char>
    decreases n,
{
    if n == 0 { Seq::empty() } else { repeat(t, (n - 1) as nat) + t }
}

/// Indents the current line if it has not been.
pub open spec fn spec_ensure_indent(f: FivematV) -> FivematV {
    if f.indent_pending {
        FivematV { out: f.out + repeat(f.indent_text, f.indent), indent_pending: false, ..f }
    } else {
        f
    }
}

/// Ends the current line.
pub open spec fn spec_newline(f: FivematV) -> FivematV {
    FivematV { out: f.out.push('\n'), indent_pending: true, ..f }
}

/// Writes the text of one line (nothing, not even the indent, if it is empty).
pub open spec fn spec_write_line(f: FivematV, line: Seq<char>) -> FivematV {
    if line.len() == 0 {
        f
    } else {
        let g = spec_ensure_indent(f);
        FivematV { out: g.out + line, ..g }
    }
}

/// The position of the first `'\n'` of `s` at or after `i`.
pub open spec fn find_newline(s: Seq<char>, i: int) -> Option<int>
    decreases s.len() - i,
{
    if i < 0 || i >= s.len() {
        None
    } else if s[i] == '\n' {
        Some(i)
    } else {
        find_newline(s, i + 1)
    }
}

pub proof fn lemma_find_newline(s: Seq<char>, i: int)
    ensures
        find_newline(s, i) matches Some(p) ==> 0 <= i <= p < s.len() && s[p] == '\n',
    decreases s.len() - i,
{
    if 0 <= i < s.len() && s[i] != '\n' {
        lemma_find_newline(s, i + 1);
    }
}

/// A line without the `'\r'` of a `"\r\n"` line ending.
pub open spec fn strip_cr(l: Seq<char>) -> Seq<char> {
    if l.len() > 0 && l.last() == '\r' { l.drop_last() } else { l }
}

/// Writes the lines of `s` (split at `'\n'`, a `"\r\n"` ending counting as
/// one, no final empty line after a last line ending), ending the current
/// line before each line but the first when `first`.
pub open spec fn spec_write_lines(f: FivematV, s: Seq<char>, first: bool) -> FivematV
    decreases s.len(),
{
    if s.len() == 0 {
        f
    } else {
        let f1 = if first { f } else { spec_newline(f) };
        proof { lemma_find_newline(s, 0); }
        match find_newline(s, 0) {
            Some(p) => spec_write_lines(spec_write_line(f1, strip_cr(s.subrange(0, p))), s.subrange(p + 1, s.len() as int), false),
            None => spec_write_line(f1, s),
        }
    }
}

/// Whether `s` ends with a line ending (`"\n"`, `"\r\n"` or `"\n\r"`).
pub open spec fn ends_with_newline(s: Seq<char>) -> bool {
    (s.len() >= 1 && s.last() == '\n') || (s.len() >= 2 && s[s.len() - 2] == '\n' && s.last() == '\r')
}

/// Writes `s`, indenting each of its non-empty lines.
pub open spec fn spec_write_str(f: FivematV, s: Seq<char>) -> FivematV {
    let g = spec_write_lines(f, s, true);
    if ends_with_newline(s) { spec_newline(g) } else { g }
}

proof fn lemma_write_lines_keeps(f: FivematV, s: Seq<char>, first: bool)
    ensures
        spec_write_lines(f, s, first).indent == f.indent,
        spec_write_lines(f, s, first).indent_text == f.indent_text,
    decreases s.len(),
{
    if s.len() > 0 {
        let f1 = if first { f } else { spec_newline(f) };
        lemma_find_newline(s, 0);
        match find_newline(s, 0) {
            Some(p) => lemma_write_lines_keeps(spec_write_line(f1, strip_cr(s.subrange(0, p))), s.subrange(p + 1, s.len() as int), false),
            None => {},
        }
    }
}

/// Writing keeps the indent level and the indent text.
pub proof fn lemma_write_str_keeps(f: FivematV, s: Seq<char>)
    ensures
        spec_write_str(f, s).indent == f.indent,
        spec_write_str(f, s).indent_text == f.indent_text,
{
    lemma_write_lines_keeps(f, s, true);
}

/// Writing nothing changes nothing.
pub proof fn lemma_write_str_empty(f: FivematV)
    ensures
        spec_write_str(f, Seq::empty()) == f,
{
}

/// Indentation held by [`Fivemat::indent_many`], given back by [`FivematIndent::end`].
#[derive(Debug)]
pub struct FivematIndent {
    count: usize,
}

impl FivematIndent {
    /// The indent levels held.
    pub closed spec fn count(&self) -> usize {
        self.count
    }

    /// Gives the indentation back.
    pub fn end(self, f: &mut Fivemat)
        requires
            self.count() <= old(f)@.indent,
        ensures
            final(f)@ == (FivematV { indent: (old(f)@.indent - self.count()) as nat, ..old(f)@ }),
    {
        f.sub_indent(self.count);
    }
}

impl Fivemat {
    /// An empty buffer indenting with `indent_text`.
    pub fn new(indent_text: String) -> (r: Fivemat)
        ensures
            r@ == (FivematV { indent_text: indent_text@, indent: 0, indent_pending: true, out: Seq::empty() }),
    {
        Fivemat { indent_text, indent: 0, indent_pending: true, out: String::new() }
    }

    /// What has been written.
    pub fn output(&self) -> (r: &String)
        ensures
            r@ == self@.out,
    {
        &self.out
    }

    /// Indents one level more until the returned indentation ends.
    pub fn indent(&mut self) -> (r: FivematIndent)
        requires
            old(self)@.indent + 1 <= usize::MAX,
        ensures
            final(self)@ == (FivematV { indent: old(self)@.indent + 1, ..old(self)@ }),
            r.count() == 1,
    {
        self.indent_many(1)
    }

    /// Indents `count` levels more until the returned indentation ends.
    pub fn indent_many(&mut self, count: usize) -> (r: FivematIndent)
        requires
            old(self)@.indent + count <= usize::MAX,
        ensures
            final(self)@ == (FivematV { indent: old(self)@.indent + count as nat, ..old(self)@ }),
            r.count() == count,
    {
        self.add_indent(count);
        FivematIndent { count }
    }

    /// Indents `count` levels more.
    pub fn add_indent(&mut self, count: usize)
        requires
            old(self)@.indent + count <= usize::MAX,
        ensures
            final(self)@ == (FivematV { indent: old(self)@.indent + count as nat, ..old(self)@ }),
    {
        self.indent = self.indent + count;
    }

    /// The indent level is that of a `usize`, so a caller may indent again
    /// as far as one reaches.
    pub proof fn lemma_indent_fits(&self)
        ensures
            self@.indent <= usize::MAX,
    {
    }

    /// Indents `count` levels less.
    pub fn sub_indent(&mut self, count: usize)
        requires
            count <= old(self)@.indent,
        ensures
            final(self)@ == (FivematV { indent: (old(self)@.indent - count) as nat, ..old(self)@ }),
    {
        self.indent = self.indent - count;
    }

    /// Indents the current line if it has not been.
    pub fn ensure_indent(&mut self)
        ensures
            final(self)@ == spec_ensure_indent(old(self)@),
    {
        if !self.indent_pending {
            return;
        }
        let mut i: usize = 0;
        while i < self.indent
            invariant
                i <= self.indent,
                self.indent == old(self).indent,
                self.indent_text == old(self).indent_text,
                self.indent_pending == old(self).indent_pending,
                self.out@ == old(self)@.out + repeat(self.indent_text@, i as nat),
            decreases self.indent - i,
        {
            let ghost before = self.out@;
            push_str(&mut self.out, self.indent_text.as_str());
            i = i + 1;
            assert(self.out@ =~= old(self)@.out + repeat(self.indent_text@, i as nat));
        }
        self.indent_pending = false;
    }

    /// Ends the current line.
    pub fn newline(&mut self)
        ensures
            final(self)@ == spec_newline(old(self)@),
    {
        self.indent_pending = true;
        push_char(&mut self.out, '\n');
    }

    /// Writes `line`, a line without line ending (nothing if it is empty).
    fn write_line(&mut self, line: &str)
        ensures
            final(self)@ == spec_write_line(old(self)@, line@),
    {
        if line.unicode_len() == 0 {
            return;
        }
        self.ensure_indent();
        push_str(&mut self.out, line);
    }

    /// Writes `s`, indenting each of its non-empty lines.
    pub fn write_str(&mut self, s: &str)
        ensures
            final(self)@ == spec_write_str(old(self)@, s@),
    {
        let cs = chars_of(s);
        let n = cs.len();
        let mut start: usize = 0;
        let mut first = true;
        assert(cs@.subrange(0, n as int) =~= s@);
        while start < n
            invariant
                n == cs@.len(),
                cs@ == s@,
                start <= n,
                spec_write_lines(old(self)@, s@, true)
                    == spec_write_lines(self@, cs@.subrange(start as int, n as int), first),
            decreases n - start,
        {
            let ghost rest = cs@.subrange(start as int, n as int);
            if !first {
                self.newline();
            }
            first = false;
            let mut p: usize = start;
            while p < n && cs[p] != '\n'
                invariant
                    start <= p <= n,
                    n == cs@.len(),
                    rest == cs@.subrange(start as int, n as int),
                    find_newline(rest, 0) == find_newline(rest, (p - start) as int),
                decreases n - p,
            {
                p = p + 1;
            }
            if p < n {
                assert(find_newline(rest, 0) == Some((p - start) as int));
                let mut end = p;
                if end > start && cs[end - 1] == '\r' {
                    end = end - 1;
                }
                let line = string_of_range(cs.as_slice(), start, end);
                assert(line@ =~= strip_cr(rest.subrange(0, (p - start) as int)));
                self.write_line(line.as_str());
                assert(rest.subrange((p - start) + 1, rest.len() as int) =~= cs@.subrange(p + 1, n as int));
                start = p + 1;
            } else {
                assert(find_newline(rest, 0) is None);
                let line = string_of_range(cs.as_slice(), start, n);
                assert(line@ =~= rest);
                self.write_line(line.as_str());
                start = n;
                assert(cs@.subrange(n as int, n as int).len() == 0);
            }
        }
        let ends = (n >= 1 && cs[n - 1] == '\n') || (n >= 2 && cs[n - 2] == '\n' && cs[n - 1] == '\r');
        if ends {
            self.newline();
        }
    }
}

} // verus!
