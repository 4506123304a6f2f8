//! Line supply for the parser: yields the lines of one VM source text with
//! `//` comments stripped, surrounding spaces trimmed, and blank results
//! skipped.

use vstd::prelude::*;

verus! {

// ---------------------------------------------------------------------------
// What a cleaned line is.
// ---------------------------------------------------------------------------

/// Index of the first newline at or after `from`, or the length.
pub open spec fn find_newline(s: Seq<char>, from: int) -> int
    decreases s.len() - from,
{
    if from < 0 || from >= s.len() {
        s.len() as int
    } else if s[from] == '\n' {
        from
    } else {
        find_newline(s, from + 1)
    }
}

/// Index of the first `//` at or after `from`, or the length.
pub open spec fn find_comment(s: Seq<char>, from: int) -> int
    decreases s.len() - from,
{
    if from < 0 || from + 2 > s.len() {
        s.len() as int
    } else if s[from] == '/' && s[from + 1] == '/' {
        from
    } else {
        find_comment(s, from + 1)
    }
}

/// Index of the first non-space at or after `from`, or the length.
pub open spec fn skip_spaces(s: Seq<char>, from: int) -> int
    decreases s.len() - from,
{
    if from < 0 || from >= s.len() {
        s.len() as int
    } else if s[from] == ' ' {
        skip_spaces(s, from + 1)
    } else {
        from
    }
}

/// One past the last non-space strictly below `upto`, or zero.
pub open spec fn rtrim_end(s: Seq<char>, upto: int) -> int
    decreases upto,
{
    if upto <= 0 {
        0
    } else if s[upto - 1] == ' ' {
        rtrim_end(s, upto - 1)
    } else {
        upto
    }
}

/// `s` without leading and trailing spaces.
pub open spec fn trim_spaces(s: Seq<char>) -> Seq<char> {
    let a = skip_spaces(s, 0);
    let b = rtrim_end(s, s.len() as int);
    if a < b {
        s.subrange(a, b)
    } else {
        Seq::<char>::empty()
    }
}

/// A raw line after comment stripping and trimming.
pub open spec fn clean_line(l: Seq<char>) -> Seq<char> {
    trim_spaces(l.subrange(0, find_comment(l, 0)))
}

/// The cleaned, non-blank lines of `s` from position `pos` on.
pub open spec fn cleaned_lines(s: Seq<char>, pos: int) -> Seq<Seq<char>>
    decreases s.len() - pos + 1,
    via cleaned_lines_decreases
{
    if pos < 0 || pos >= s.len() {
        Seq::<Seq<char>>::empty()
    } else {
        let e = find_newline(s, pos);
        let c = clean_line(s.subrange(pos, e));
        let rest = cleaned_lines(s, e + 1);
        if c.len() == 0 {
            rest
        } else {
            seq![c] + rest
        }
    }
}

#[via_fn]
proof fn cleaned_lines_decreases(s: Seq<char>, pos: int) {
    if 0 <= pos < s.len() {
        lemma_find_newline_props(s, pos);
    }
}

// ---------------------------------------------------------------------------
// Characterizations of the scanners, for the executable loops.
// ---------------------------------------------------------------------------

pub proof fn lemma_find_newline_props(s: Seq<char>, from: int)
    requires
        0 <= from <= s.len(),
    ensures
        from <= find_newline(s, from) <= s.len(),
        find_newline(s, from) < s.len() ==> s[find_newline(s, from)] == '\n',
        forall|k: int| from <= k < find_newline(s, from) ==> s[k] != '\n',
    decreases s.len() - from,
{
    if from < s.len() && s[from] != '\n' {
        lemma_find_newline_props(s, from + 1);
    }
}

pub proof fn lemma_find_comment_props(s: Seq<char>, from: int)
    requires
        0 <= from <= s.len(),
    ensures
        from <= find_comment(s, from) <= s.len(),
        find_comment(s, from) < s.len() ==> find_comment(s, from) + 1 < s.len() && s[find_comment(
            s,
            from,
        )] == '/' && s[find_comment(s, from) + 1] == '/',
        forall|k: int|
            from <= k < find_comment(s, from) && k + 1 < s.len() ==> !(#[trigger] s[k] == '/'
                && s[k + 1] == '/'),
    decreases s.len() - from,
{
    if from + 2 <= s.len() && !(s[from] == '/' && s[from + 1] == '/') {
        lemma_find_comment_props(s, from + 1);
    }
}

pub proof fn lemma_skip_spaces_props(s: Seq<char>, from: int)
    requires
        0 <= from <= s.len(),
    ensures
        from <= skip_spaces(s, from) <= s.len(),
        skip_spaces(s, from) < s.len() ==> s[skip_spaces(s, from)] != ' ',
        forall|k: int| from <= k < skip_spaces(s, from) ==> s[k] == ' ',
    decreases s.len() - from,
{
    if from < s.len() && s[from] == ' ' {
        lemma_skip_spaces_props(s, from + 1);
    }
}

pub proof fn lemma_rtrim_props(s: Seq<char>, upto: int)
    requires
        0 <= upto <= s.len(),
    ensures
        0 <= rtrim_end(s, upto) <= upto,
        rtrim_end(s, upto) > 0 ==> s[rtrim_end(s, upto) - 1] != ' ',
        forall|k: int| rtrim_end(s, upto) <= k < upto ==> s[k] == ' ',
    decreases upto,
{
    if upto > 0 && s[upto - 1] == ' ' {
        lemma_rtrim_props(s, upto - 1);
    }
}

// ---------------------------------------------------------------------------
// The line supply.
// ---------------------------------------------------------------------------

/// Holds one file's text and a cursor; `next` yields the cleaned lines in
/// order.
pub struct Vmlines {
    text: String,
    pos: usize,
}

impl Vmlines {
    /// The cleaned lines not yet yielded.
    pub closed spec fn rem(self) -> Seq<Seq<char>> {
        cleaned_lines(self.text@, self.pos as int)
    }

    pub fn new(text: &str) -> (r: Vmlines)
        ensures
            r.rem() == cleaned_lines(text@, 0),
    {
        Vmlines { text: text.to_owned(), pos: 0 }
    }

    /// Yields the next cleaned, non-blank line, or `None` at the end.
    pub fn next(&mut self) -> (r: Option<String>)
        ensures
            old(self).rem().len() == 0 ==> r is None && final(self).rem() == old(self).rem(),
            old(self).rem().len() > 0 ==> r is Some && r->Some_0@ == old(self).rem()[0]
                && final(self).rem() == old(self).rem().drop_first(),
    {
        let len = self.text.as_str().unicode_len();
        loop
            invariant
                self.text == old(self).text,
                len == self.text@.len(),
                cleaned_lines(self.text@, self.pos as int) == old(self).rem(),
            decreases len - self.pos,
        {
            let ghost s = self.text@;
            let ghost p = self.pos as int;
            if self.pos >= len {
                return None;
            }
            // Find the end of the raw line.
            let mut e: usize = self.pos;
            while e < len && self.text.as_str().get_char(e) != '\n'
                invariant
                    self.pos <= e <= len,
                    len == self.text@.len(),
                    s == self.text@,
                    forall|k: int| self.pos <= k < e ==> s[k] != '\n',
                decreases len - e,
            {
                e = e + 1;
            }
            proof {
                lemma_find_newline_props(s, p);
                if e < len {
                    assert(s[e as int] == '\n');
                }
                assert(e as int == find_newline(s, p)) by {
                    if (e as int) < find_newline(s, p) {
                        assert(s[e as int] != '\n');
                    }
                    if find_newline(s, p) < e as int {
                        assert(s[find_newline(s, p)] != '\n');
                    }
                }
            }
            let raw = self.text.as_str().substring_char(self.pos, e);
            let ghost line = s.subrange(p, e as int);
            let rlen = e - self.pos;
            // Strip the first `//` comment, if any.
            let mut c: usize = 0;
            while c < rlen && c + 1 < rlen && !(raw.get_char(c) == '/' && raw.get_char(c + 1) == '/')
                invariant
                    0 <= c <= rlen,
                    rlen == raw@.len(),
                    raw@ == line,
                    forall|k: int|
                        0 <= k < c && k + 1 < line.len() ==> !(#[trigger] line[k] == '/' && line[k
                            + 1] == '/'),
                decreases rlen - c,
            {
                c = c + 1;
            }
            if c >= rlen {
                c = rlen;
            } else if c + 1 >= rlen {
                c = rlen;
            }
            proof {
                lemma_find_comment_props(line, 0);
                assert(c as int == find_comment(line, 0)) by {
                    if (c as int) < find_comment(line, 0) {
                        assert(line[c as int] == '/' && line[c as int + 1] == '/');
                    }
                    if find_comment(line, 0) < c as int {
                        assert(!(line[find_comment(line, 0)] == '/' && line[find_comment(line, 0)
                            + 1] == '/'));
                    }
                }
            }
            let cut = raw.substring_char(0, c);
            let ghost cutv = line.subrange(0, c as int);
            proof {
                assert(cut@ == cutv);
            }
            // Trim spaces from both ends.
            let mut a: usize = 0;
            while a < c && cut.get_char(a) == ' '
                invariant
                    0 <= a <= c,
                    c == cut@.len(),
                    cut@ == cutv,
                    forall|k: int| 0 <= k < a ==> cutv[k] == ' ',
                decreases c - a,
            {
                a = a + 1;
            }
            proof {
                lemma_skip_spaces_props(cutv, 0);
                assert(a as int == skip_spaces(cutv, 0)) by {
                    if (a as int) < skip_spaces(cutv, 0) {
                        assert(cutv[a as int] != ' ');
                    }
                    if skip_spaces(cutv, 0) < a as int {
                        assert(cutv[skip_spaces(cutv, 0)] == ' ');
                    }
                }
            }
            let mut b: usize = c;
            while b > 0 && cut.get_char(b - 1) == ' '
                invariant
                    0 <= b <= c,
                    c == cut@.len(),
                    cut@ == cutv,
                    forall|k: int| b <= k < c ==> cutv[k] == ' ',
                decreases b,
            {
                b = b - 1;
            }
            proof {
                lemma_rtrim_props(cutv, c as int);
                assert(b as int == rtrim_end(cutv, c as int)) by {
                    if (b as int) < rtrim_end(cutv, c as int) {
                        assert(cutv[rtrim_end(cutv, c as int) - 1] != ' ');
                        assert(cutv[rtrim_end(cutv, c as int) - 1] == ' ');
                    }
                    if rtrim_end(cutv, c as int) < b as int {
                        assert(cutv[b as int - 1] == ' ');
                    }
                }
            }
            let next_pos: usize = if e < len {
                e + 1
            } else {
                len
            };
            proof {
                assert(cleaned_lines(s, p) == if clean_line(line).len() == 0 {
                    cleaned_lines(s, e as int + 1)
                } else {
                    seq![clean_line(line)] + cleaned_lines(s, e as int + 1)
                });
                assert(cleaned_lines(s, next_pos as int) == cleaned_lines(s, e as int + 1));
            }
            if a < b {
                let t = cut.substring_char(a, b);
                let out = t.to_owned();
                self.pos = next_pos;
                proof {
                    assert(out@ == clean_line(line));
                    assert(old(self).rem()[0] == out@);
                    assert(self.rem() =~= old(self).rem().drop_first());
                }
                return Some(out);
            } else {
                proof {
                    assert(clean_line(line).len() == 0);
                }
                self.pos = next_pos;
            }
        }
    }
}

} // verus!
