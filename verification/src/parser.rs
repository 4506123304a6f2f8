//! Parser for one VM source file: reads cleaned lines from the line supply,
//! classifies each command, and gives access to its operands.

use vstd::prelude::*;
use crate::vmlines::{Vmlines, cleaned_lines};

verus! {

// ---------------------------------------------------------------------------
// Words of a command line.
// ---------------------------------------------------------------------------

/// Index of the first space at or after `from`, or the length.
pub open spec fn find_space(s: Seq<char>, from: int) -> int
    decreases s.len() - from,
{
    if from < 0 || from >= s.len() {
        s.len() as int
    } else if s[from] == ' ' {
        from
    } else {
        find_space(s, from + 1)
    }
}

pub proof fn lemma_find_space_props(s: Seq<char>, from: int)
    requires
        0 <= from <= s.len(),
    ensures
        from <= find_space(s, from) <= s.len(),
        find_space(s, from) < s.len() ==> s[find_space(s, from)] == ' ',
        forall|k: int| from <= k < find_space(s, from) ==> s[k] != ' ',
    decreases s.len() - from,
{
    if from < s.len() && s[from] != ' ' {
        lemma_find_space_props(s, from + 1);
    }
}

/// The space-separated words of `s` from position `pos` on, empties dropped.
pub open spec fn words_from(s: Seq<char>, pos: int) -> Seq<Seq<char>>
    decreases s.len() - pos + 1,
    via words_from_decreases
{
    if pos < 0 || pos >= s.len() {
        Seq::<Seq<char>>::empty()
    } else if s[pos] == ' ' {
        words_from(s, pos + 1)
    } else {
        let e = find_space(s, pos);
        seq![s.subrange(pos, e)] + words_from(s, e + 1)
    }
}

#[via_fn]
proof fn words_from_decreases(s: Seq<char>, pos: int) {
    if 0 <= pos < s.len() {
        lemma_find_space_props(s, pos);
    }
}

/// The space-separated words of a command line.
pub open spec fn words_of(s: Seq<char>) -> Seq<Seq<char>> {
    words_from(s, 0)
}

// ---------------------------------------------------------------------------
// Classification.
// ---------------------------------------------------------------------------

/// The ASCII whitespace trimmed off the command word before classification.
pub open spec fn is_ws(c: char) -> bool {
    c == ' ' || c == '\t' || c == '\n' || c == '\r'
}

/// Index of the first non-whitespace at or after `from`, or the length.
pub open spec fn skip_ws(s: Seq<char>, from: int) -> int
    decreases s.len() - from,
{
    if from < 0 || from >= s.len() {
        s.len() as int
    } else if is_ws(s[from]) {
        skip_ws(s, from + 1)
    } else {
        from
    }
}

/// One past the last non-whitespace strictly below `upto`, or zero.
pub open spec fn rtrim_ws(s: Seq<char>, upto: int) -> int
    decreases upto,
{
    if upto <= 0 {
        0
    } else if is_ws(s[upto - 1]) {
        rtrim_ws(s, upto - 1)
    } else {
        upto
    }
}

/// `s` without leading and trailing ASCII whitespace.
pub open spec fn trim_ws(s: Seq<char>) -> Seq<char> {
    let a = skip_ws(s, 0);
    let b = rtrim_ws(s, s.len() as int);
    if a < b {
        s.subrange(a, b)
    } else {
        Seq::<char>::empty()
    }
}

pub proof fn lemma_skip_ws_props(s: Seq<char>, from: int)
    requires
        0 <= from <= s.len(),
    ensures
        from <= skip_ws(s, from) <= s.len(),
        skip_ws(s, from) < s.len() ==> !is_ws(s[skip_ws(s, from)]),
        forall|k: int| from <= k < skip_ws(s, from) ==> is_ws(s[k]),
    decreases s.len() - from,
{
    if from < s.len() && is_ws(s[from]) {
        lemma_skip_ws_props(s, from + 1);
    }
}

pub proof fn lemma_rtrim_ws_props(s: Seq<char>, upto: int)
    requires
        0 <= upto <= s.len(),
    ensures
        0 <= rtrim_ws(s, upto) <= upto,
        rtrim_ws(s, upto) > 0 ==> !is_ws(s[rtrim_ws(s, upto) - 1]),
        forall|k: int| rtrim_ws(s, upto) <= k < upto ==> is_ws(s[k]),
    decreases upto,
{
    if upto > 0 && is_ws(s[upto - 1]) {
        lemma_rtrim_ws_props(s, upto - 1);
    }
}

/// The kind of a VM command.  The nine arithmetic mnemonics all classify as
/// `ARITHMETIC`; a word the dispatcher does not know classifies as
/// `Unknown`.
#[allow(non_camel_case_types)]
#[derive(Debug, Clone, Copy, PartialEq, Eq, Structural)]
pub enum CommandType {
    ARITHMETIC,
    PUSH,
    POP,
    LABEL,
    GOTO,
    IF,
    FUNCTION,
    RETURN,
    CALL,
    Unknown,
}

/// The command word of a line: its first space-separated token, trimmed of
/// surrounding whitespace.
pub open spec fn command_word(cmd: Seq<char>) -> Seq<char> {
    trim_ws(cmd.subrange(0, find_space(cmd, 0)))
}

/// Classification of one command line by its command word.
pub open spec fn classify(cmd: Seq<char>) -> CommandType {
    let w = command_word(cmd);
    if w == "add"@ || w == "sub"@ || w == "neg"@ || w == "eq"@ || w == "gt"@ || w == "lt"@ || w
        == "and"@ || w == "or"@ || w == "not"@ {
        CommandType::ARITHMETIC
    } else if w == "push"@ {
        CommandType::PUSH
    } else if w == "pop"@ {
        CommandType::POP
    } else if w == "label"@ {
        CommandType::LABEL
    } else if w == "goto"@ {
        CommandType::GOTO
    } else if w == "if-goto"@ {
        CommandType::IF
    } else if w == "function"@ {
        CommandType::FUNCTION
    } else if w == "return"@ {
        CommandType::RETURN
    } else if w == "call"@ {
        CommandType::CALL
    } else {
        CommandType::Unknown
    }
}

/// Classification of the parser's current command, `Unknown` when there is
/// none.
pub open spec fn classify_opt(cur: Option<Seq<char>>) -> CommandType {
    match cur {
        Option::Some(c) => classify(c),
        Option::None => CommandType::Unknown,
    }
}

// ---------------------------------------------------------------------------
// Operands.
// ---------------------------------------------------------------------------

/// The first operand: the second word for two- or three-word commands, the
/// command itself for one-word commands (so an arithmetic command yields its
/// own mnemonic), nothing otherwise.
pub open spec fn arg1_of(cmd: Seq<char>) -> Option<Seq<char>> {
    let ws = words_of(cmd);
    if ws.len() == 3 || ws.len() == 2 {
        Some(ws[1])
    } else if ws.len() == 1 {
        Some(ws[0])
    } else {
        None
    }
}

pub open spec fn is_digit(c: char) -> bool {
    '0' <= c && c <= '9'
}

pub open spec fn digit_val(c: char) -> int {
    c as int - 48
}

/// The value of a digit string, most significant digit first.
pub open spec fn digits_val(s: Seq<char>) -> int
    decreases s.len(),
{
    if s.len() == 0 {
        0
    } else {
        digits_val(s.drop_last()) * 10 + digit_val(s.last())
    }
}

pub open spec fn all_digits(s: Seq<char>) -> bool {
    forall|i: int| 0 <= i < s.len() ==> is_digit(#[trigger] s[i])
}

/// What `isize` parsing accepts: an optional sign followed by at least one
/// digit, the value within the machine's signed range.
pub open spec fn parse_isize_spec(s: Seq<char>) -> Option<int> {
    let body = if s.len() > 0 && (s[0] == '+' || s[0] == '-') {
        s.drop_first()
    } else {
        s
    };
    let neg = s.len() > 0 && s[0] == '-';
    if body.len() > 0 && all_digits(body) {
        let v = if neg {
            -digits_val(body)
        } else {
            digits_val(body)
        };
        if isize::MIN <= v <= isize::MAX {
            Some(v)
        } else {
            None
        }
    } else {
        None
    }
}

/// The second operand: the third word of a three-word command parsed as an
/// `isize`, nothing otherwise.
pub open spec fn arg2_of(cmd: Seq<char>) -> Option<int> {
    let ws = words_of(cmd);
    if ws.len() == 3 {
        parse_isize_spec(ws[2])
    } else {
        None
    }
}

proof fn lemma_digits_val_nonneg(s: Seq<char>)
    requires
        all_digits(s),
    ensures
        digits_val(s) >= 0,
    decreases s.len(),
{
    if s.len() > 0 {
        assert(all_digits(s.drop_last())) by {
            assert(forall|i: int|
                0 <= i < s.len() - 1 ==> s.drop_last()[i] == #[trigger] s[i]);
        }
        lemma_digits_val_nonneg(s.drop_last());
    }
}

/// More digits never shrink the value.
proof fn lemma_digits_val_prefix(s: Seq<char>, i: int)
    requires
        all_digits(s),
        0 <= i <= s.len(),
    ensures
        digits_val(s) >= digits_val(s.take(i)),
    decreases s.len(),
{
    if i < s.len() {
        assert(all_digits(s.drop_last())) by {
            assert(forall|k: int|
                0 <= k < s.len() - 1 ==> s.drop_last()[k] == #[trigger] s[k]);
        }
        assert(s.drop_last().take(i) =~= s.take(i));
        lemma_digits_val_prefix(s.drop_last(), i);
        lemma_digits_val_nonneg(s.drop_last());
    } else {
        assert(s.take(i) =~= s);
    }
}

// ---------------------------------------------------------------------------
// Executable helpers.
// ---------------------------------------------------------------------------

/// Parses an `isize` from decimal text with optional sign, as
/// `parse_isize_spec` describes.
pub fn parse_isize(s: &str) -> (r: Option<isize>)
    ensures
        r is Some <==> parse_isize_spec(s@) is Some,
        r is Some ==> r->Some_0 as int == parse_isize_spec(s@)->Some_0,
{
    let len = s.unicode_len();
    if len == 0 {
        return None;
    }
    let c0 = s.get_char(0);
    let start: usize = if c0 == '+' || c0 == '-' {
        1
    } else {
        0
    };
    let neg = c0 == '-';
    if start >= len {
        return None;
    }
    let ghost body = if start == 1 {
        s@.drop_first()
    } else {
        s@
    };
    proof {
        assert(body =~= s@.subrange(start as int, len as int));
    }
    let maxmag: u128 = if neg {
        (isize::MAX as u128) + 1
    } else {
        isize::MAX as u128
    };
    let mut acc: u128 = 0;
    let mut i: usize = start;
    while i < len
        invariant
            start <= i <= len,
            len == s@.len(),
            len > 0,
            start as int == (if s@[0] == '+' || s@[0] == '-' {
                1int
            } else {
                0int
            }),
            neg == (s@[0] == '-'),
            body == (if s@[0] == '+' || s@[0] == '-' {
                s@.drop_first()
            } else {
                s@
            }),
            body == s@.subrange(start as int, len as int),
            maxmag as int == if neg {
                isize::MAX as int + 1
            } else {
                isize::MAX as int
            },
            acc <= maxmag,
            all_digits(s@.subrange(start as int, i as int)),
            acc == digits_val(s@.subrange(start as int, i as int)),
        decreases len - i,
    {
        let c = s.get_char(i);
        if c < '0' || c > '9' {
            proof {
                assert(body[i - start] == s@[i as int]);
                assert(!is_digit(body[i - start]));
                assert(!all_digits(body));
                assert(parse_isize_spec(s@) is None);
            }
            return None;
        }
        let d: u128 = (c as u32 as u128) - 48;
        proof {
            assert(s@.subrange(start as int, i as int + 1).drop_last() =~= s@.subrange(
                start as int,
                i as int,
            ));
            assert(s@.subrange(start as int, i as int + 1).last() == s@[i as int]);
            assert(d == digit_val(s@[i as int]));
            assert(all_digits(s@.subrange(start as int, i as int + 1))) by {
                let sub = s@.subrange(start as int, i as int + 1);
                assert(forall|k: int| 0 <= k < sub.len() ==> #[trigger] sub[k] == s@[start + k]);
            }
        }
        acc = acc * 10 + d;
        i = i + 1;
        if acc > maxmag {
            proof {
                if all_digits(body) {
                    lemma_digits_val_prefix(body, i - start);
                    assert(body.take(i - start) =~= s@.subrange(start as int, i as int));
                    assert(digits_val(body) >= acc);
                }
                assert(parse_isize_spec(s@) is None);
            }
            return None;
        }
    }
    proof {
        assert(body =~= s@.subrange(start as int, len as int));
        assert(all_digits(body));
        assert(acc == digits_val(body));
        lemma_digits_val_nonneg(body);
    }
    if neg {
        if acc == (isize::MAX as u128) + 1 {
            Some(isize::MIN)
        } else {
            Some(-(acc as isize))
        }
    } else {
        Some(acc as isize)
    }
}

/// The first word-start at or after `from` in `s`.
fn scan_word_start(s: &str, from: usize, len: usize) -> (r: usize)
    requires
        from <= len,
        len == s@.len(),
    ensures
        from <= r <= len,
        r < len ==> s@[r as int] != ' ',
        forall|k: int| from <= k < r ==> s@[k] == ' ',
{
    let mut i = from;
    while i < len && s.get_char(i) == ' '
        invariant
            from <= i <= len,
            len == s@.len(),
            forall|k: int| from <= k < i ==> s@[k] == ' ',
        decreases len - i,
    {
        i = i + 1;
    }
    i
}

/// The space-separated words of `s`, empties dropped.
fn split_words(s: &str) -> (r: Vec<String>)
    ensures
        r@.len() == words_of(s@).len(),
        forall|k: int| 0 <= k < r@.len() ==> (#[trigger] r@[k])@ == words_of(s@)[k],
{
    let len = s.unicode_len();
    let mut out: Vec<String> = Vec::new();
    let mut i: usize = scan_word_start(s, 0, len);
    proof {
        lemma_words_from_skip(s@, 0, i as int);
        assert(words_of(s@) =~= out@.map_values(|w: String| w@) + words_from(s@, i as int));
    }
    while i < len
        invariant
            0 <= i <= len,
            len == s@.len(),
            i < len ==> s@[i as int] != ' ',
            words_of(s@) == out@.map_values(|w: String| w@) + words_from(s@, i as int),
        decreases len - i,
    {
        // i points at the start of a word.
        let mut e: usize = i;
        while e < len && s.get_char(e) != ' '
            invariant
                i <= e <= len,
                len == s@.len(),
                forall|k: int| i <= k < e ==> s@[k] != ' ',
            decreases len - e,
        {
            e = e + 1;
        }
        proof {
            lemma_find_space_props(s@, i as int);
            assert(e as int == find_space(s@, i as int)) by {
                if (e as int) < find_space(s@, i as int) {
                    assert(s@[e as int] != ' ');
                }
                if find_space(s@, i as int) < e as int {
                    assert(s@[find_space(s@, i as int)] != ' ');
                }
            }
        }
        let w = s.substring_char(i, e).to_owned();
        let ghost prev = out@;
        out.push(w);
        proof {
            assert(out@.map_values(|w: String| w@) =~= prev.map_values(|w: String| w@) + seq![
                s@.subrange(i as int, e as int),
            ]);
            assert(words_from(s@, i as int) == seq![s@.subrange(i as int, e as int)] + words_from(
                s@,
                e as int + 1,
            ));
        }
        let n = if e < len {
            e + 1
        } else {
            len
        };
        proof {
            if e < len {
                assert(words_from(s@, e as int) == words_from(s@, e as int + 1));
            }
        }
        i = scan_word_start(s, n, len);
        proof {
            assert(words_from(s@, n as int) == words_from(s@, i as int)) by {
                lemma_words_from_skip(s@, n as int, i as int);
            }
            assert(words_of(s@) =~= out@.map_values(|w: String| w@) + words_from(s@, i as int));
        }
    }
    proof {
        assert(words_from(s@, i as int) =~= Seq::<Seq<char>>::empty());
        assert(words_of(s@) =~= out@.map_values(|w: String| w@));
    }
    out
}

/// Skipping spaces does not change the words.
proof fn lemma_words_from_skip(s: Seq<char>, from: int, to: int)
    requires
        0 <= from <= to <= s.len(),
        forall|k: int| from <= k < to ==> s[k] == ' ',
    ensures
        words_from(s, from) == words_from(s, to),
    decreases to - from,
{
    if from < to {
        lemma_words_from_skip(s, from + 1, to);
    }
}

// ---------------------------------------------------------------------------
// The parser.
// ---------------------------------------------------------------------------

/// Parses one `.vm` file: encapsulates access to the cleaned command lines
/// and to the parts of the current command.
pub struct Parser {
    vm_lines: Vmlines,
    command: Option<String>,
    next: Option<String>,
}

impl Parser {
    /// The current command, if `advance` has put one in place.
    pub closed spec fn current(self) -> Option<Seq<char>> {
        match self.command {
            Option::Some(c) => Some(c@),
            Option::None => None,
        }
    }

    /// The commands not yet consumed, lookahead included.
    pub closed spec fn remaining(self) -> Seq<Seq<char>> {
        match self.next {
            Option::Some(l) => seq![l@] + self.vm_lines.rem(),
            Option::None => self.vm_lines.rem(),
        }
    }

    /// The lookahead is only empty once the line supply is exhausted.
    pub closed spec fn wf(self) -> bool {
        self.next is None ==> self.vm_lines.rem().len() == 0
    }

    /// Builds a parser over one file's text; the current command starts out
    /// empty.
    pub fn new(input: &str) -> (r: Parser)
        ensures
            r.wf(),
            r.remaining() == cleaned_lines(input@, 0),
            r.current() is None,
    {
        let mut vm_lines = Vmlines::new(input);
        let next = vm_lines.next();
        proof {
            if next is Some {
                assert(seq![next->Some_0@] + vm_lines.rem() =~= cleaned_lines(input@, 0));
            }
        }
        Parser { vm_lines, command: None, next }
    }

    /// The text of the current command, if any.
    pub fn current_command(&self) -> (r: Option<&String>)
        ensures
            match self.current() {
                Option::Some(c) => r is Some && r->Some_0@ == c,
                Option::None => r is None,
            },
    {
        match &self.command {
            Option::Some(c) => Some(c),
            Option::None => None,
        }
    }

    /// Whether another command is available.
    pub fn has_more_commands(&self) -> (r: bool)
        requires
            self.wf(),
        ensures
            r == (self.remaining().len() > 0),
    {
        match &self.next {
            Option::Some(_) => true,
            Option::None => false,
        }
    }

    /// Makes the next command current.  Call only after `has_more_commands`
    /// returns true; with nothing left, the current command becomes empty.
    pub fn advance(&mut self)
        requires
            old(self).wf(),
        ensures
            final(self).wf(),
            old(self).remaining().len() > 0 ==> final(self).current() == Some(
                old(self).remaining()[0],
            ) && final(self).remaining() == old(self).remaining().drop_first(),
            old(self).remaining().len() == 0 ==> final(self).current() is None
                && final(self).remaining() == old(self).remaining(),
    {
        self.command = self.next.take();
        self.next = self.vm_lines.next();
        proof {
            if old(self).remaining().len() > 0 {
                assert(old(self).next is Some);
                assert(old(self).remaining()[0] == old(self).next->Some_0@);
                if self.next is Some {
                    assert(seq![self.next->Some_0@] + self.vm_lines.rem() =~= old(
                        self,
                    ).vm_lines.rem());
                }
                assert(old(self).remaining().drop_first() =~= old(self).vm_lines.rem());
            }
        }
    }

    /// The kind of the current command.
    pub fn command_type(&self) -> (r: CommandType)
        ensures
            r == classify_opt(self.current()),
    {
        let command: &String = match &self.command {
            Option::Some(c) => c,
            Option::None => { return CommandType::Unknown },
        };
        let s = command.as_str();
        let len = s.unicode_len();
        // First token: up to the first space.
        let mut e: usize = 0;
        while e < len && s.get_char(e) != ' '
            invariant
                0 <= e <= len,
                len == s@.len(),
                forall|k: int| 0 <= k < e ==> s@[k] != ' ',
            decreases len - e,
        {
            e = e + 1;
        }
        proof {
            lemma_find_space_props(s@, 0);
            assert(e as int == find_space(s@, 0)) by {
                if (e as int) < find_space(s@, 0) {
                    assert(s@[e as int] != ' ');
                }
                if find_space(s@, 0) < e as int {
                    assert(s@[find_space(s@, 0)] != ' ');
                }
            }
        }
        let token = s.substring_char(0, e);
        let ghost tok = s@.subrange(0, e as int);
        // Trim whitespace around the token.
        let mut a: usize = 0;
        while a < e && is_ws_char(token.get_char(a))
            invariant
                0 <= a <= e,
                e == token@.len(),
                token@ == tok,
                forall|k: int| 0 <= k < a ==> is_ws(tok[k]),
            decreases e - a,
        {
            a = a + 1;
        }
        proof {
            lemma_skip_ws_props(tok, 0);
            assert(a as int == skip_ws(tok, 0)) by {
                if (a as int) < skip_ws(tok, 0) {
                    assert(!is_ws(tok[a as int]));
                }
                if skip_ws(tok, 0) < a as int {
                    assert(is_ws(tok[skip_ws(tok, 0)]));
                }
            }
        }
        let mut b: usize = e;
        while b > 0 && is_ws_char(token.get_char(b - 1))
            invariant
                0 <= b <= e,
                e == token@.len(),
                token@ == tok,
                forall|k: int| b <= k < e ==> is_ws(tok[k]),
            decreases b,
        {
            b = b - 1;
        }
        proof {
            lemma_rtrim_ws_props(tok, e as int);
            assert(b as int == rtrim_ws(tok, e as int)) by {
                if (b as int) < rtrim_ws(tok, e as int) {
                    assert(!is_ws(tok[rtrim_ws(tok, e as int) - 1]));
                    assert(is_ws(tok[rtrim_ws(tok, e as int) - 1]));
                }
                if rtrim_ws(tok, e as int) < b as int {
                    assert(is_ws(tok[b as int - 1]));
                }
            }
        }
        let word: &str = if a < b {
            token.substring_char(a, b)
        } else {
            ""
        };
        proof {
            reveal_strlit("");
            assert(word@ == command_word(command@));
        }
        classify_word(word)
    }

    /// The first operand of the current command: the mnemonic itself for an
    /// arithmetic command, the first argument otherwise.  Do not call for a
    /// `RETURN` command.
    pub fn arg1(&self) -> (r: Option<String>)
        ensures
            match self.current() {
                Option::Some(c) => (r is Some <==> arg1_of(c) is Some) && (r is Some
                    ==> r->Some_0@ == arg1_of(c)->Some_0),
                Option::None => r is None,
            },
    {
        let command: &String = match &self.command {
            Option::Some(c) => c,
            Option::None => { return None },
        };
        let words = split_words(command.as_str());
        if words.len() == 3 || words.len() == 2 {
            Some(clone_string(&words[1]))
        } else if words.len() == 1 {
            Some(clone_string(&words[0]))
        } else {
            None
        }
    }

    /// The second operand of the current command; present only for the
    /// three-word commands `push`, `pop`, `function` and `call` with a
    /// well-formed number.
    pub fn arg2(&self) -> (r: Option<isize>)
        ensures
            match self.current() {
                Option::Some(c) => (r is Some <==> arg2_of(c) is Some) && (r is Some
                    ==> r->Some_0 as int == arg2_of(c)->Some_0),
                Option::None => r is None,
            },
    {
        let command: &String = match &self.command {
            Option::Some(c) => c,
            Option::None => { return None },
        };
        let words = split_words(command.as_str());
        if words.len() == 3 {
            parse_isize(words[2].as_str())
        } else {
            None
        }
    }
}

/// Executable form of `is_ws`.
fn is_ws_char(c: char) -> (r: bool)
    ensures
        r == is_ws(c),
{
    c == ' ' || c == '\t' || c == '\n' || c == '\r'
}

fn clone_string(s: &String) -> (r: String)
    ensures
        r@ == s@,
{
    s.as_str().to_owned()
}

/// Maps the trimmed command word to its kind.
fn classify_word(word: &str) -> (r: CommandType)
    ensures
        forall|cmd: Seq<char>| command_word(cmd) == word@ ==> r == classify(cmd),
{
    proof {
        reveal_strlit("add");
        reveal_strlit("sub");
        reveal_strlit("neg");
        reveal_strlit("eq");
        reveal_strlit("gt");
        reveal_strlit("lt");
        reveal_strlit("and");
        reveal_strlit("or");
        reveal_strlit("not");
        reveal_strlit("push");
        reveal_strlit("pop");
        reveal_strlit("label");
        reveal_strlit("goto");
        reveal_strlit("if-goto");
        reveal_strlit("function");
        reveal_strlit("return");
        reveal_strlit("call");
    }
    if str_eq_local(word, "add") || str_eq_local(word, "sub") || str_eq_local(word, "neg")
        || str_eq_local(word, "eq") || str_eq_local(word, "gt") || str_eq_local(word, "lt")
        || str_eq_local(word, "and") || str_eq_local(word, "or") || str_eq_local(word, "not") {
        CommandType::ARITHMETIC
    } else if str_eq_local(word, "push") {
        CommandType::PUSH
    } else if str_eq_local(word, "pop") {
        CommandType::POP
    } else if str_eq_local(word, "label") {
        CommandType::LABEL
    } else if str_eq_local(word, "goto") {
        CommandType::GOTO
    } else if str_eq_local(word, "if-goto") {
        CommandType::IF
    } else if str_eq_local(word, "function") {
        CommandType::FUNCTION
    } else if str_eq_local(word, "return") {
        CommandType::RETURN
    } else if str_eq_local(word, "call") {
        CommandType::CALL
    } else {
        CommandType::Unknown
    }
}

fn str_eq_local(a: &str, b: &str) -> (r: bool)
    ensures
        r == (a@ == b@),
{
    crate::text::str_eq(a, b)
}

} // verus!
