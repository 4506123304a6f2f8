//! The symbol manager mints the symbolic names that the translator embeds in
//! its output: comparison labels, user `goto` labels scoped to the enclosing
//! VM function, function-entry labels, and per-call return-address labels.
//! Every generated name starts with `symbol-`, which no user-written Hack
//! symbol can share because VM identifier syntax forbids the hyphen.

use vstd::prelude::*;
use crate::dec::{dec_digits, dec_string, lemma_dec_digits_injective, lemma_dec_digits_len,
    lemma_dec_digits_no_char};
use crate::text::{lemma_first_sep_inj, lemma_last_sep_inj, lemma_prefix_cancel};

verus! {

/// Name of the `n`-th comparison label: `symbol-ifd-{n}`.
pub open spec fn ifd_symbol_text(n: nat) -> Seq<char> {
    "symbol-ifd-"@ + dec_digits(n)
}

/// Mangled form of the user label `l` inside VM function `f`:
/// `symbol-goto-{f}-{l}`.
pub open spec fn goto_symbol_text(f: Seq<char>, l: Seq<char>) -> Seq<char> {
    "symbol-goto-"@ + f + "-"@ + l
}

/// Entry label of VM function `f`: `symbol-function-{f}`.
pub open spec fn function_symbol_text(f: Seq<char>) -> Seq<char> {
    "symbol-function-"@ + f
}

/// The `n`-th return-address label, scoped by the calling function `f`:
/// `symbol-return-address-{f}-{n}`.
pub open spec fn return_symbol_text(f: Seq<char>, n: nat) -> Seq<char> {
    "symbol-return-address-"@ + f + "-"@ + dec_digits(n)
}

/// The pair of definition labels a single comparison plants in the output:
/// `{ifd symbol}-true` and `{ifd symbol}-false`.
pub open spec fn cmp_def_label(n: nat, branch: bool) -> Seq<char> {
    ifd_symbol_text(n) + (if branch {
        "-true"@
    } else {
        "-false"@
    })
}

/// Generator of the label families above.  The comparison counter and the
/// return-address counter only ever grow, so labels are never reused, even
/// across input files.
pub struct SymbolManager {
    function_name: String,
    ifd_count: usize,
    ra_count: usize,
}

impl SymbolManager {
    /// The VM function whose body is currently being translated; user labels
    /// are scoped to it.
    pub closed spec fn func(self) -> Seq<char> {
        self.function_name@
    }

    /// How many comparison labels have been handed out.
    pub closed spec fn ifd(self) -> nat {
        self.ifd_count as nat
    }

    /// How many return-address labels have been handed out.
    pub closed spec fn ra(self) -> nat {
        self.ra_count as nat
    }

    pub fn new() -> (r: SymbolManager)
        ensures
            r.func() == Seq::<char>::empty(),
            r.ifd() == 0,
            r.ra() == 0,
    {
        SymbolManager { function_name: String::new(), ifd_count: 0, ra_count: 0 }
    }

    /// The name recorded by the last `set_function_name`.
    pub fn current_function(&self) -> (r: &str)
        ensures
            r@ == self.func(),
    {
        self.function_name.as_str()
    }

    /// Records the function that subsequent user labels belong to.
    pub fn set_function_name(&mut self, function: &str)
        ensures
            final(self).func() == function@,
            final(self).ifd() == old(self).ifd(),
            final(self).ra() == old(self).ra(),
    {
        self.function_name = function.to_owned();
    }

    /// The entry label for `function`; no state is touched.
    pub fn get_function_symbol(&mut self, function: &str) -> (r: String)
        ensures
            r@ == function_symbol_text(function@),
            *final(self) == *old(self),
    {
        let mut s = String::new();
        s.append("symbol-function-");
        s.append(function);
        proof {
            assert(s@ =~= function_symbol_text(function@));
        }
        s
    }

    /// A fresh return-address label scoped by `func`; the return-address
    /// counter advances so the label can never recur.
    pub fn get_return_address_symbol(&mut self, func: &str) -> (r: String)
        requires
            old(self).ra() < usize::MAX,
        ensures
            r@ == return_symbol_text(func@, old(self).ra()),
            final(self).ra() == old(self).ra() + 1,
            final(self).ifd() == old(self).ifd(),
            final(self).func() == old(self).func(),
    {
        let mut s = String::new();
        s.append("symbol-return-address-");
        s.append(func);
        s.append("-");
        let d = dec_string(self.ra_count);
        s.append(d.as_str());
        self.ra_count = self.ra_count + 1;
        proof {
            assert(s@ =~= return_symbol_text(func@, old(self).ra()));
        }
        s
    }

    /// A fresh comparison label; the comparison counter advances so the label
    /// can never recur.
    pub fn get_ifd_symbol(&mut self) -> (r: String)
        requires
            old(self).ifd() < usize::MAX,
        ensures
            r@ == ifd_symbol_text(old(self).ifd()),
            final(self).ifd() == old(self).ifd() + 1,
            final(self).ra() == old(self).ra(),
            final(self).func() == old(self).func(),
    {
        let mut s = String::new();
        s.append("symbol-ifd-");
        let d = dec_string(self.ifd_count);
        s.append(d.as_str());
        self.ifd_count = self.ifd_count + 1;
        proof {
            assert(s@ =~= ifd_symbol_text(old(self).ifd()));
        }
        s
    }

    /// The mangled form of the user label `label` in the current function;
    /// pure, so one `label` definition and its `goto` uses agree.
    pub fn get_goto_symbol(&self, label: &str) -> (r: String)
        ensures
            r@ == goto_symbol_text(self.func(), label@),
    {
        let mut s = String::new();
        s.append("symbol-goto-");
        s.append(self.function_name.as_str());
        s.append("-");
        s.append(label);
        proof {
            assert(s@ =~= goto_symbol_text(self.func(), label@));
        }
        s
    }
}

/// A comparison symbol determines its counter value.
pub proof fn lemma_ifd_symbol_injective(n1: nat, n2: nat)
    requires
        ifd_symbol_text(n1) == ifd_symbol_text(n2),
    ensures
        n1 == n2,
{
    lemma_prefix_cancel("symbol-ifd-"@, dec_digits(n1), dec_digits(n2));
    lemma_dec_digits_injective(n1, n2);
}

/// A mangled user label determines the enclosing function and the raw label,
/// provided function names carry no hyphen (VM identifier syntax forbids it).
pub proof fn lemma_goto_symbol_injective(f1: Seq<char>, l1: Seq<char>, f2: Seq<char>, l2: Seq<char>)
    requires
        !f1.contains('-'),
        !f2.contains('-'),
        goto_symbol_text(f1, l1) == goto_symbol_text(f2, l2),
    ensures
        f1 == f2,
        l1 == l2,
{
    reveal_strlit("-");
    assert("-"@ =~= seq!['-']);
    let p = "symbol-goto-"@;
    assert(goto_symbol_text(f1, l1) =~= p + (f1 + seq!['-'] + l1));
    assert(goto_symbol_text(f2, l2) =~= p + (f2 + seq!['-'] + l2));
    lemma_prefix_cancel(p, f1 + seq!['-'] + l1, f2 + seq!['-'] + l2);
    lemma_first_sep_inj(f1, f2, l1, l2, '-');
}

/// The same user label in two different VM functions mangles to two
/// different assembly labels.
pub proof fn lemma_user_label_scoping(f1: Seq<char>, f2: Seq<char>, l: Seq<char>)
    requires
        f1 != f2,
        !f1.contains('-'),
        !f2.contains('-'),
    ensures
        goto_symbol_text(f1, l) != goto_symbol_text(f2, l),
{
    if goto_symbol_text(f1, l) == goto_symbol_text(f2, l) {
        lemma_goto_symbol_injective(f1, l, f2, l);
    }
}

/// A function-entry symbol determines the function name.
pub proof fn lemma_function_symbol_injective(f1: Seq<char>, f2: Seq<char>)
    requires
        function_symbol_text(f1) == function_symbol_text(f2),
    ensures
        f1 == f2,
{
    lemma_prefix_cancel("symbol-function-"@, f1, f2);
}

/// A return-address symbol determines the scoping function and the counter
/// value: the counter's decimal digits carry no hyphen, so the last hyphen
/// marks the split.
pub proof fn lemma_return_symbol_injective(f1: Seq<char>, n1: nat, f2: Seq<char>, n2: nat)
    requires
        return_symbol_text(f1, n1) == return_symbol_text(f2, n2),
    ensures
        f1 == f2,
        n1 == n2,
{
    reveal_strlit("-");
    assert("-"@ =~= seq!['-']);
    let p = "symbol-return-address-"@;
    assert(return_symbol_text(f1, n1) =~= p + (f1 + seq!['-'] + dec_digits(n1)));
    assert(return_symbol_text(f2, n2) =~= p + (f2 + seq!['-'] + dec_digits(n2)));
    lemma_prefix_cancel(p, f1 + seq!['-'] + dec_digits(n1), f2 + seq!['-'] + dec_digits(n2));
    lemma_dec_digits_no_char(n1, '-');
    lemma_dec_digits_no_char(n2, '-');
    lemma_last_sep_inj(f1, f2, dec_digits(n1), dec_digits(n2), '-');
    lemma_dec_digits_injective(n1, n2);
}

/// A comparison's definition label determines the counter value and which of
/// the true/false pair it is.
pub proof fn lemma_cmp_def_label_injective(n1: nat, b1: bool, n2: nat, b2: bool)
    requires
        cmp_def_label(n1, b1) == cmp_def_label(n2, b2),
    ensures
        n1 == n2,
        b1 == b2,
{
    reveal_strlit("-true");
    reveal_strlit("-false");
    reveal_strlit("true");
    reveal_strlit("false");
    assert("-true"@ =~= seq!['-'] + "true"@);
    assert("-false"@ =~= seq!['-'] + "false"@);
    let p = "symbol-ifd-"@;
    let t1 = if b1 { "true"@ } else { "false"@ };
    let t2 = if b2 { "true"@ } else { "false"@ };
    assert(cmp_def_label(n1, b1) =~= p + (dec_digits(n1) + seq!['-'] + t1));
    assert(cmp_def_label(n2, b2) =~= p + (dec_digits(n2) + seq!['-'] + t2));
    lemma_prefix_cancel(p, dec_digits(n1) + seq!['-'] + t1, dec_digits(n2) + seq!['-'] + t2);
    lemma_dec_digits_no_char(n1, '-');
    lemma_dec_digits_no_char(n2, '-');
    lemma_first_sep_inj(dec_digits(n1), dec_digits(n2), t1, t2, '-');
    lemma_dec_digits_injective(n1, n2);
    assert("true"@.len() != "false"@.len());
}

/// Each label family shows its kind at character seven, right after the
/// shared `symbol-` prefix, so labels of different families never collide.
pub proof fn lemma_symbol_family_chars(n: nat, f: Seq<char>, l: Seq<char>, b: bool)
    ensures
        ifd_symbol_text(n).len() > 7 && ifd_symbol_text(n)[7] == 'i',
        cmp_def_label(n, b).len() > 7 && cmp_def_label(n, b)[7] == 'i',
        goto_symbol_text(f, l).len() > 7 && goto_symbol_text(f, l)[7] == 'g',
        function_symbol_text(f).len() > 7 && function_symbol_text(f)[7] == 'f',
        return_symbol_text(f, n).len() > 7 && return_symbol_text(f, n)[7] == 'r',
{
    reveal_strlit("symbol-ifd-");
    reveal_strlit("symbol-goto-");
    reveal_strlit("symbol-function-");
    reveal_strlit("symbol-return-address-");
    lemma_dec_digits_len(n);
    assert(ifd_symbol_text(n)[7] == "symbol-ifd-"@[7]);
    assert(cmp_def_label(n, b)[7] == ifd_symbol_text(n)[7]);
    assert(goto_symbol_text(f, l)[7] == "symbol-goto-"@[7]);
    assert(function_symbol_text(f)[7] == "symbol-function-"@[7]);
    assert(return_symbol_text(f, n)[7] == "symbol-return-address-"@[7]);
}

} // verus!
