//! General facts about character sequences: cancelling a shared prefix and
//! recovering the parts around a separator character.  The label-uniqueness
//! arguments rest on these.

use vstd::prelude::*;

verus! {

/// Character-for-character equality of two string slices.
pub fn str_eq(a: &str, b: &str) -> (r: bool)
    ensures
        r == (a@ == b@),
{
    let la = a.unicode_len();
    let lb = b.unicode_len();
    if la != lb {
        return false;
    }
    let mut i: usize = 0;
    while i < la
        invariant
            0 <= i <= la,
            la == a@.len(),
            la == b@.len(),
            forall|j: int| 0 <= j < i ==> a@[j] == b@[j],
        decreases la - i,
    {
        if a.get_char(i) != b.get_char(i) {
            return false;
        }
        i = i + 1;
    }
    proof {
        assert(a@ =~= b@);
    }
    true
}

/// Equal sequences with the same prefix have equal remainders.
pub proof fn lemma_prefix_cancel(p: Seq<char>, a: Seq<char>, b: Seq<char>)
    requires
        p + a == p + b,
    ensures
        a == b,
{
    assert((p + a).len() == p.len() + a.len());
    assert((p + b).len() == p.len() + b.len());
    assert(a.len() == b.len());
    assert forall|i: int| 0 <= i < a.len() implies a[i] == b[i] by {
        assert((p + a)[p.len() + i] == a[i]);
        assert((p + b)[p.len() + i] == b[i]);
    }
    assert(a =~= b);
}

/// When neither left part contains the separator, a separated concatenation
/// determines both parts: the separator's first occurrence marks the split.
pub proof fn lemma_first_sep_inj(a: Seq<char>, b: Seq<char>, x: Seq<char>, y: Seq<char>, sep: char)
    requires
        !a.contains(sep),
        !b.contains(sep),
        a + seq![sep] + x == b + seq![sep] + y,
    ensures
        a == b,
        x == y,
{
    let l = a + seq![sep] + x;
    let r = b + seq![sep] + y;
    assert(l.len() == a.len() + 1 + x.len());
    assert(r.len() == b.len() + 1 + y.len());
    assert(l.len() == r.len());
    if a.len() < b.len() {
        assert(l[a.len() as int] == sep);
        assert(r[a.len() as int] == b[a.len() as int]);
        assert(b.contains(sep));
    } else if b.len() < a.len() {
        assert(r[b.len() as int] == sep);
        assert(l[b.len() as int] == a[b.len() as int]);
        assert(a.contains(sep));
    }
    assert(a.len() == b.len());
    assert forall|i: int| 0 <= i < a.len() implies a[i] == b[i] by {
        assert(l[i] == a[i]);
        assert(r[i] == b[i]);
    }
    assert(a =~= b);
    assert forall|i: int| 0 <= i < x.len() implies x[i] == y[i] by {
        assert(l[a.len() + 1 + i] == x[i]);
        assert(r[b.len() + 1 + i] == y[i]);
    }
    assert(x =~= y);
}

/// The mirror image: when neither right part contains the separator, its
/// last occurrence marks the split.
pub proof fn lemma_last_sep_inj(a: Seq<char>, b: Seq<char>, x: Seq<char>, y: Seq<char>, sep: char)
    requires
        !x.contains(sep),
        !y.contains(sep),
        a + seq![sep] + x == b + seq![sep] + y,
    ensures
        a == b,
        x == y,
{
    let l = a + seq![sep] + x;
    let r = b + seq![sep] + y;
    assert(l.len() == a.len() + 1 + x.len());
    assert(r.len() == b.len() + 1 + y.len());
    assert(l.len() == r.len());
    if x.len() < y.len() {
        let j = r.len() - 1 - x.len();
        assert(r[j] == y[y.len() - x.len() - 1]);
        assert(l[j] == sep);
        assert(y.contains(sep));
    } else if y.len() < x.len() {
        let j = l.len() - 1 - y.len();
        assert(l[j] == x[x.len() - y.len() - 1]);
        assert(r[j] == sep);
        assert(x.contains(sep));
    }
    assert(x.len() == y.len());
    assert(a.len() == b.len());
    assert forall|i: int| 0 <= i < a.len() implies a[i] == b[i] by {
        assert(l[i] == a[i]);
        assert(r[i] == b[i]);
    }
    assert(a =~= b);
    assert forall|i: int| 0 <= i < x.len() implies x[i] == y[i] by {
        assert(l[a.len() + 1 + i] == x[i]);
        assert(r[b.len() + 1 + i] == y[i]);
    }
    assert(x =~= y);
}

} // verus!
