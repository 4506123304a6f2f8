//! Decimal rendering of machine integers, used for `@n` constants, segment
//! indices and the counters inside generated labels.

use vstd::prelude::*;

verus! {

/// The decimal digit character for a value below ten.
pub open spec fn digit_char(d: nat) -> char {
    if d == 0 {
        '0'
    } else if d == 1 {
        '1'
    } else if d == 2 {
        '2'
    } else if d == 3 {
        '3'
    } else if d == 4 {
        '4'
    } else if d == 5 {
        '5'
    } else if d == 6 {
        '6'
    } else if d == 7 {
        '7'
    } else if d == 8 {
        '8'
    } else {
        '9'
    }
}

/// Decimal text of `n`: most significant digit first, no sign and no leading
/// zeros (zero itself is the single digit `0`).
pub open spec fn dec_digits(n: nat) -> Seq<char>
    decreases n,
{
    if n < 10 {
        seq![digit_char(n)]
    } else {
        dec_digits(n / 10) + seq![digit_char(n % 10)]
    }
}

pub proof fn lemma_dec_digits_len(n: nat)
    ensures
        dec_digits(n).len() >= 1,
        n >= 10 ==> dec_digits(n).len() >= 2,
    decreases n,
{
    if n >= 10 {
        lemma_dec_digits_len(n / 10);
    }
}

/// Every character of a decimal rendering is a digit, so in particular
/// neither `-` nor `.`, the separators of generated symbols.
pub proof fn lemma_dec_digits_are_digits(n: nat)
    ensures
        forall|i: int|
            0 <= i < dec_digits(n).len() ==> '0' <= #[trigger] dec_digits(n)[i] <= '9',
    decreases n,
{
    if n < 10 {
        assert(dec_digits(n) =~= seq![digit_char(n)]);
        assert('0' <= digit_char(n) <= '9');
    } else {
        lemma_dec_digits_are_digits(n / 10);
        let p = dec_digits(n / 10);
        assert('0' <= digit_char(n % 10) <= '9');
        assert forall|i: int|
            0 <= i < dec_digits(n).len() implies '0' <= #[trigger] dec_digits(n)[i] <= '9' by {
            if i < p.len() {
                assert(dec_digits(n)[i] == p[i]);
            } else {
                assert(dec_digits(n)[i] == digit_char(n % 10));
            }
        }
    }
}

pub proof fn lemma_dec_digits_no_char(n: nat, c: char)
    requires
        !('0' <= c <= '9'),
    ensures
        !dec_digits(n).contains(c),
{
    lemma_dec_digits_are_digits(n);
    assert forall|i: int| 0 <= i < dec_digits(n).len() implies dec_digits(n)[i] != c by {
        assert('0' <= dec_digits(n)[i] <= '9');
    }
}

proof fn lemma_digit_char_injective(a: nat, b: nat)
    requires
        a < 10,
        b < 10,
        digit_char(a) == digit_char(b),
    ensures
        a == b,
{
}

/// Two distinct numbers never share a decimal rendering.
pub proof fn lemma_dec_digits_injective(a: nat, b: nat)
    requires
        dec_digits(a) == dec_digits(b),
    ensures
        a == b,
    decreases a + b,
{
    lemma_dec_digits_len(a);
    lemma_dec_digits_len(b);
    if a < 10 && b < 10 {
        assert(dec_digits(a) =~= seq![digit_char(a)]);
        assert(dec_digits(b) =~= seq![digit_char(b)]);
        assert(digit_char(a) == dec_digits(a)[0]);
        assert(digit_char(b) == dec_digits(b)[0]);
        lemma_digit_char_injective(a, b);
    } else if a < 10 {
        assert(dec_digits(a).len() == 1);
        assert(dec_digits(b).len() >= 2);
    } else if b < 10 {
        assert(dec_digits(a).len() >= 2);
        assert(dec_digits(b).len() == 1);
    } else {
        let la = dec_digits(a).len();
        assert(dec_digits(a) == dec_digits(a / 10) + seq![digit_char(a % 10)]);
        assert(dec_digits(b) == dec_digits(b / 10) + seq![digit_char(b % 10)]);
        assert(dec_digits(a).last() == digit_char(a % 10));
        assert(dec_digits(b).last() == digit_char(b % 10));
        assert(dec_digits(a).last() == dec_digits(b).last());
        lemma_digit_char_injective(a % 10, b % 10);
        assert(dec_digits(a / 10) =~= dec_digits(a).subrange(0, la - 1));
        assert(dec_digits(b / 10) =~= dec_digits(b).subrange(0, la - 1));
        lemma_dec_digits_injective(a / 10, b / 10);
    }
}

/// The one-character string for a digit.
fn digit_str(d: usize) -> (r: &'static str)
    requires
        d < 10,
    ensures
        r@ == seq![digit_char(d as nat)],
{
    let r: &'static str = match d {
        0 => "0",
        1 => "1",
        2 => "2",
        3 => "3",
        4 => "4",
        5 => "5",
        6 => "6",
        7 => "7",
        8 => "8",
        _ => "9",
    };
    proof {
        reveal_strlit("0");
        reveal_strlit("1");
        reveal_strlit("2");
        reveal_strlit("3");
        reveal_strlit("4");
        reveal_strlit("5");
        reveal_strlit("6");
        reveal_strlit("7");
        reveal_strlit("8");
        reveal_strlit("9");
        assert(r@ =~= seq![digit_char(d as nat)]);
    }
    r
}

/// Renders `n` in decimal.
pub fn dec_string(n: usize) -> (r: String)
    ensures
        r@ == dec_digits(n as nat),
    decreases n,
{
    if n < 10 {
        let mut s = String::new();
        s.append(digit_str(n));
        proof {
            assert(s@ =~= dec_digits(n as nat));
        }
        s
    } else {
        let mut s = dec_string(n / 10);
        s.append(digit_str(n % 10));
        proof {
            assert(s@ =~= dec_digits(n as nat));
        }
        s
    }
}

} // verus!
