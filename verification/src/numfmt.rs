//! Decimal rendering and parsing of the unsigned numbers that appear in
//! command arguments and output records.

use vstd::prelude::*;

verus! {

/// ASCII decimal digit.
pub open spec fn is_dec_digit(b: u8) -> bool {
    48u8 <= b && b <= 57u8
}

pub open spec fn all_digits(s: Seq<u8>) -> bool {
    forall|i: int| 0 <= i < s.len() ==> is_dec_digit(s[i])
}

/// Decimal representation of `n`, most significant digit first, no sign and
/// no leading zeros (`0` is rendered as the single digit `0`).
pub open spec fn dec_rep(n: nat) -> Seq<u8>
    decreases n,
{
    if n < 10 {
        seq![(48 + n) as u8]
    } else {
        dec_rep(n / 10).push((48 + n % 10) as u8)
    }
}

/// Numeric value of a digit string.
pub open spec fn dec_val(s: Seq<u8>) -> int
    decreases s.len(),
{
    if s.len() == 0 {
        0
    } else {
        dec_val(s.drop_last()) * 10 + (s.last() - 48)
    }
}

pub proof fn lemma_dec_rep_digits(n: nat)
    ensures
        dec_rep(n).len() >= 1,
        all_digits(dec_rep(n)),
    decreases n,
{
    if n >= 10 {
        lemma_dec_rep_digits(n / 10);
    }
}

/// Rendering and reading back a number is the identity.
pub proof fn lemma_dec_roundtrip(n: nat)
    ensures
        dec_val(dec_rep(n)) == n,
    decreases n,
{
    if n < 10 {
        assert(dec_rep(n).drop_last() =~= Seq::<u8>::empty());
        assert(dec_val(Seq::<u8>::empty()) == 0);
        assert(dec_rep(n).last() == (48 + n) as u8);
        assert(dec_val(dec_rep(n)) == n);
    } else {
        lemma_dec_roundtrip(n / 10);
        assert(dec_rep(n).drop_last() =~= dec_rep(n / 10));
        assert(n == (n / 10) * 10 + n % 10) by {
            vstd::arithmetic::div_mod::lemma_fundamental_div_mod(n as int, 10);
        }
        assert(dec_rep(n).last() == (48 + n % 10) as u8);
        assert(0 <= n % 10 < 10);
        assert(dec_rep(n).last() - 48 == n % 10);
        assert(dec_val(dec_rep(n)) == dec_val(dec_rep(n).drop_last()) * 10 + (dec_rep(n).last()
            - 48));
        assert(dec_val(dec_rep(n).drop_last()) == n / 10);
        assert(dec_val(dec_rep(n)) == (n / 10) * 10 + (n % 10));
    }
}

pub proof fn lemma_dec_val_nonneg(s: Seq<u8>)
    requires
        all_digits(s),
    ensures
        dec_val(s) >= 0,
    decreases s.len(),
{
    if s.len() > 0 {
        assert(all_digits(s.drop_last()));
        lemma_dec_val_nonneg(s.drop_last());
    }
}

/// The value of a digit string bounds the value of each of its prefixes.
pub proof fn lemma_dec_val_prefix(s: Seq<u8>, i: int)
    requires
        all_digits(s),
        0 <= i <= s.len(),
    ensures
        dec_val(s.take(i)) <= dec_val(s),
    decreases s.len() - i,
{
    if i < s.len() {
        lemma_dec_val_prefix(s.drop_last(), i);
        assert(s.drop_last().take(i) =~= s.take(i));
        assert(all_digits(s.drop_last()));
        lemma_dec_val_nonneg(s.drop_last());
    } else {
        assert(s.take(i) =~= s);
    }
}

/// Render `n` in decimal.
pub fn fmt_usize(n: usize) -> (r: Vec<u8>)
    ensures
        r@ == dec_rep(n as nat),
{
    let mut m = n;
    let mut digits: Vec<u8> = Vec::new();
    proof {
        assert(dec_rep(n as nat) =~= dec_rep(m as nat) + digits@.reverse());
    }
    while m >= 10
        invariant
            dec_rep(n as nat) == dec_rep(m as nat) + digits@.reverse(),
        decreases m,
    {
        let d = (48 + m % 10) as u8;
        proof {
            lemma_reverse_push(digits@, d);
            assert(dec_rep(m as nat) == dec_rep(m as nat / 10).push(d));
            assert(dec_rep(m as nat / 10) + digits@.push(d).reverse() =~= dec_rep(m as nat / 10)
                + (seq![d] + digits@.reverse()));
            assert(dec_rep(m as nat / 10) + (seq![d] + digits@.reverse()) =~= (dec_rep(
                m as nat / 10,
            ).push(d)) + digits@.reverse());
        }
        digits.push(d);
        m = m / 10;
    }
    let d = (48 + m % 10) as u8;
    proof {
        lemma_reverse_push(digits@, d);
        assert(dec_rep(m as nat) =~= seq![d]);
        assert(digits@.push(d).reverse() =~= seq![d] + digits@.reverse());
        assert(digits@.push(d).reverse() =~= dec_rep(n as nat));
    }
    digits.push(d);
    let ghost rev = digits@.reverse();
    let mut out: Vec<u8> = Vec::new();
    let mut i: usize = 0;
    proof {
        assert(out@ =~= rev.take(0));
    }
    while i < digits.len()
        invariant
            0 <= i <= digits@.len(),
            rev == digits@.reverse(),
            rev == dec_rep(n as nat),
            out@ == rev.take(i as int),
        decreases digits@.len() - i,
    {
        out.push(digits[digits.len() - 1 - i]);
        proof {
            assert(out@ =~= rev.take(i + 1));
        }
        i = i + 1;
    }
    proof {
        assert(out@ =~= dec_rep(n as nat));
    }
    out
}

proof fn lemma_reverse_push(s: Seq<u8>, d: u8)
    ensures
        s.push(d).reverse() =~= seq![d] + s.reverse(),
{
    assert(s.push(d).reverse().len() == s.len() + 1);
    assert forall|i: int| 0 <= i < s.len() + 1 implies s.push(d).reverse()[i] == (seq![d]
        + s.reverse())[i] by {
        if i == 0 {
        } else {
            assert(s.push(d).reverse()[i] == s.push(d)[s.len() - i]);
            assert(s.reverse()[i - 1] == s[s.len() - i]);
        }
    }
}

/// Parse a decimal digit string. Returns the value when the string is a
/// non-empty run of digits whose value fits in `usize`, and nothing
/// otherwise.
pub fn parse_usize(s: &Vec<u8>) -> (r: Option<usize>)
    ensures
        match r {
            Some(n) => s@.len() > 0 && all_digits(s@) && n == dec_val(s@),
            None => !(s@.len() > 0 && all_digits(s@) && dec_val(s@) <= usize::MAX),
        },
{
    if s.len() == 0 {
        return None;
    }
    let mut acc: usize = 0;
    let mut i: usize = 0;
    proof {
        assert(s@.take(0) =~= Seq::<u8>::empty());
    }
    while i < s.len()
        invariant
            0 <= i <= s@.len(),
            all_digits(s@.take(i as int)),
            acc == dec_val(s@.take(i as int)),
        decreases s@.len() - i,
    {
        let b = s[i];
        if !(48 <= b && b <= 57) {
            return None;
        }
        proof {
            assert(s@.take(i + 1).drop_last() =~= s@.take(i as int));
            assert(all_digits(s@.take(i + 1)));
        }
        let next = match acc.checked_mul(10) {
            Some(t) => t.checked_add((b - 48) as usize),
            None => None,
        };
        match next {
            Some(v) => {
                acc = v;
            },
            None => {
                proof {
                    if all_digits(s@) {
                        lemma_dec_val_prefix(s@, i + 1);
                    }
                }
                return None;
            },
        }
        i = i + 1;
    }
    proof {
        assert(s@.take(s@.len() as int) =~= s@);
    }
    Some(acc)
}

} // verus!
