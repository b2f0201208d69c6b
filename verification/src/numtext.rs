//! Decimal text: rendering and parsing of unsigned numbers, with the
//! round-trip facts the canonical formats rest on.

use vstd::prelude::*;
use vstd::slice::slice_index_get;

verus! {

/// An ASCII decimal digit.
pub open spec fn is_digit(b: u8) -> bool {
    48 <= b <= 57
}

/// Every byte of `s` is a decimal digit.
pub open spec fn all_digits(s: Seq<u8>) -> bool {
    forall|i: int| 0 <= i < s.len() ==> is_digit(s[i])
}

/// `n` rendered as exactly `width` digits, most significant first,
/// zero-padded on the left.
pub open spec fn dec_render(n: nat, width: nat) -> Seq<u8>
    decreases width,
{
    if width == 0 {
        Seq::empty()
    } else {
        dec_render(n / 10, (width - 1) as nat) + seq![(48 + n % 10) as u8]
    }
}

/// The number a digit string denotes.
pub open spec fn dec_value(s: Seq<u8>) -> int
    decreases s.len(),
{
    if s.len() == 0 {
        0
    } else {
        dec_value(s.drop_last()) * 10 + s.last() - 48
    }
}

/// Ten to the `w`.
pub open spec fn pow10(w: nat) -> nat
    decreases w,
{
    if w == 0 {
        1
    } else {
        10 * pow10((w - 1) as nat)
    }
}

/// The concrete values of the small powers of ten in use here.
pub proof fn lemma_pow10_chain()
    ensures
        pow10(0) == 1,
        pow10(1) == 10,
        pow10(2) == 100,
        pow10(3) == 1000,
        pow10(4) == 10000,
        pow10(5) == 100000,
        pow10(6) == 1000000,
        pow10(7) == 10000000,
        pow10(8) == 100000000,
        pow10(9) == 1000000000,
        pow10(10) == 10000000000,
{
    assert(pow10(0) == 1);
    assert(pow10(1) == 10);
    assert(pow10(2) == 100);
    assert(pow10(3) == 1000);
    assert(pow10(4) == 10000);
    assert(pow10(5) == 100000);
    assert(pow10(6) == 1000000);
    assert(pow10(7) == 10000000);
    assert(pow10(8) == 100000000);
    assert(pow10(9) == 1000000000);
    assert(pow10(10) == 10000000000);
}

/// Powers of ten grow with the exponent.
pub proof fn lemma_pow10_mono(a: nat, b: nat)
    requires
        a <= b,
    ensures
        pow10(a) <= pow10(b),
    decreases b,
{
    if a < b {
        lemma_pow10_mono(a, (b - 1) as nat);
        assert(pow10(b) == 10 * pow10((b - 1) as nat));
        assert(pow10((b - 1) as nat) <= 10 * pow10((b - 1) as nat)) by (nonlinear_arith)
            requires pow10((b - 1) as nat) >= 0,
        ;
    }
}

/// Fixed-width decimal text round-trips: rendering `n < 10^w` in width `w`
/// gives `w` digits that denote `n` again.
pub proof fn lemma_dec_round_trip(n: nat, w: nat)
    requires
        n < pow10(w),
    ensures
        dec_render(n, w).len() == w,
        all_digits(dec_render(n, w)),
        dec_value(dec_render(n, w)) == n,
    decreases w,
{
    if w == 0 {
    } else {
        assert(n / 10 < pow10((w - 1) as nat)) by (nonlinear_arith)
            requires n < 10 * pow10((w - 1) as nat),
        ;
        lemma_dec_round_trip(n / 10, (w - 1) as nat);
        let s = dec_render(n, w);
        assert(s.drop_last() =~= dec_render(n / 10, (w - 1) as nat));
        assert(s.last() == (48 + n % 10) as u8);
        assert(n % 10 < 10) by (nonlinear_arith);
        assert((n / 10) * 10 + n % 10 == n) by (nonlinear_arith);
        assert(all_digits(s)) by {
            assert(forall|i: int| 0 <= i < s.len() - 1 ==> s[i] == s.drop_last()[i]);
        }
    }
}

/// The minimal width of `n` in decimal.
pub open spec fn spec_dec_width(n: nat) -> nat
    decreases n,
{
    if n < 10 {
        1
    } else {
        1 + spec_dec_width(n / 10)
    }
}

/// A number is below ten to its own width.
pub proof fn lemma_dec_width_bound(n: nat)
    ensures
        n < pow10(spec_dec_width(n)),
    decreases n,
{
    if n < 10 {
        assert(pow10(0) == 1);
        assert(pow10(1) == 10);
    } else {
        assert(n / 10 < n) by (nonlinear_arith)
            requires n >= 10,
        ;
        lemma_dec_width_bound(n / 10);
        let q = n / 10;
        vstd::arithmetic::div_mod::lemma_fundamental_div_mod(n as int, 10);
        assert(n == 10 * q + n % 10);
        assert(n % 10 < 10) by (nonlinear_arith);
        assert(n < 10 * pow10(spec_dec_width(q))) by (nonlinear_arith)
            requires
                q < pow10(spec_dec_width(q)),
                n == 10 * q + n % 10,
                n % 10 < 10,
        ;
        assert(spec_dec_width(n) == 1 + spec_dec_width(q));
        assert(pow10(spec_dec_width(n)) == 10 * pow10(spec_dec_width(q)));
    }
}

/// If `n < 10^w` then the minimal width is at most `w` (for `w >= 1`).
pub proof fn lemma_dec_width_le(n: nat, w: nat)
    requires
        w >= 1,
        n < pow10(w),
    ensures
        spec_dec_width(n) <= w,
    decreases w,
{
    if n < 10 {
    } else {
        assert(w >= 2) by {
            if w == 1 {
                assert(pow10(1nat) == 10);
            }
        }
        assert(n / 10 < pow10((w - 1) as nat)) by (nonlinear_arith)
            requires n < 10 * pow10((w - 1) as nat),
        ;
        lemma_dec_width_le(n / 10, (w - 1) as nat);
    }
}

/// Computes the minimal decimal width of `n`.
pub fn dec_width(n: u64) -> (w: u64)
    requires
        n < 10000000000,
    ensures
        w == spec_dec_width(n as nat),
        1 <= w <= 10,
{
    proof {
        lemma_pow10_chain();
        lemma_dec_width_le(n as nat, 10);
    }
    let mut w: u64 = 1;
    let mut m: u64 = n;
    while m >= 10
        invariant
            1 <= w,
            spec_dec_width(n as nat) == w - 1 + spec_dec_width(m as nat),
            spec_dec_width(n as nat) <= 10,
        decreases m,
    {
        proof {
            assert(m / 10 < m) by (nonlinear_arith)
                requires m >= 10,
            ;
        }
        m = m / 10;
        w = w + 1;
        proof {
            assert(spec_dec_width(m as nat) >= 1);
        }
    }
    w
}

/// Appends `n` in exactly `width` digits.
pub fn push_dec(v: &mut Vec<u8>, n: u64, width: u64)
    ensures
        final(v)@ == old(v)@ + dec_render(n as nat, width as nat),
        final(v)@.len() == old(v)@.len() + width,
    decreases width,
{
    if width == 0 {
        proof {
            assert(v@ =~= old(v)@ + dec_render(n as nat, 0));
        }
    } else {
        push_dec(v, n / 10, width - 1);
        v.push(48 + (n % 10) as u8);
        proof {
            assert(old(v)@ + dec_render((n / 10) as nat, (width - 1) as nat)
                + seq![(48 + (n as nat) % 10) as u8]
                =~= old(v)@ + dec_render(n as nat, width as nat));
        }
    }
}

/// Parses a digit string of at most 10 digits.  `Some` exactly on
/// nonempty all-digit input of that length, returning its value.
pub fn parse_dec(s: &[u8]) -> (r: Option<u64>)
    ensures
        match r {
            Some(x) => 1 <= s@.len() <= 10 && all_digits(s@) && x == dec_value(s@),
            None => !(1 <= s@.len() <= 10 && all_digits(s@)),
        },
{
    if s.len() < 1 || s.len() > 10 {
        return None;
    }
    proof {
        lemma_pow10_chain();
    }
    let mut i: usize = 0;
    let mut acc: u64 = 0;
    while i < s.len()
        invariant
            0 <= i <= s@.len() <= 10,
            all_digits(s@.take(i as int)),
            acc == dec_value(s@.take(i as int)),
            acc < pow10(i as nat),
            pow10(10) == 10000000000,
        decreases s@.len() - i,
    {
        let c = *slice_index_get(s, i);
        if c < 48 || c > 57 {
            proof {
                assert(!all_digits(s@)) by {
                    assert(s@[i as int] == c);
                }
            }
            return None;
        }
        proof {
            lemma_pow10_mono(i as nat + 1, 10);
            assert(pow10(i as nat + 1) == 10 * pow10(i as nat));
            assert(acc * 10 + (c - 48) < pow10(i as nat + 1)) by (nonlinear_arith)
                requires
                    acc < pow10(i as nat),
                    c - 48 < 10,
                    pow10(i as nat + 1) == 10 * pow10(i as nat),
            ;
        }
        acc = acc * 10 + (c - 48) as u64;
        i = i + 1;
        proof {
            assert(s@.take(i as int).drop_last() =~= s@.take(i as int - 1));
            assert(s@.take(i as int).last() == c);
        }
    }
    proof {
        assert(s@.take(s@.len() as int) =~= s@);
    }
    Some(acc)
}

} // verus!
