//! Shares and sums as the store keeps them: percentages in hundredths of a
//! percent, and totals that stop at the largest `u64`.

use vstd::prelude::*;
use vstd::arithmetic::div_mod::lemma_fundamental_div_mod;
use vstd::arithmetic::div_mod::lemma_fundamental_div_mod_converse;
use vstd::arithmetic::div_mod::lemma_mod_bound;

verus! {

/// `n`, or the largest `u64` where `n` is above it.
pub open spec fn capped(n: nat) -> u64 {
    if n > u64::MAX {
        u64::MAX
    } else {
        n as u64
    }
}

/// `part` of `whole` in hundredths of a percent, rounded down; 0 where
/// `whole` is 0.
pub open spec fn share_of(part: nat, whole: nat) -> nat {
    if whole == 0 {
        0
    } else {
        part * 10000 / whole
    }
}

/// The sum of the entries of `s`.
pub open spec fn total(s: Seq<u64>) -> nat
    decreases s.len(),
{
    if s.len() == 0 {
        0
    } else {
        total(s.drop_last()) + s.last() as nat
    }
}

/// `part` of `whole` in hundredths of a percent, rounded down and capped at
/// the largest `u64`; 0 where `whole` is 0.
pub fn percent(part: u128, whole: u64) -> (r: u64)
    ensures
        r == capped(share_of(part as nat, whole as nat)),
{
    if whole == 0 {
        return 0;
    }
    let w: u128 = whole as u128;
    let q: u128 = part / w;
    let rem: u128 = part % w;
    let f: u128 = rem * 10000 / w;
    proof {
        let x = part as int * 10000;
        let g = (rem as int * 10000) % (w as int);
        lemma_fundamental_div_mod(part as int, w as int);
        lemma_fundamental_div_mod(rem as int * 10000, w as int);
        lemma_mod_bound(rem as int * 10000, w as int);
        assert(x == (q as int * 10000 + f as int) * w as int + g) by (nonlinear_arith)
            requires
                part as int == w as int * q as int + rem as int,
                rem as int * 10000 == w as int * f as int + g,
                x == part as int * 10000,
        ;
        lemma_fundamental_div_mod_converse(x, w as int, q as int * 10000 + f as int, g);
        assert(share_of(part as nat, whole as nat) == q * 10000 + f);
        assert(f < 10000) by (nonlinear_arith)
            requires
                rem < w,
                rem as int * 10000 == w as int * f as int + g,
                0 <= g,
                w > 0,
        ;
    }
    if q > u64::MAX as u128 {
        return u64::MAX;
    }
    let exact: u128 = q * 10000 + f;
    if exact > u64::MAX as u128 {
        u64::MAX
    } else {
        exact as u64
    }
}

/// `a + b`, capped at the largest `u64`: adding to a capped sum and capping
/// again is capping the whole sum.
pub proof fn lemma_capped_add(a: nat, b: u64)
    ensures
        capped(capped(a) as nat + b as nat) == capped(a + b as nat),
{
}

} // verus!
