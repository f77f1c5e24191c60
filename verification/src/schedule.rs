//! The update schedule: time as exact rational numbers of seconds, and the
//! rule by which a consumer with a refresh period is due at a tick. The
//! arithmetic on rationals is that of `num_rational`.

use vstd::prelude::*;
use num_rational::Ratio;

verus! {

/// A time or a period in seconds, as the fraction `numer / denom`.
#[derive(Debug, Clone, Copy)]
pub struct Seconds {
    pub numer: u64,
    pub denom: u64,
}

/// Whether two fractions can be brought to a common denominator within
/// `u64`.
pub open spec fn comparable(a: Seconds, b: Seconds) -> bool {
    &&& a.numer * b.denom <= u64::MAX
    &&& b.numer * a.denom <= u64::MAX
    &&& a.denom * b.denom <= u64::MAX
}

/// Whether the sum of two fractions can be formed within `u64`.
pub open spec fn addable(a: Seconds, b: Seconds) -> bool {
    &&& a.numer * b.denom + b.numer * a.denom <= u64::MAX
    &&& a.denom * b.denom <= u64::MAX
}

/// Whether a time is a whole multiple of a period: the remainder of the
/// one by the other, taken over their common denominator, is 0.
pub open spec fn due(seconds: Seconds, interval: Seconds) -> bool {
    (seconds.numer * interval.denom) % (interval.numer * seconds.denom) == 0
}

/// The product of two `u64`, which always fits `u128`.
pub fn product(a: u64, b: u64) -> (r: u128)
    ensures
        r == a * b,
{
    assert(a * b <= u128::MAX) by (nonlinear_arith)
        requires
            a <= u64::MAX,
            b <= u64::MAX,
    ;
    a as u128 * b as u128
}

/// The minute that the scheduler counts in.
pub const MINUTE: u64 = 60;

impl Seconds {
    /// The denominator is not 0.
    pub open spec fn wf(self) -> bool {
        self.denom > 0
    }

    /// Whether two fractions are the same number.
    pub open spec fn same_as(self, other: Seconds) -> bool {
        self.numer * other.denom == other.numer * self.denom
    }

    /// Whether the fraction is the number `numer / denom`, in terms no
    /// larger than these.
    pub open spec fn is_fraction(self, numer: int, denom: int) -> bool {
        &&& self.denom > 0
        &&& self.numer * denom == numer * self.denom
        &&& self.numer <= numer
        &&& self.denom <= denom
    }

    /// The whole number of seconds `n`.
    pub fn from_integer(n: u64) -> (r: Seconds)
        ensures
            r == (Seconds { numer: n, denom: 1 }),
    {
        Seconds { numer: n, denom: 1 }
    }

    /// Whether the two fractions can be brought to a common denominator
    /// within `u64`.
    pub fn comparable_with(&self, other: &Seconds) -> (r: bool)
        ensures
            r == comparable(*self, *other),
    {
        let max: u128 = u64::MAX as u128;
        let a: u128 = product(self.numer, other.denom);
        let b: u128 = product(other.numer, self.denom);
        let d: u128 = product(self.denom, other.denom);
        a <= max && b <= max && d <= max
    }

    /// Whether the sum of the two fractions can be formed within `u64`.
    pub fn addable_with(&self, other: &Seconds) -> (r: bool)
        ensures
            r == addable(*self, *other),
    {
        let max: u128 = u64::MAX as u128;
        let a: u128 = product(self.numer, other.denom);
        let b: u128 = product(other.numer, self.denom);
        let d: u128 = product(self.denom, other.denom);
        a <= max && b <= max && a + b <= max && d <= max
    }
}

/// `%` on `num_rational::Ratio<u64>`, each operand made by `Ratio::new`:
/// the remainder of `a` by `b`, in lowest terms. The operands are brought
/// to their least common denominator, which is where the bounds come from.
#[verifier::external_body]
fn ratio_rem(a: Seconds, b: Seconds) -> (r: Seconds)
    requires
        a.wf(),
        b.wf(),
        b.numer > 0,
        comparable(a, b),
    ensures
        r.is_fraction((a.numer * b.denom) % (b.numer * a.denom), a.denom * b.denom),
{
    let r = Ratio::new(a.numer, a.denom) % Ratio::new(b.numer, b.denom);
    Seconds { numer: *r.numer(), denom: *r.denom() }
}

/// `+` on `num_rational::Ratio<u64>`, each operand made by `Ratio::new`:
/// the sum of `a` and `b`, in lowest terms.
#[verifier::external_body]
fn ratio_add(a: Seconds, b: Seconds) -> (r: Seconds)
    requires
        a.wf(),
        b.wf(),
        addable(a, b),
    ensures
        r.is_fraction(a.numer * b.denom + b.numer * a.denom, a.denom * b.denom),
{
    let r = Ratio::new(a.numer, a.denom) + Ratio::new(b.numer, b.denom);
    Seconds { numer: *r.numer(), denom: *r.denom() }
}

/// `==` on `num_rational::Ratio<u64>`, each operand made by `Ratio::new`:
/// whether `a` and `b` are the same number.
#[verifier::external_body]
fn ratio_eq(a: Seconds, b: Seconds) -> (r: bool)
    requires
        a.wf(),
        b.wf(),
    ensures
        r == a.same_as(b),
{
    Ratio::new(a.numer, a.denom) == Ratio::new(b.numer, b.denom)
}

/// `min` on `num_rational::Ratio<u64>`, each operand made by `Ratio::new`:
/// the smaller of `a` and `b`, in lowest terms, and `a` where they are the
/// same number.
#[verifier::external_body]
fn ratio_min(a: Seconds, b: Seconds) -> (r: Seconds)
    requires
        a.wf(),
        b.wf(),
    ensures
        a.numer * b.denom <= b.numer * a.denom ==> r.is_fraction(a.numer as int, a.denom as int),
        a.numer * b.denom > b.numer * a.denom ==> r.is_fraction(b.numer as int, b.denom as int),
{
    let r = Ratio::new(a.numer, a.denom).min(Ratio::new(b.numer, b.denom));
    Seconds { numer: *r.numer(), denom: *r.denom() }
}

/// Whether a consumer with the refresh period `interval` is due at the
/// time `seconds`: the time is a whole multiple of the period.
pub fn is_due(seconds: Seconds, interval: Seconds) -> (r: bool)
    requires
        seconds.wf(),
        interval.wf(),
        interval.numer > 0,
        comparable(seconds, interval),
    ensures
        r == due(seconds, interval),
{
    let rest = ratio_rem(seconds, interval);
    let zero = Seconds::from_integer(0);
    let r = ratio_eq(rest, zero);
    proof {
        let whole = (seconds.numer * interval.denom) % (interval.numer * seconds.denom);
        let d = seconds.denom * interval.denom;
        assert(d > 0) by (nonlinear_arith)
            requires
                d == seconds.denom * interval.denom,
                seconds.denom > 0,
                interval.denom > 0,
        ;
        assert((rest.numer == 0) == (whole == 0)) by (nonlinear_arith)
            requires
                rest.numer * d == whole * rest.denom,
                rest.denom > 0,
                d > 0,
                rest.numer >= 0,
                whole >= 0,
        ;
    }
    r
}

/// The step between two ticks for a configured refresh interval: the
/// interval, but no more than a second.
pub fn draw_interval(interval: Seconds) -> (r: Seconds)
    requires
        interval.wf(),
    ensures
        interval.numer >= interval.denom ==> r == (Seconds { numer: 1, denom: 1 }),
        interval.numer < interval.denom ==> r.is_fraction(
            interval.numer as int,
            interval.denom as int,
        ),
{
    let r = ratio_min(Seconds::from_integer(1), interval);
    proof {
        if interval.numer >= interval.denom {
            assert(r.numer == 1 && r.denom == 1) by (nonlinear_arith)
                requires
                    r.denom > 0,
                    r.numer * 1 == 1 * r.denom,
                    r.numer <= 1,
                    r.denom <= 1,
            ;
        }
    }
    r
}

/// The time after one more tick: the time before plus the step, counted
/// within the minute.
pub open spec fn ticked(seconds: Seconds, step: Seconds) -> (int, int) {
    (
        (seconds.numer * step.denom + step.numer * seconds.denom) % (MINUTE * (seconds.denom
            * step.denom)),
        seconds.denom * step.denom,
    )
}

/// The time after one more tick of `step`, counted within the minute.
pub fn next_seconds(seconds: Seconds, step: Seconds) -> (r: Seconds)
    requires
        seconds.wf(),
        step.wf(),
        addable(seconds, step),
        MINUTE * (seconds.denom * step.denom) <= u64::MAX,
    ensures
        r.is_fraction(ticked(seconds, step).0, ticked(seconds, step).1),
{
    let sum = ratio_add(seconds, step);
    let minute = Seconds::from_integer(MINUTE);
    let ghost n = seconds.numer * step.denom + step.numer * seconds.denom;
    let ghost d = seconds.denom * step.denom;
    proof {
        assert(d > 0) by (nonlinear_arith)
            requires
                d == seconds.denom * step.denom,
                seconds.denom > 0,
                step.denom > 0,
        ;
        assert(MINUTE * sum.denom <= u64::MAX) by (nonlinear_arith)
            requires
                sum.denom <= d,
                MINUTE * d <= u64::MAX,
        ;
    }
    let r = ratio_rem(sum, minute);
    proof {
        lemma_same_remainder(sum.numer as int, sum.denom as int, n, d, MINUTE as int);
        let r1 = sum.numer as int % (MINUTE * sum.denom);
        let r2 = n % (MINUTE * d);
        assert(sum.numer * minute.denom == sum.numer);
        assert(minute.numer * sum.denom == MINUTE * sum.denom);
        assert(sum.denom * minute.denom == sum.denom);
        assert(r.numer * sum.denom == r1 * r.denom);
        assert(r.numer * d == r2 * r.denom) by (nonlinear_arith)
            requires
                r.numer * sum.denom == r1 * r.denom,
                r1 * d == r2 * sum.denom,
                sum.denom > 0,
        ;
        assert(r1 <= r2) by (nonlinear_arith)
            requires
                r1 * d == r2 * sum.denom,
                sum.denom <= d,
                sum.denom > 0,
                r1 >= 0,
                r2 >= 0,
        ;
    }
    r
}

/// Two fractions that are the same number have remainders by a whole
/// number that are the same number.
proof fn lemma_same_remainder(a: int, b: int, n: int, d: int, m: int)
    requires
        0 <= a,
        0 < b,
        0 <= n,
        0 < d,
        0 < m,
        a * d == n * b,
    ensures
        0 <= a % (m * b),
        0 <= n % (m * d),
        (a % (m * b)) * d == (n % (m * d)) * b,
{
    let mb = m * b;
    let md = m * d;
    assert(mb > 0 && md > 0) by (nonlinear_arith)
        requires
            mb == m * b,
            md == m * d,
            m > 0,
            b > 0,
            d > 0,
    ;
    vstd::arithmetic::div_mod::lemma_fundamental_div_mod(a, mb);
    vstd::arithmetic::div_mod::lemma_fundamental_div_mod(n, md);
    vstd::arithmetic::div_mod::lemma_mod_bound(a, mb);
    vstd::arithmetic::div_mod::lemma_mod_bound(n, md);
    let q1 = a / mb;
    let r1 = a % mb;
    let q2 = n / md;
    let r2 = n % md;
    let k = m * b * d;
    assert(k > 0) by (nonlinear_arith)
        requires
            k == m * b * d,
            m > 0,
            b > 0,
            d > 0,
    ;
    assert(a * d == q1 * k + r1 * d) by (nonlinear_arith)
        requires
            a == mb * q1 + r1,
            mb == m * b,
            k == m * b * d,
    ;
    assert(n * b == q2 * k + r2 * b) by (nonlinear_arith)
        requires
            n == md * q2 + r2,
            md == m * d,
            k == m * b * d,
    ;
    assert(0 <= r1 * d < k) by (nonlinear_arith)
        requires
            0 <= r1 < mb,
            mb == m * b,
            k == m * b * d,
            d > 0,
    ;
    assert(0 <= r2 * b < k) by (nonlinear_arith)
        requires
            0 <= r2 < md,
            md == m * d,
            k == m * b * d,
            b > 0,
    ;
    assert(q1 == q2) by (nonlinear_arith)
        requires
            q1 * k + r1 * d == q2 * k + r2 * b,
            0 <= r1 * d < k,
            0 <= r2 * b < k,
            k > 0,
    ;
}

/// A consumer whose period divides the step between two ticks is due at
/// every tick: where the time is a whole multiple of the step and the step
/// a whole multiple of the period, the time is a whole multiple of the
/// period.
pub proof fn lemma_due_at_multiples(
    seconds: Seconds,
    step: Seconds,
    interval: Seconds,
    ticks: nat,
    parts: nat,
)
    requires
        seconds.wf(),
        step.wf(),
        interval.wf(),
        interval.numer > 0,
        seconds.numer * step.denom == ticks * (step.numer * seconds.denom),
        step.numer * interval.denom == parts * (interval.numer * step.denom),
    ensures
        due(seconds, interval),
{
    let a = seconds.numer * interval.denom;
    let b = interval.numer * seconds.denom;
    let k = ticks * parts;
    assert(b > 0) by (nonlinear_arith)
        requires
            b == interval.numer * seconds.denom,
            interval.numer > 0,
            seconds.denom > 0,
    ;
    assert(a * step.denom == (k * b) * step.denom) by (nonlinear_arith)
        requires
            a == seconds.numer * interval.denom,
            b == interval.numer * seconds.denom,
            k == ticks * parts,
            seconds.numer * step.denom == ticks * (step.numer * seconds.denom),
            step.numer * interval.denom == parts * (interval.numer * step.denom),
    ;
    assert(a == k * b) by (nonlinear_arith)
        requires
            a * step.denom == (k * b) * step.denom,
            step.denom > 0,
    ;
    vstd::arithmetic::div_mod::lemma_mod_multiples_basic(k as int, b);
}

} // verus!
