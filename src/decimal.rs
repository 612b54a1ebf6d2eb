use vstd::prelude::*;

verus! {

/// The most decimal digits a number in a declaration may carry.
pub const MAX_DIGITS: u32 = 18;

/// Ten to the power `n`.
pub open spec fn pow10(n: nat) -> nat
    decreases n,
{
    if n == 0 {
        1
    } else {
        10 * pow10((n - 1) as nat)
    }
}

/// The largest power of ten a mantissa may reach (exclusive).
pub open spec fn mantissa_limit() -> int {
    pow10(MAX_DIGITS as nat) as int
}

/// A decimal number as written in source text: `mantissa × 10^(-scale)`.
#[derive(Clone, Copy, Debug, PartialEq, Eq, Structural)]
pub struct Decimal {
    pub mantissa: i64,
    pub scale: u32,
}

/// `10^MAX_DIGITS`, written out.
pub proof fn lemma_pow10_max()
    ensures
        mantissa_limit() == 1_000_000_000_000_000_000,
{
    reveal_with_fuel(pow10, 19);
}

pub proof fn lemma_pow10_positive(n: nat)
    ensures
        pow10(n) >= 1,
    decreases n,
{
    if n > 0 {
        lemma_pow10_positive((n - 1) as nat);
    }
}

pub proof fn lemma_pow10_monotone(a: nat, b: nat)
    requires
        a <= b,
    ensures
        pow10(a) <= pow10(b),
    decreases b,
{
    if a < b {
        lemma_pow10_monotone(a, (b - 1) as nat);
        lemma_pow10_positive((b - 1) as nat);
    }
}

/// Computes `10^n` for the exponents a declaration can hold.
pub fn pow10_u64(n: u32) -> (r: u64)
    requires
        n <= MAX_DIGITS,
    ensures
        r == pow10(n as nat),
{
    let mut r: u64 = 1;
    let mut k: u32 = 0;
    while k < n
        invariant
            k <= n,
            n <= MAX_DIGITS,
            r == pow10(k as nat),
        decreases n - k,
    {
        proof {
            lemma_pow10_monotone((k + 1) as nat, MAX_DIGITS as nat);
            lemma_pow10_max();
        }
        r = r * 10;
        k = k + 1;
    }
    r
}

impl Decimal {
    /// The mantissa has at most `MAX_DIGITS` digits and so does the scale.
    pub open spec fn wf(self) -> bool {
        &&& self.scale <= MAX_DIGITS
        &&& -mantissa_limit() < self.mantissa < mantissa_limit()
    }

    /// `self ≤ other` as rational numbers.
    pub open spec fn spec_le(self, other: Decimal) -> bool {
        self.mantissa * pow10(other.scale as nat) <= other.mantissa * pow10(self.scale as nat)
    }

    /// Compares two well-formed decimals by value.
    pub fn le(&self, other: &Decimal) -> (r: bool)
        requires
            self.wf(),
            other.wf(),
        ensures
            r == self.spec_le(*other),
    {
        let ps = pow10_u64(other.scale);
        let po = pow10_u64(self.scale);
        proof {
            lemma_pow10_monotone(other.scale as nat, MAX_DIGITS as nat);
            lemma_pow10_monotone(self.scale as nat, MAX_DIGITS as nat);
            lemma_pow10_positive(other.scale as nat);
            lemma_pow10_positive(self.scale as nat);
            lemma_pow10_max();
            let lim: int = 1_000_000_000_000_000_000;
            assert(-lim * lim <= self.mantissa * ps <= lim * lim) by (nonlinear_arith)
                requires
                    -lim < self.mantissa < lim,
                    0 < ps <= lim,
            ;
            assert(-lim * lim <= other.mantissa * po <= lim * lim) by (nonlinear_arith)
                requires
                    -lim < other.mantissa < lim,
                    0 < po <= lim,
            ;
        }
        let a: i128 = (self.mantissa as i128) * (ps as i128);
        let b: i128 = (other.mantissa as i128) * (po as i128);
        a <= b
    }
}

} // verus!
