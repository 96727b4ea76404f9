//! Trapezoidal membership functions evaluated in fixed point.
use vstd::prelude::*;

verus! {

/// Fixed-point value of full membership: a degree `m` stands for `m / MEMBERSHIP_ONE`.
pub const MEMBERSHIP_ONE: u32 = 10000;

/// A trapezoidal fuzzy set with breakpoints `a <= b <= c <= d` over the sensed quantity.
#[derive(Clone, Copy, Debug, PartialEq, Eq)]
pub struct FuzzySet {
    pub a: u32,
    pub b: u32,
    pub c: u32,
    pub d: u32,
}

/// A rule configuration refused at construction.
#[derive(Clone, Copy, Debug, PartialEq, Eq)]
pub enum ConfigError {
    /// Breakpoints not ordered `a <= b <= c <= d`.
    UnorderedBreakpoints,
    /// A rule set with no rule.
    EmptyRuleSet,
}

/// `n / m` rounded up, for `n >= 0` and `m > 0`.
pub open spec fn ceil_div(n: int, m: int) -> int {
    (n + m - 1) / m
}

/// The trapezoid's degree in fixed point. The plateau `[b, c]` is full
/// membership, outside the support `(a, d)` the degree is zero, and on the
/// edges it follows the straight line, rounded up so that every point strictly
/// inside the support has a positive degree. A zero-width edge is a step.
pub open spec fn trapezoid(x: int, a: int, b: int, c: int, d: int) -> int {
    if b <= x && x <= c {
        MEMBERSHIP_ONE as int
    } else if x <= a || x >= d {
        0
    } else if x < b {
        ceil_div(MEMBERSHIP_ONE * (x - a), b - a)
    } else {
        ceil_div(MEMBERSHIP_ONE * (d - x), d - c)
    }
}

impl FuzzySet {
    /// The breakpoints are ordered.
    pub open spec fn wf(self) -> bool {
        self.a <= self.b && self.b <= self.c && self.c <= self.d
    }

    pub open spec fn degree(self, x: int) -> int {
        trapezoid(x, self.a as int, self.b as int, self.c as int, self.d as int)
    }

    /// Builds a set, refusing breakpoints that are out of order.
    pub fn new(a: u32, b: u32, c: u32, d: u32) -> (r: Result<FuzzySet, ConfigError>)
        ensures
            a <= b && b <= c && c <= d ==> r == Ok::<FuzzySet, ConfigError>(FuzzySet { a, b, c, d }),
            !(a <= b && b <= c && c <= d) ==> r == Err::<FuzzySet, ConfigError>(ConfigError::UnorderedBreakpoints),
    {
        if a <= b && b <= c && c <= d {
            Ok(FuzzySet { a, b, c, d })
        } else {
            Err(ConfigError::UnorderedBreakpoints)
        }
    }

    /// Degree of membership of `x` in this set.
    pub fn membership(&self, x: u32) -> (r: u32)
        ensures
            r as int == self.degree(x as int),
            r <= MEMBERSHIP_ONE,
    {
        trapezoidal(x, self.a, self.b, self.c, self.d)
    }
}

proof fn lemma_ceil_edge(k: int, m: int)
    requires
        0 < k < m,
    ensures
        0 < ceil_div(MEMBERSHIP_ONE * k, m) <= MEMBERSHIP_ONE,
{
    let one = MEMBERSHIP_ONE as int;
    assert(one * k <= one * m - one) by (nonlinear_arith)
        requires
            k <= m - 1,
            one == 10000,
    ;
    assert(m <= one * k + m - 1);
    vstd::arithmetic::div_mod::lemma_div_is_ordered(m, one * k + m - 1, m);
    vstd::arithmetic::div_mod::lemma_div_by_multiple(1, m);
    assert(one * m + (m - 1) == one * m + m - 1);
    vstd::arithmetic::div_mod::lemma_fundamental_div_mod_converse_div(one * m + m - 1, m, one, m - 1);
    vstd::arithmetic::div_mod::lemma_div_is_ordered(one * k + m - 1, one * m + m - 1, m);
}

/// Degree of membership of `x` in the trapezoid `(a, b, c, d)`, in fixed point.
/// Never divides by zero, whatever the breakpoints.
pub fn trapezoidal(x: u32, a: u32, b: u32, c: u32, d: u32) -> (r: u32)
    ensures
        r as int == trapezoid(x as int, a as int, b as int, c as int, d as int),
        r <= MEMBERSHIP_ONE,
{
    if b <= x && x <= c {
        MEMBERSHIP_ONE
    } else if x <= a || x >= d {
        0
    } else if x < b {
        let k = (x - a) as u64;
        let m = (b - a) as u64;
        proof {
            lemma_ceil_edge(k as int, m as int);
        }
        assert(MEMBERSHIP_ONE as u64 * k <= 10000 * 0xffff_ffff) by (nonlinear_arith)
            requires
                k <= 0xffff_ffff,
        ;
        ((MEMBERSHIP_ONE as u64 * k + m - 1) / m) as u32
    } else {
        let k = (d - x) as u64;
        let m = (d - c) as u64;
        proof {
            lemma_ceil_edge(k as int, m as int);
        }
        assert(MEMBERSHIP_ONE as u64 * k <= 10000 * 0xffff_ffff) by (nonlinear_arith)
            requires
                k <= 0xffff_ffff,
        ;
        ((MEMBERSHIP_ONE as u64 * k + m - 1) / m) as u32
    }
}

/// Outside the support, `x <= a` or `x >= d`, the degree is zero, except at a
/// point that is also on the plateau `[b, c]` (a zero-width edge at the end of
/// the range), where the step counts as full membership.
pub proof fn lemma_zero_outside_support(s: FuzzySet, x: int)
    requires
        s.wf(),
        x <= s.a || x >= s.d,
        !(s.b <= x <= s.c),
    ensures
        s.degree(x) == 0,
{
}

/// On the plateau `[b, c]` the degree is full membership.
pub proof fn lemma_full_on_plateau(s: FuzzySet, x: int)
    requires
        s.wf(),
        s.b <= x <= s.c,
    ensures
        s.degree(x) == MEMBERSHIP_ONE,
{
}

/// Every degree lies between zero and full membership.
pub proof fn lemma_degree_bounded(s: FuzzySet, x: int)
    ensures
        0 <= s.degree(x) <= MEMBERSHIP_ONE,
{
    if !(s.b <= x <= s.c) && !(x <= s.a || x >= s.d) {
        if x < s.b {
            lemma_ceil_edge(x - s.a, s.b - s.a);
        } else {
            lemma_ceil_edge(s.d - x, s.d - s.c);
        }
    }
}

/// On the rising edge `[a, b]` the degree never decreases.
pub proof fn lemma_rising_monotone(s: FuzzySet, x: int, y: int)
    requires
        s.wf(),
        s.a <= x <= y <= s.b,
    ensures
        s.degree(x) <= s.degree(y),
{
    lemma_degree_bounded(s, x);
    lemma_degree_bounded(s, y);
    if x > s.a && y < s.b {
        let one = MEMBERSHIP_ONE as int;
        let m = s.b - s.a;
        assert(one * (x - s.a) <= one * (y - s.a)) by (nonlinear_arith)
            requires
                x <= y,
                one == 10000,
        ;
        vstd::arithmetic::div_mod::lemma_div_is_ordered(
            one * (x - s.a) + m - 1,
            one * (y - s.a) + m - 1,
            m,
        );
    }
}

/// On the falling edge `[c, d]` the degree never increases.
pub proof fn lemma_falling_monotone(s: FuzzySet, x: int, y: int)
    requires
        s.wf(),
        s.c <= x <= y <= s.d,
    ensures
        s.degree(x) >= s.degree(y),
{
    lemma_degree_bounded(s, x);
    lemma_degree_bounded(s, y);
    if x > s.c && y < s.d {
        let one = MEMBERSHIP_ONE as int;
        let m = s.d - s.c;
        assert(one * (s.d - y) <= one * (s.d - x)) by (nonlinear_arith)
            requires
                x <= y,
                one == 10000,
        ;
        vstd::arithmetic::div_mod::lemma_div_is_ordered(
            one * (s.d - y) + m - 1,
            one * (s.d - x) + m - 1,
            m,
        );
    }
}

} // verus!
