//! Zero-order fuzzy inference: fuzzify one reading against every rule, then
//! defuzzify by the weighted average of the rules' crisp outputs.
use vstd::prelude::*;

use crate::membership::{ConfigError, FuzzySet};

verus! {

/// Output returned when no rule fires at all. It is the output of the rule for
/// a low reading: the longest firing delay, hence the least power delivered.
pub const FALLBACK_OUTPUT: u32 = 165;

/// Raw analog count that stands for a full-scale (100 %) reading.
pub const ADC_FULL_SCALE_COUNTS: u32 = 3750;

/// A full-scale reading in the rules' unit, hundredths of a percent.
pub const READING_FULL_SCALE: u32 = 10000;

/// Scales a raw analog count to hundredths of a percent, rounded down.
/// Counts above full scale give readings above 100 %.
pub fn reading_from_raw(raw: u16) -> (r: u32)
    ensures
        r == raw as int * READING_FULL_SCALE as int / ADC_FULL_SCALE_COUNTS as int,
{
    assert(raw as u32 * READING_FULL_SCALE <= 0xffff * 10000) by (nonlinear_arith)
        requires
            raw <= 0xffff,
    ;
    raw as u32 * READING_FULL_SCALE / ADC_FULL_SCALE_COUNTS
}

/// A rule with a trapezoidal antecedent and a singleton (crisp) consequent.
#[derive(Clone, Copy, Debug, PartialEq, Eq)]
pub struct Rule {
    pub antecedent: FuzzySet,
    pub consequent: u32,
}

/// A non-empty list of rules whose sets all have ordered breakpoints.
pub struct RuleSet {
    rules: Vec<Rule>,
}

impl View for RuleSet {
    type V = Seq<Rule>;

    closed spec fn view(&self) -> Seq<Rule> {
        self.rules@
    }
}

/// Every set among the rules has ordered breakpoints.
pub open spec fn all_ordered(rules: Seq<Rule>) -> bool {
    forall|i: int| 0 <= i < rules.len() ==> (#[trigger] rules[i]).antecedent.wf()
}

/// The degree of `x` in each rule's antecedent, paired with the rule's output.
pub open spec fn fire(rules: Seq<Rule>, x: int) -> Seq<(u32, u32)> {
    Seq::new(rules.len(), |i: int| (rules[i].antecedent.degree(x) as u32, rules[i].consequent))
}

/// Sum of the weights of the pairs.
pub open spec fn weight_total(r: Seq<(u32, u32)>) -> int
    decreases r.len(),
{
    if r.len() == 0 {
        0
    } else {
        weight_total(r.drop_last()) + r.last().0
    }
}

/// Sum of weight times output over the pairs.
pub open spec fn weighted_total(r: Seq<(u32, u32)>) -> int
    decreases r.len(),
{
    if r.len() == 0 {
        0
    } else {
        weighted_total(r.drop_last()) + r.last().0 * r.last().1
    }
}

/// Weighted average of the outputs, rounded down; the fallback when the
/// weights add up to zero.
pub open spec fn defuzzified(r: Seq<(u32, u32)>) -> int {
    if weight_total(r) == 0 {
        FALLBACK_OUTPUT as int
    } else {
        weighted_total(r) / weight_total(r)
    }
}

/// The crisp output that the rules give for the reading `x`.
pub open spec fn inferred(rules: Seq<Rule>, x: int) -> int {
    defuzzified(fire(rules, x))
}

/// The three rules of the dimmer, over a reading in hundredths of a percent:
/// Low (0, 0, 20 %, 50 %) gives 165, Medium (20 %, 50 %, 50 %, 75 %) gives 90,
/// High (50 %, 75 %, 100 %, 100 %) gives 15.
pub open spec fn standard_rules() -> Seq<Rule> {
    seq![
        Rule { antecedent: FuzzySet { a: 0, b: 0, c: 2000, d: 5000 }, consequent: 165 },
        Rule { antecedent: FuzzySet { a: 2000, b: 5000, c: 5000, d: 7500 }, consequent: 90 },
        Rule { antecedent: FuzzySet { a: 5000, b: 7500, c: 10000, d: 10000 }, consequent: 15 },
    ]
}

impl RuleSet {
    pub open spec fn wf(&self) -> bool {
        self@.len() > 0 && all_ordered(self@)
    }

    /// Builds a rule set, refusing an empty list or a set with unordered breakpoints.
    pub fn new(rules: Vec<Rule>) -> (r: Result<RuleSet, ConfigError>)
        ensures
            rules@.len() == 0 ==> r == Err::<RuleSet, ConfigError>(ConfigError::EmptyRuleSet),
            rules@.len() > 0 && !all_ordered(rules@) ==> r == Err::<RuleSet, ConfigError>(
                ConfigError::UnorderedBreakpoints,
            ),
            rules@.len() > 0 && all_ordered(rules@) ==> r is Ok,
            r matches Ok(s) ==> s@ == rules@ && s.wf(),
    {
        if rules.len() == 0 {
            return Err(ConfigError::EmptyRuleSet);
        }
        let mut i: usize = 0;
        while i < rules.len()
            invariant
                0 <= i <= rules@.len(),
                forall|j: int| 0 <= j < i ==> (#[trigger] rules@[j]).antecedent.wf(),
            decreases rules@.len() - i,
        {
            let s = rules[i].antecedent;
            if !(s.a <= s.b && s.b <= s.c && s.c <= s.d) {
                return Err(ConfigError::UnorderedBreakpoints);
            }
            i = i + 1;
        }
        Ok(RuleSet { rules })
    }

    /// The three rules of the dimmer (see `standard_rules`).
    pub fn standard() -> (r: RuleSet)
        ensures
            r@ == standard_rules(),
            r.wf(),
    {
        let rules = vec![
            Rule { antecedent: FuzzySet { a: 0, b: 0, c: 2000, d: 5000 }, consequent: 165 },
            Rule { antecedent: FuzzySet { a: 2000, b: 5000, c: 5000, d: 7500 }, consequent: 90 },
            Rule { antecedent: FuzzySet { a: 5000, b: 7500, c: 10000, d: 10000 }, consequent: 15 },
        ];
        assert(rules@ =~= standard_rules());
        RuleSet { rules }
    }

    pub fn len(&self) -> (r: usize)
        ensures
            r == self@.len(),
    {
        self.rules.len()
    }

    /// The rule at `i`.
    pub fn rule(&self, i: usize) -> (r: Rule)
        requires
            i < self@.len(),
        ensures
            r == self@[i as int],
    {
        self.rules[i]
    }
}

/// Fuzzification: the degree of `x` in each rule's antecedent, with its output.
pub fn apply_rules(x: u32, rules: &RuleSet) -> (r: Vec<(u32, u32)>)
    ensures
        r@ == fire(rules@, x as int),
{
    let mut out: Vec<(u32, u32)> = Vec::new();
    let mut i: usize = 0;
    let n = rules.len();
    while i < n
        invariant
            n == rules@.len(),
            0 <= i <= n,
            out@ =~= fire(rules@, x as int).subrange(0, i as int),
        decreases n - i,
    {
        let rule = rules.rule(i);
        let mu = rule.antecedent.membership(x);
        out.push((mu, rule.consequent));
        i = i + 1;
    }
    assert(fire(rules@, x as int).subrange(0, n as int) =~= fire(rules@, x as int));
    out
}

proof fn lemma_weight_total_nonneg(r: Seq<(u32, u32)>)
    ensures
        weight_total(r) >= 0,
        weighted_total(r) >= 0,
    decreases r.len(),
{
    if r.len() > 0 {
        lemma_weight_total_nonneg(r.drop_last());
        let (w, y) = r.last();
        assert(w * y >= 0) by (nonlinear_arith)
            requires
                w >= 0,
                y >= 0,
        ;
    }
}

/// The total weight is at least the weight of any one pair.
proof fn lemma_weight_total_ge(r: Seq<(u32, u32)>, i: int)
    requires
        0 <= i < r.len(),
    ensures
        weight_total(r) >= r[i].0,
    decreases r.len(),
{
    lemma_weight_total_nonneg(r.drop_last());
    if i < r.len() - 1 {
        lemma_weight_total_ge(r.drop_last(), i);
    }
}

/// Where every pair of positive weight has its output in `[lo, hi]`, the
/// weighted total lies between `lo` and `hi` times the total weight.
proof fn lemma_weighted_bounds(r: Seq<(u32, u32)>, lo: int, hi: int)
    requires
        forall|i: int| 0 <= i < r.len() && (#[trigger] r[i]).0 > 0 ==> lo <= r[i].1 <= hi,
    ensures
        lo * weight_total(r) <= weighted_total(r) <= hi * weight_total(r),
    decreases r.len(),
{
    if r.len() > 0 {
        let p = r.drop_last();
        assert forall|i: int| 0 <= i < p.len() && (#[trigger] p[i]).0 > 0 implies lo <= p[i].1
            <= hi by {
            assert(p[i] == r[i]);
        }
        lemma_weighted_bounds(p, lo, hi);
        let (w, y) = r.last();
        let wt = weight_total(p);
        let nt = weighted_total(p);
        if w > 0 {
            assert(r[r.len() - 1] == r.last());
            assert(lo * w <= w * y <= hi * w) by (nonlinear_arith)
                requires
                    lo <= y <= hi,
                    w > 0,
            ;
        } else {
            assert(lo * w == 0 && w * y == 0 && hi * w == 0) by (nonlinear_arith)
                requires
                    w == 0,
            ;
        }
        assert(lo * (wt + w) == lo * wt + lo * w) by (nonlinear_arith);
        assert(hi * (wt + w) == hi * wt + hi * w) by (nonlinear_arith);
    } else {
        assert(lo * 0 == 0 && hi * 0 == 0);
    }
}

/// The weighted average of outputs that all lie in `[lo, hi]` lies there too.
proof fn lemma_average_bounds(r: Seq<(u32, u32)>, lo: int, hi: int)
    requires
        weight_total(r) > 0,
        0 <= lo,
        forall|i: int| 0 <= i < r.len() && (#[trigger] r[i]).0 > 0 ==> lo <= r[i].1 <= hi,
    ensures
        lo <= weighted_total(r) / weight_total(r) <= hi,
{
    let w = weight_total(r);
    let n = weighted_total(r);
    lemma_weighted_bounds(r, lo, hi);
    vstd::arithmetic::div_mod::lemma_div_is_ordered(lo * w, n, w);
    vstd::arithmetic::div_mod::lemma_div_is_ordered(n, hi * w, w);
    assert(lo * w == w * lo) by (nonlinear_arith);
    assert(hi * w == w * hi) by (nonlinear_arith);
    vstd::arithmetic::div_mod::lemma_div_multiples_vanish(lo, w);
    vstd::arithmetic::div_mod::lemma_div_multiples_vanish(hi, w);
}

/// Defuzzification by the height method: the weighted average of the outputs,
/// rounded down, or `FALLBACK_OUTPUT` when every weight is zero.
pub fn defuzzify(results: &Vec<(u32, u32)>) -> (r: u32)
    ensures
        r as int == defuzzified(results@),
{
    let mut num: u128 = 0;
    let mut den: u128 = 0;
    let mut i: usize = 0;
    while i < results.len()
        invariant
            0 <= i <= results@.len(),
            num as int == weighted_total(results@.subrange(0, i as int)),
            den as int == weight_total(results@.subrange(0, i as int)),
            num <= i * 0x1_0000_0000_0000_0000,
            den <= i * 0x1_0000_0000,
        decreases results@.len() - i,
    {
        let (w, y) = results[i];
        proof {
            let s = results@.subrange(0, i + 1);
            assert(s.drop_last() =~= results@.subrange(0, i as int));
            assert(s.last() == results@[i as int]);
        }
        assert((w as u128) * (y as u128) <= 0xffff_ffff_ffff_ffff) by (nonlinear_arith)
            requires
                w <= 0xffff_ffff,
                y <= 0xffff_ffff,
        ;
        num = num + (w as u128) * (y as u128);
        den = den + w as u128;
        i = i + 1;
    }
    assert(results@.subrange(0, i as int) =~= results@);
    if den == 0 {
        FALLBACK_OUTPUT
    } else {
        proof {
            lemma_average_bounds(results@, 0, 0xffff_ffff);
        }
        (num / den) as u32
    }
}

/// Fuzzifies `x` against the rules and defuzzifies the result.
pub fn infer(x: u32, rules: &RuleSet) -> (r: u32)
    ensures
        r as int == inferred(rules@, x as int),
{
    let results = apply_rules(x, rules);
    defuzzify(&results)
}

/// Whenever at least one rule fires for `x`, the inferred output lies between
/// the least and the greatest output of the rules that fire (and so between
/// the least and greatest output of all the rules).
pub proof fn lemma_infer_within_consequents(rules: Seq<Rule>, x: int, lo: int, hi: int)
    requires
        exists|k: int| 0 <= k < rules.len() && (#[trigger] rules[k]).antecedent.degree(x) > 0,
        forall|i: int|
            0 <= i < rules.len() && (#[trigger] rules[i]).antecedent.degree(x) > 0 ==> lo <= rules[i].consequent <= hi,
    ensures
        lo <= inferred(rules, x) <= hi,
{
    let r = fire(rules, x);
    let k = choose|k: int| 0 <= k < rules.len() && (#[trigger] rules[k]).antecedent.degree(x) > 0;
    assert(r[k].0 > 0) by {
        crate::membership::lemma_degree_bounded(rules[k].antecedent, x);
    }
    lemma_weight_total_ge(r, k);
    assert forall|i: int| 0 <= i < r.len() && (#[trigger] r[i]).0 > 0 implies lo <= r[i].1 <= hi by {
        crate::membership::lemma_degree_bounded(rules[i].antecedent, x);
    }
    let lo0 = if lo < 0 { 0 } else { lo };
    lemma_average_bounds(r, lo0, hi);
}

} // verus!
