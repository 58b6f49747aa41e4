//! Arithmetic operation type inference.
//!
//! For an operator and two operand constraints this module decides the
//! constraint of the result and whether the operation is safe (can never
//! leave the result type). Whether the extreme boundary combinations of the
//! operands stay finite is a floating-point question; the caller answers it
//! in `BoundaryFacts`, and everything else is decided here.

use vstd::prelude::*;

use crate::config::option_view;
use crate::config_types::{
    bounded, first_index, first_name, lemma_first_index, op_index, result_index,
    unbounded, ArithmeticOp, ArithmeticResult, Bounds, ConstraintDef, Sign, TypeConfig,
};
use crate::float_key::{
    bounds_equal, is_ordered_key, key_is_ordered, key_max, same_bound, NEG_ONE_KEY,
    ONE_KEY,
};

verus! {

/// Facts about the boundary values of an ordered pair of operand constraints
/// that only floating-point evaluation establishes. A missing lower bound
/// stands for `f64::MIN` and a missing upper bound for `f64::MAX`.
#[derive(Debug, Clone, Copy, PartialEq, Eq, Structural)]
pub struct BoundaryFacts {
    /// Every sum of a left and a right boundary value is finite.
    pub add_finite: bool,
    /// Every difference of a left and a right boundary value is finite.
    pub sub_finite: bool,
    /// Every product of a left and a right boundary value is finite.
    pub mul_finite: bool,
    /// Every quotient of a left and a right boundary value is finite, a zero
    /// bound of a zero-excluding divisor being replaced by the smallest
    /// positive normal value of its sign.
    pub div_finite: bool,
    /// The key of the product of the greatest absolute bound of the left
    /// operand and that of the right operand (see `max_abs_value`).
    pub abs_bound_product: i64,
}

/// Whether the facts are well formed: the product key is the key of a bit
/// pattern (it may be that of NaN, as when a bound is NaN).
pub open spec fn facts_ok(f: BoundaryFacts) -> bool {
    f.abs_bound_product > i64::MIN
}

/// Whether one operand is Positive and the other Negative.
pub open spec fn signs_differ(a: Sign, b: Sign) -> bool {
    (a == Sign::Positive && b == Sign::Negative) || (a == Sign::Negative && b == Sign::Positive)
}

/// Sign of a sum: Positive + Positive and Negative + Negative keep their
/// sign, everything else is Any.
pub open spec fn sum_sign(a: Sign, b: Sign) -> Sign {
    if a == Sign::Positive && b == Sign::Positive {
        Sign::Positive
    } else if a == Sign::Negative && b == Sign::Negative {
        Sign::Negative
    } else {
        Sign::Any
    }
}

/// Sign of a negated value.
pub open spec fn negated_sign(s: Sign) -> Sign {
    match s {
        Sign::Positive => Sign::Negative,
        Sign::Negative => Sign::Positive,
        Sign::Any => Sign::Any,
    }
}

/// Sign of a product or quotient.
pub open spec fn product_sign(a: Sign, b: Sign) -> Sign {
    if (a == Sign::Positive && b == Sign::Positive) || (a == Sign::Negative && b
        == Sign::Negative) {
        Sign::Positive
    } else if signs_differ(a, b) {
        Sign::Negative
    } else {
        Sign::Any
    }
}

/// (output sign, output excludes zero, safe) of `l + r`.
pub open spec fn add_properties(l: ConstraintDef, r: ConstraintDef, finite: bool) -> (
    Sign,
    bool,
    bool,
) {
    (
        sum_sign(l.sign, r.sign),
        l.excludes_zero && r.excludes_zero && l.sign == r.sign && l.sign != Sign::Any,
        signs_differ(l.sign, r.sign) && finite,
    )
}

/// (output sign, output excludes zero, safe) of `l - r`.
pub open spec fn sub_properties(l: ConstraintDef, r: ConstraintDef, finite: bool) -> (
    Sign,
    bool,
    bool,
) {
    (
        sum_sign(l.sign, negated_sign(r.sign)),
        l.excludes_zero && r.excludes_zero && l.sign == negated_sign(r.sign) && l.sign
            != Sign::Any,
        l.sign == r.sign && l.sign != Sign::Any && finite,
    )
}

/// (output sign, output excludes zero, safe) of `l * r`.
pub open spec fn mul_properties(l: ConstraintDef, r: ConstraintDef, finite: bool) -> (
    Sign,
    bool,
    bool,
) {
    (
        product_sign(l.sign, r.sign),
        l.excludes_zero && r.excludes_zero,
        bounded(l.bounds) && bounded(r.bounds) && finite,
    )
}

/// Whether both bounds are present, not NaN, and lie within `[-1, 1]`.
pub open spec fn in_unit_range(b: Bounds) -> bool {
    b.lower matches Some(lo) && b.upper matches Some(hi) && is_ordered_key(lo as int)
        && is_ordered_key(hi as int) && lo >= NEG_ONE_KEY && hi <= ONE_KEY
}

/// (output sign, output excludes zero, safe) of `l / r`.
pub open spec fn div_properties(l: ConstraintDef, r: ConstraintDef, finite: bool) -> (
    Sign,
    bool,
    bool,
) {
    (
        product_sign(l.sign, r.sign),
        l.excludes_zero,
        in_unit_range(l.bounds) && r.excludes_zero && finite,
    )
}

/// (output sign, output excludes zero, safe) of `l op r`.
pub open spec fn op_properties(
    op: ArithmeticOp,
    l: ConstraintDef,
    r: ConstraintDef,
    facts: BoundaryFacts,
) -> (Sign, bool, bool) {
    match op {
        ArithmeticOp::Add => add_properties(l, r, facts.add_finite),
        ArithmeticOp::Sub => sub_properties(l, r, facts.sub_finite),
        ArithmeticOp::Mul => mul_properties(l, r, facts.mul_finite),
        ArithmeticOp::Div => div_properties(l, r, facts.div_finite),
    }
}

/// Absolute value of a key (the key of the absolute value).
pub open spec fn abs_key(k: int) -> int {
    if k < 0 {
        -k
    } else {
        k
    }
}

/// The greatest absolute value among the present bounds, 0 when none is;
/// taken as `f64::max` does, so a NaN bound gives way to the other.
pub open spec fn max_abs(b: Bounds) -> int {
    let lo = match b.lower {
        Some(l) => abs_key(l as int),
        None => 0,
    };
    let hi = match b.upper {
        Some(u) => abs_key(u as int),
        None => 0,
    };
    if !is_ordered_key(lo) {
        hi
    } else if !is_ordered_key(hi) {
        lo
    } else if lo >= hi {
        lo
    } else {
        hi
    }
}

/// Whether every present bound is the key of some bit pattern (not
/// `i64::MIN`).
pub open spec fn key_bounds(b: Bounds) -> bool {
    &&& (b.lower matches Some(l) ==> l > i64::MIN)
    &&& (b.upper matches Some(u) ==> u > i64::MIN)
}

/// Result bounds of a bounded multiplication, `product` being the key of the
/// product of the operands' greatest absolute bounds.
pub open spec fn mul_result_bounds(l: ConstraintDef, r: ConstraintDef, product: i64) -> (
    Option<i64>,
    Option<i64>,
) {
    if product_sign(l.sign, r.sign) == Sign::Positive {
        (Some(0), Some(product))
    } else if product_sign(l.sign, r.sign) == Sign::Negative {
        (Some((-product) as i64), Some(0))
    } else {
        (Some((-product) as i64), Some(product))
    }
}

/// Holds of constraints with the given sign and zero exclusion.
pub open spec fn props_pred(sign: Sign, excludes_zero: bool) -> spec_fn(ConstraintDef) -> bool {
    |c: ConstraintDef| c.sign == sign && c.excludes_zero == excludes_zero
}

/// Holds of constraints with the given sign.
pub open spec fn sign_pred(sign: Sign) -> spec_fn(ConstraintDef) -> bool {
    |c: ConstraintDef| c.sign == sign
}

/// Which bounds a search looks for.
#[derive(Debug, Clone, Copy, PartialEq, Eq, Structural)]
pub enum BoundsQuery {
    /// No bound at all.
    Unbounded,
    /// Both bounds present.
    Bounded,
    /// Both bounds present and equal to these.
    Exactly(Option<i64>, Option<i64>),
}

/// The predicate a bounds query stands for.
pub open spec fn query_pred(q: BoundsQuery) -> spec_fn(ConstraintDef) -> bool {
    |c: ConstraintDef|
        match q {
            BoundsQuery::Unbounded => unbounded(c.bounds),
            BoundsQuery::Bounded => bounded(c.bounds),
            BoundsQuery::Exactly(lo, hi) => bounded(c.bounds) && same_bound(c.bounds.lower, lo)
                && same_bound(c.bounds.upper, hi),
        }
}

/// The constraints of a list of references.
pub open spec fn deref_all(s: Seq<&ConstraintDef>) -> Seq<ConstraintDef> {
    s.map_values(|c: &ConstraintDef| *c)
}

/// The first unbounded constraint of a nonempty list, else its first one.
pub open spec fn prefer_unbounded(list: Seq<ConstraintDef>) -> Seq<char> {
    match first_name(list, query_pred(BoundsQuery::Unbounded)) {
        Some(n) => n,
        None => list[0].name@,
    }
}

/// The name used when no constraint has the wanted sign: `Fin`.
pub open spec fn fallback_name() -> Seq<char> {
    seq!['F', 'i', 'n']
}

/// Whether both operands are bounded with the same bounds (compared as
/// `Option<f64>`: a NaN bound equals nothing).
pub open spec fn same_bounded_range(l: ConstraintDef, r: ConstraintDef) -> bool {
    bounded(l.bounds) && bounded(r.bounds) && same_bound(l.bounds.lower, r.bounds.lower)
        && same_bound(l.bounds.upper, r.bounds.upper)
}

/// The constraint chosen for a result with the given sign and zero
/// exclusion.
///
/// Among the constraints with exactly these properties, a multiplication of
/// two bounded operands takes the first whose bounds are the computed
/// result bounds, else the first bounded one; otherwise the first unbounded
/// one is taken, else the first. When no constraint has these properties,
/// the constraints with the same sign are searched the same way, operands
/// sharing one bounded range preferring a constraint with that range. When
/// no constraint has the sign either, the result is `Fin`.
pub open spec fn matching_constraint(
    op: ArithmeticOp,
    sign: Sign,
    excludes_zero: bool,
    l: ConstraintDef,
    r: ConstraintDef,
    cs: Seq<ConstraintDef>,
    product: i64,
) -> Seq<char> {
    let matches = cs.filter(props_pred(sign, excludes_zero));
    let sign_matches = cs.filter(sign_pred(sign));
    if matches.len() > 0 {
        if op == ArithmeticOp::Mul && bounded(l.bounds) && bounded(r.bounds) {
            let (lo, hi) = mul_result_bounds(l, r, product);
            match first_name(matches, query_pred(BoundsQuery::Exactly(lo, hi))) {
                Some(n) => n,
                None => match first_name(matches, query_pred(BoundsQuery::Bounded)) {
                    Some(n) => n,
                    None => prefer_unbounded(matches),
                },
            }
        } else {
            prefer_unbounded(matches)
        }
    } else if sign_matches.len() > 0 {
        if same_bounded_range(l, r) {
            match first_name(
                sign_matches,
                query_pred(BoundsQuery::Exactly(l.bounds.lower, l.bounds.upper)),
            ) {
                Some(n) => n,
                None => prefer_unbounded(sign_matches),
            }
        } else {
            prefer_unbounded(sign_matches)
        }
    } else {
        fallback_name()
    }
}

/// (output constraint name, safe) of `l op r` among the constraints `cs`.
pub open spec fn arithmetic_outcome(
    op: ArithmeticOp,
    l: ConstraintDef,
    r: ConstraintDef,
    cs: Seq<ConstraintDef>,
    facts: BoundaryFacts,
) -> (Seq<char>, bool) {
    let (sign, excludes_zero, is_safe) = op_properties(op, l, r, facts);
    (matching_constraint(op, sign, excludes_zero, l, r, cs, facts.abs_bound_product), is_safe)
}

/// Whether a computed result is the outcome of `l op r`.
pub open spec fn is_outcome(
    res: ArithmeticResult,
    op: ArithmeticOp,
    l: ConstraintDef,
    r: ConstraintDef,
    cs: Seq<ConstraintDef>,
    facts: BoundaryFacts,
) -> bool {
    (res.output_type@, res.is_safe) == arithmetic_outcome(op, l, r, cs, facts)
}

fn sign_sum(a: Sign, b: Sign) -> (r: Sign)
    ensures
        r == sum_sign(a, b),
{
    match (a, b) {
        (Sign::Positive, Sign::Positive) => Sign::Positive,
        (Sign::Negative, Sign::Negative) => Sign::Negative,
        _ => Sign::Any,
    }
}

fn sign_product(a: Sign, b: Sign) -> (r: Sign)
    ensures
        r == product_sign(a, b),
{
    match (a, b) {
        (Sign::Positive, Sign::Positive) | (Sign::Negative, Sign::Negative) => Sign::Positive,
        (Sign::Positive, Sign::Negative) | (Sign::Negative, Sign::Positive) => Sign::Negative,
        _ => Sign::Any,
    }
}

/// Compute output properties for addition: safe when the signs differ and
/// all boundary sums are finite; same signs are kept, as is zero exclusion
/// of two same-signed nonzero operands.
pub fn compute_add_properties(lhs: &ConstraintDef, rhs: &ConstraintDef, sums_finite: bool) -> (r:
    (Sign, bool, bool))
    ensures
        r == add_properties(*lhs, *rhs, sums_finite),
{
    let signs_differ = match (lhs.sign, rhs.sign) {
        (Sign::Positive, Sign::Negative) | (Sign::Negative, Sign::Positive) => true,
        _ => false,
    };
    let is_safe = signs_differ && sums_finite;
    let output_sign = sign_sum(lhs.sign, rhs.sign);
    let output_excludes_zero = lhs.excludes_zero && rhs.excludes_zero && lhs.sign == rhs.sign
        && lhs.sign != Sign::Any;
    (output_sign, output_excludes_zero, is_safe)
}

/// Compute output properties for subtraction: safe when both operands have
/// the same definite sign and all boundary differences are finite; the sign
/// rules are those of adding the negated right operand.
pub fn compute_sub_properties(
    lhs: &ConstraintDef,
    rhs: &ConstraintDef,
    differences_finite: bool,
) -> (r: (Sign, bool, bool))
    ensures
        r == sub_properties(*lhs, *rhs, differences_finite),
{
    let signs_same = lhs.sign == rhs.sign && lhs.sign != Sign::Any;
    let is_safe = signs_same && differences_finite;
    let rhs_negated_sign = match rhs.sign {
        Sign::Positive => Sign::Negative,
        Sign::Negative => Sign::Positive,
        Sign::Any => Sign::Any,
    };
    let output_sign = sign_sum(lhs.sign, rhs_negated_sign);
    let output_excludes_zero = lhs.excludes_zero && rhs.excludes_zero && lhs.sign
        == rhs_negated_sign && lhs.sign != Sign::Any;
    (output_sign, output_excludes_zero, is_safe)
}

/// Compute output properties for multiplication: safe when both operands are
/// bounded and all boundary products are finite.
pub fn compute_mul_properties(lhs: &ConstraintDef, rhs: &ConstraintDef, products_finite: bool) -> (r:
    (Sign, bool, bool))
    ensures
        r == mul_properties(*lhs, *rhs, products_finite),
{
    let both_bounded = lhs.bounds.is_bounded() && rhs.bounds.is_bounded();
    let is_safe = both_bounded && products_finite;
    let output_sign = sign_product(lhs.sign, rhs.sign);
    let output_excludes_zero = lhs.excludes_zero && rhs.excludes_zero;
    (output_sign, output_excludes_zero, is_safe)
}

/// Compute output properties for division: safe when the dividend lies in
/// `[-1, 1]`, the divisor excludes zero and all boundary quotients are
/// finite.
pub fn compute_div_properties(lhs: &ConstraintDef, rhs: &ConstraintDef, quotients_finite: bool) -> (r:
    (Sign, bool, bool))
    ensures
        r == div_properties(*lhs, *rhs, quotients_finite),
{
    let lhs_in_unit_range = match (lhs.bounds.lower, lhs.bounds.upper) {
        (Some(lower), Some(upper)) => key_is_ordered(lower) && key_is_ordered(upper) && lower
            >= NEG_ONE_KEY && upper <= ONE_KEY,
        _ => false,
    };
    let is_safe = lhs_in_unit_range && rhs.excludes_zero && quotients_finite;
    let output_sign = sign_product(lhs.sign, rhs.sign);
    let output_excludes_zero = lhs.excludes_zero;
    (output_sign, output_excludes_zero, is_safe)
}

/// The greatest absolute value among the present bounds (as a key), 0 when
/// there is none.
pub fn max_abs_value(bounds: Bounds) -> (r: i64)
    requires
        key_bounds(bounds),
    ensures
        r == max_abs(bounds),
        0 <= r,
{
    let lower_abs: i64 = match bounds.lower {
        Some(v) => if v < 0 {
            -v
        } else {
            v
        },
        None => 0,
    };
    let upper_abs: i64 = match bounds.upper {
        Some(v) => if v < 0 {
            -v
        } else {
            v
        },
        None => 0,
    };
    key_max(lower_abs, upper_abs)
}

/// Compute multiplication result bounds from the operand signs:
/// `[0, p]` for equal signs, `[-p, 0]` for different signs and `[-p, p]`
/// otherwise, `p` being the key of the product of the greatest absolute
/// bounds.
pub fn compute_mul_result_bounds(lhs: &ConstraintDef, rhs: &ConstraintDef, abs_product: i64) -> (r:
    (Option<i64>, Option<i64>))
    requires
        abs_product > i64::MIN,
    ensures
        r == mul_result_bounds(*lhs, *rhs, abs_product),
{
    match (lhs.sign, rhs.sign) {
        (Sign::Positive, Sign::Positive) | (Sign::Negative, Sign::Negative) => (
            Some(0),
            Some(abs_product),
        ),
        (Sign::Positive, Sign::Negative) | (Sign::Negative, Sign::Positive) => (
            Some(-abs_product),
            Some(0),
        ),
        _ => (Some(-abs_product), Some(abs_product)),
    }
}

/// Filter constraints by sign and `excludes_zero` properties.
pub fn filter_constraints_by_properties(
    constraints: &[ConstraintDef],
    sign: Sign,
    excludes_zero: bool,
) -> (r: Vec<&ConstraintDef>)
    ensures
        deref_all(r@) == constraints@.filter(props_pred(sign, excludes_zero)),
{
    let ghost p = props_pred(sign, excludes_zero);
    let mut r: Vec<&ConstraintDef> = Vec::new();
    let mut i: usize = 0;
    while i < constraints.len()
        invariant
            i <= constraints.len(),
            p == props_pred(sign, excludes_zero),
            deref_all(r@) == constraints@.take(i as int).filter(p),
        decreases constraints.len() - i,
    {
        proof {
            constraints@.take(i as int).lemma_filter_push(constraints@[i as int], p);
            assert(constraints@.take(i as int + 1) == constraints@.take(i as int).push(
                constraints@[i as int],
            ));
        }
        if constraints[i].sign == sign && constraints[i].excludes_zero == excludes_zero {
            r.push(&constraints[i]);
        }
        assert(deref_all(r@) =~= constraints@.take(i as int + 1).filter(p));
        i += 1;
    }
    assert(constraints@.take(i as int) == constraints@);
    r
}

/// Filter constraints by sign only.
pub fn filter_constraints_by_sign(constraints: &[ConstraintDef], sign: Sign) -> (r: Vec<
    &ConstraintDef,
>)
    ensures
        deref_all(r@) == constraints@.filter(sign_pred(sign)),
{
    let ghost p = sign_pred(sign);
    let mut r: Vec<&ConstraintDef> = Vec::new();
    let mut i: usize = 0;
    while i < constraints.len()
        invariant
            i <= constraints.len(),
            p == sign_pred(sign),
            deref_all(r@) == constraints@.take(i as int).filter(p),
        decreases constraints.len() - i,
    {
        proof {
            constraints@.take(i as int).lemma_filter_push(constraints@[i as int], p);
            assert(constraints@.take(i as int + 1) == constraints@.take(i as int).push(
                constraints@[i as int],
            ));
        }
        if constraints[i].sign == sign {
            r.push(&constraints[i]);
        }
        assert(deref_all(r@) =~= constraints@.take(i as int + 1).filter(p));
        i += 1;
    }
    assert(constraints@.take(i as int) == constraints@);
    r
}

/// The name of the first constraint of the list that satisfies the query.
fn first_name_where(list: &[&ConstraintDef], q: BoundsQuery) -> (r: Option<String>)
    ensures
        option_view(r) == first_name(deref_all(list@), query_pred(q)),
{
    let ghost cs = deref_all(list@);
    let ghost p = query_pred(q);
    let mut k: usize = 0;
    while k < list.len()
        invariant
            k <= list.len(),
            cs == deref_all(list@),
            p == query_pred(q),
            forall|j: int| 0 <= j < k ==> !p(#[trigger] cs[j]),
        decreases list.len() - k,
    {
        let c = list[k];
        let hit = match q {
            BoundsQuery::Unbounded => c.bounds.lower.is_none() && c.bounds.upper.is_none(),
            BoundsQuery::Bounded => c.bounds.is_bounded(),
            BoundsQuery::Exactly(lo, hi) => c.bounds.is_bounded() && bounds_equal(
                c.bounds.lower,
                lo,
            ) && bounds_equal(c.bounds.upper, hi),
        };
        assert(cs[k as int] == *c);
        if hit {
            proof {
                lemma_first_index(cs, p, k as int);
            }
            return Some(c.name.clone());
        }
        k += 1;
    }
    proof {
        lemma_first_index(cs, p, k as int);
    }
    None
}

fn prefer_unbounded_name(list: &[&ConstraintDef]) -> (r: String)
    requires
        list.len() > 0,
    ensures
        r@ == prefer_unbounded(deref_all(list@)),
{
    match first_name_where(list, BoundsQuery::Unbounded) {
        Some(n) => n,
        None => list[0].name.clone(),
    }
}

/// Find the best matching constraint type for given output properties
/// (see `matching_constraint`).
pub fn find_matching_constraint(
    op: ArithmeticOp,
    sign: Sign,
    excludes_zero: bool,
    lhs: &ConstraintDef,
    rhs: &ConstraintDef,
    constraints: &[ConstraintDef],
    abs_product: i64,
) -> (r: String)
    requires
        abs_product > i64::MIN,
    ensures
        r@ == matching_constraint(op, sign, excludes_zero, *lhs, *rhs, constraints@, abs_product),
{
    let operands_have_same_bounds = lhs.bounds.is_bounded() && rhs.bounds.is_bounded()
        && bounds_equal(lhs.bounds.lower, rhs.bounds.lower) && bounds_equal(
        lhs.bounds.upper,
        rhs.bounds.upper,
    );
    let matches = filter_constraints_by_properties(constraints, sign, excludes_zero);
    if matches.len() > 0 {
        if op == ArithmeticOp::Mul && lhs.bounds.is_bounded() && rhs.bounds.is_bounded() {
            let (result_lower, result_upper) = compute_mul_result_bounds(lhs, rhs, abs_product);
            if let Some(n) = first_name_where(
                &matches,
                BoundsQuery::Exactly(result_lower, result_upper),
            ) {
                return n;
            }
            if let Some(n) = first_name_where(&matches, BoundsQuery::Bounded) {
                return n;
            }
        }
        return prefer_unbounded_name(&matches);
    }
    let sign_matches = filter_constraints_by_sign(constraints, sign);
    if sign_matches.len() > 0 {
        if operands_have_same_bounds {
            if let Some(n) = first_name_where(
                &sign_matches,
                BoundsQuery::Exactly(lhs.bounds.lower, lhs.bounds.upper),
            ) {
                return n;
            }
        }
        return prefer_unbounded_name(&sign_matches);
    }
    crate::text::string_of(&['F', 'i', 'n'])
}

/// Compute the result type and safety for a single arithmetic operation.
pub fn compute_arithmetic_result(
    op: ArithmeticOp,
    lhs: &ConstraintDef,
    rhs: &ConstraintDef,
    all_constraints: &[ConstraintDef],
    facts: &BoundaryFacts,
) -> (r: ArithmeticResult)
    requires
        facts_ok(*facts),
    ensures
        is_outcome(r, op, *lhs, *rhs, all_constraints@, *facts),
{
    let (output_sign, output_excludes_zero, is_safe) = match op {
        ArithmeticOp::Add => compute_add_properties(lhs, rhs, facts.add_finite),
        ArithmeticOp::Sub => compute_sub_properties(lhs, rhs, facts.sub_finite),
        ArithmeticOp::Mul => compute_mul_properties(lhs, rhs, facts.mul_finite),
        ArithmeticOp::Div => compute_div_properties(lhs, rhs, facts.div_finite),
    };
    let output_type = find_matching_constraint(
        op,
        output_sign,
        output_excludes_zero,
        lhs,
        rhs,
        all_constraints,
        facts.abs_bound_product,
    );
    ArithmeticResult { output_type, is_safe }
}

/// Whether `results` is the full table of outcomes for the constraints `cs`,
/// `facts[i * n + j]` being the boundary facts of constraints `i` and `j`.
pub open spec fn results_table(
    results: Seq<ArithmeticResult>,
    cs: Seq<ConstraintDef>,
    facts: Seq<BoundaryFacts>,
) -> bool {
    let n = cs.len() as int;
    &&& results.len() == 4 * n * n
    &&& forall|op: ArithmeticOp, i: int, j: int|
        0 <= i < n && 0 <= j < n ==> is_outcome(
            #[trigger] results[result_index(n, op, i, j)],
            op,
            cs[i],
            cs[j],
            cs,
            facts[i * n + j],
        )
}

proof fn lemma_table_position(n: int, i: int, j: int, o: int)
    requires
        0 <= i < n,
        0 <= j < n,
        0 <= o < 4,
    ensures
        0 <= i * n + j < n * n,
        (i * n + j) * 4 + o < 4 * n * n,
        (i * n + j + 1) * 4 == (i * n + j) * 4 + 4,
        (i * n + n) == (i + 1) * n,
{
    assert(i * n + j < n * n) by (nonlinear_arith)
        requires
            0 <= i < n,
            0 <= j < n,
    ;
    assert(0 <= i * n) by (nonlinear_arith)
        requires
            0 <= i,
            0 <= n,
    ;
    assert((i * n + j) * 4 + o < 4 * n * n) by (nonlinear_arith)
        requires
            i * n + j < n * n,
            0 <= o < 4,
    ;
    assert((i * n + n) == (i + 1) * n) by (nonlinear_arith);
}

/// Compute arithmetic results for all constraint combinations: for every
/// left constraint `i`, right constraint `j` and operator, in this order.
pub fn compute_all_arithmetic_results(
    constraints: &[ConstraintDef],
    facts: &[BoundaryFacts],
) -> (r: Vec<ArithmeticResult>)
    requires
        facts.len() == constraints.len() * constraints.len(),
        forall|k: int| 0 <= k < facts.len() ==> facts_ok(#[trigger] facts@[k]),
    ensures
        results_table(r@, constraints@, facts@),
{
    let n = constraints.len();
    let ghost cs = constraints@;
    let mut results: Vec<ArithmeticResult> = Vec::new();
    let mut i: usize = 0;
    while i < n
        invariant
            n == constraints.len(),
            cs == constraints@,
            facts.len() == n * n,
            forall|k: int| 0 <= k < facts.len() ==> facts_ok(#[trigger] facts@[k]),
            i <= n,
            results@.len() == 4 * (i * n),
            forall|op: ArithmeticOp, a: int, b: int|
                0 <= a < i && 0 <= b < n ==> is_outcome(
                    #[trigger] results@[result_index(n as int, op, a, b)],
                    op,
                    cs[a],
                    cs[b],
                    cs,
                    facts@[a * n + b],
                ),
        decreases n - i,
    {
        let mut j: usize = 0;
        while j < n
            invariant
                n == constraints.len(),
                cs == constraints@,
                facts.len() == n * n,
                forall|k: int| 0 <= k < facts.len() ==> facts_ok(#[trigger] facts@[k]),
                i < n,
                j <= n,
                results@.len() == 4 * (i * n + j),
                forall|op: ArithmeticOp, a: int, b: int|
                    (0 <= a < i && 0 <= b < n) || (a == i && 0 <= b < j) ==> is_outcome(
                        #[trigger] results@[result_index(n as int, op, a, b)],
                        op,
                        cs[a],
                        cs[b],
                        cs,
                        facts@[a * n + b],
                    ),
            decreases n - j,
        {
            proof {
                lemma_table_position(n as int, i as int, j as int, 0);
            }
            let f = &facts[i * n + j];
            let ghost base = results@.len();
            results.push(
                compute_arithmetic_result(ArithmeticOp::Add, &constraints[i], &constraints[j], constraints, f),
            );
            results.push(
                compute_arithmetic_result(ArithmeticOp::Sub, &constraints[i], &constraints[j], constraints, f),
            );
            results.push(
                compute_arithmetic_result(ArithmeticOp::Mul, &constraints[i], &constraints[j], constraints, f),
            );
            results.push(
                compute_arithmetic_result(ArithmeticOp::Div, &constraints[i], &constraints[j], constraints, f),
            );
            proof {
                assert forall|op: ArithmeticOp, a: int, b: int|
                    (0 <= a < i && 0 <= b < n) || (a == i && 0 <= b < j + 1) implies is_outcome(
                    #[trigger] results@[result_index(n as int, op, a, b)],
                    op,
                    cs[a],
                    cs[b],
                    cs,
                    facts@[a * n + b],
                ) by {
                    if a == i && b == j {
                        assert(result_index(n as int, op, a, b) == base + op_index(op));
                    } else {
                        lemma_index_before(n as int, i as int, j as int, a, b, op);
                    }
                }
            }
            j += 1;
        }
        proof {
            lemma_table_position(n as int, i as int, 0, 0);
        }
        i += 1;
    }
    proof {
        assert(4 * (n * n) == 4 * n * n) by (nonlinear_arith);
    }
    results
}

proof fn lemma_index_before(n: int, i: int, j: int, a: int, b: int, op: ArithmeticOp)
    requires
        0 <= i < n,
        0 <= j < n,
        0 <= b < n,
        (0 <= a < i) || (a == i && b < j),
    ensures
        0 <= result_index(n, op, a, b) < 4 * (i * n + j),
{
    if a < i {
        assert((a + 1) * n <= i * n) by (nonlinear_arith)
            requires
                a + 1 <= i,
                0 <= n,
        ;
        assert((a + 1) * n == a * n + n) by (nonlinear_arith);
    }
    assert(0 <= a * n) by (nonlinear_arith)
        requires
            0 <= a,
            0 <= n,
    ;
}

/// The last position of a constraint with the given name.
#[verifier::opaque]
pub open spec fn last_index_of(cs: Seq<ConstraintDef>, name: Seq<char>) -> Option<int> {
    if exists|k: int| 0 <= k < cs.len() && #[trigger] cs[k].name@ == name {
        Some(
            choose|k: int|
                0 <= k < cs.len() && #[trigger] cs[k].name@ == name && forall|m: int|
                    k < m < cs.len() ==> #[trigger] cs[m].name@ != name,
        )
    } else {
        None
    }
}

/// The last constraint with a name is found as the last one.
proof fn lemma_last_index_of(cs: Seq<ConstraintDef>, i: int)
    requires
        0 <= i < cs.len(),
        forall|m: int| i < m < cs.len() ==> #[trigger] cs[m].name@ != cs[i].name@,
    ensures
        last_index_of(cs, cs[i].name@) == Some(i),
{
    reveal(last_index_of);
    let name = cs[i].name@;
    assert(cs[i].name@ == name);
    let k = choose|k: int|
        0 <= k < cs.len() && #[trigger] cs[k].name@ == name && forall|m: int|
            k < m < cs.len() ==> #[trigger] cs[m].name@ != name;
    if k < i {
        assert(cs[i].name@ != name);
    }
    if k > i {
        assert(cs[k].name@ != name);
    }
}

/// A table of results answers each pair of constraints with their computed
/// outcome: looking up the names of the last constraints with those names
/// gives the result stored for that pair, and it is the outcome of the
/// operation on them with their boundary facts.
pub proof fn law_lookup_gives_outcome(
    cs: Seq<ConstraintDef>,
    results: Seq<ArithmeticResult>,
    facts: Seq<BoundaryFacts>,
    op: ArithmeticOp,
    i: int,
    j: int,
)
    requires
        results_table(results, cs, facts),
        0 <= i < cs.len(),
        0 <= j < cs.len(),
        forall|m: int| i < m < cs.len() ==> #[trigger] cs[m].name@ != cs[i].name@,
        forall|m: int| j < m < cs.len() ==> #[trigger] cs[m].name@ != cs[j].name@,
    ensures
        last_index_of(cs, cs[i].name@) == Some(i),
        last_index_of(cs, cs[j].name@) == Some(j),
        is_outcome(
            results[result_index(cs.len() as int, op, i, j)],
            op,
            cs[i],
            cs[j],
            cs,
            facts[i * cs.len() + j],
        ),
{
    lemma_last_index_of(cs, i);
    lemma_last_index_of(cs, j);
}

fn last_index(cs: &[ConstraintDef], name: &str) -> (r: Option<usize>)
    ensures
        match r {
            Some(k) => k < cs.len() && cs@[k as int].name@ == name@ && forall|m: int|
                k < m < cs.len() ==> #[trigger] cs@[m].name@ != name@,
            None => forall|m: int| 0 <= m < cs.len() ==> #[trigger] cs@[m].name@ != name@,
        },
{
    let mut k: usize = cs.len();
    while k > 0
        invariant
            k <= cs.len(),
            forall|m: int| k <= m < cs.len() ==> #[trigger] cs@[m].name@ != name@,
        decreases k,
    {
        if crate::text::str_eq(cs[k - 1].name.as_str(), name) {
            return Some(k - 1);
        }
        k -= 1;
    }
    None
}

impl TypeConfig {
    /// The stored result for `op` with a left operand named `lhs` and a
    /// right operand named `rhs`. Where names repeat, the last constraint
    /// of each name counts.
    pub fn get_arithmetic_result(&self, op: ArithmeticOp, lhs: &str, rhs: &str) -> (r: Option<
        &ArithmeticResult,
    >)
        requires
            self.wf(),
        ensures
            match (last_index_of(self.constraints@, lhs@), last_index_of(self.constraints@, rhs@)) {
                (Some(i), Some(j)) => r == Some(
                    &self.arithmetic_results@[result_index(
                        self.constraints@.len() as int,
                        op,
                        i,
                        j,
                    )],
                ),
                _ => r is None,
            },
    {
        proof {
            self.lemma_wf();
            reveal(last_index_of);
        }
        let n = self.constraints.len();
        let total = self.arithmetic_results.len();
        let li = last_index(&self.constraints, lhs);
        let ri = last_index(&self.constraints, rhs);
        match (li, ri) {
            (Some(i), Some(j)) => {
                proof {
                    lemma_table_position(n as int, i as int, j as int, op_index(op));
                    assert(n * n <= n * n);
                }
                let o: usize = match op {
                    ArithmeticOp::Add => 0,
                    ArithmeticOp::Sub => 1,
                    ArithmeticOp::Mul => 2,
                    ArithmeticOp::Div => 3,
                };
                proof {
                    assert(4 * n * n == 4 * (n * n)) by (nonlinear_arith);
                    assert(0 <= i * n) by (nonlinear_arith)
                        requires
                            0 <= i,
                            0 <= n,
                    ;
                    assert(self.arithmetic_results@.len() == 4 * n * n);
                    assert((i * n + j) * 4 + o < 4 * n * n);
                    assert(total == 4 * n * n);
                    assert(i * n + j < n * n);
                    assert(i * n + j <= total);
                    assert((i * n + j) * 4 <= total);
                }
                Some(&self.arithmetic_results[(i * n + j) * 4 + o])
            },
            _ => None,
        }
    }
}

// ---------------------------------------------------------------------------
// Laws
// ---------------------------------------------------------------------------

proof fn lemma_first_name_member(list: Seq<ConstraintDef>, p: spec_fn(ConstraintDef) -> bool)
    ensures
        first_name(list, p) matches Some(n) ==> exists|k: int|
            0 <= k < list.len() && #[trigger] list[k].name@ == n && p(list[k]),
{
    crate::config_types::lemma_first_index_found(list, p);
    if let Some(k) = first_index(list, p) {
        assert(list[k].name@ == first_name(list, p)->0);
    }
}

proof fn lemma_prefer_unbounded_member(list: Seq<ConstraintDef>)
    requires
        list.len() > 0,
    ensures
        exists|k: int| 0 <= k < list.len() && #[trigger] list[k].name@ == prefer_unbounded(list),
{
    lemma_first_name_member(list, query_pred(BoundsQuery::Unbounded));
    if first_name(list, query_pred(BoundsQuery::Unbounded)) is None {
        assert(list[0].name@ == prefer_unbounded(list));
    }
}

/// Every element of a filtered list satisfies the filter and is an element
/// of the unfiltered list.
proof fn lemma_filtered_member(cs: Seq<ConstraintDef>, q: spec_fn(ConstraintDef) -> bool, k: int)
    requires
        0 <= k < cs.filter(q).len(),
    ensures
        q(cs.filter(q)[k]),
        exists|m: int| 0 <= m < cs.len() && #[trigger] cs[m] == cs.filter(q)[k],
{
    cs.lemma_filter_pred(q, k);
    assert(cs.filter(q).contains(cs.filter(q)[k]));
    cs.lemma_filter_contains_rev(q, cs.filter(q)[k]);
}

/// A nonempty filter exactly when some element passes.
proof fn lemma_filter_nonempty(cs: Seq<ConstraintDef>, q: spec_fn(ConstraintDef) -> bool)
    ensures
        cs.filter(q).len() > 0 <==> exists|m: int| 0 <= m < cs.len() && q(#[trigger] cs[m]),
{
    if exists|m: int| 0 <= m < cs.len() && q(#[trigger] cs[m]) {
        let m = choose|m: int| 0 <= m < cs.len() && q(#[trigger] cs[m]);
        cs.lemma_filter_contains(q, m);
    }
    if cs.filter(q).len() > 0 {
        lemma_filtered_member(cs, q, 0);
        let m = choose|m: int| 0 <= m < cs.len() && #[trigger] cs[m] == cs.filter(q)[0];
        assert(q(cs[m]));
    }
}

/// Whether some constraint of the list has the given properties.
pub open spec fn has_properties(cs: Seq<ConstraintDef>, sign: Sign, excludes_zero: bool) -> bool {
    exists|k: int| 0 <= k < cs.len() && #[trigger] props_pred(sign, excludes_zero)(cs[k])
}

/// Whether some constraint of the list has the given sign.
pub open spec fn has_sign(cs: Seq<ConstraintDef>, sign: Sign) -> bool {
    exists|k: int| 0 <= k < cs.len() && #[trigger] sign_pred(sign)(cs[k])
}

/// The type inferred for a result has the sign the rules give it, and its
/// zero exclusion too when some constraint has both; only when no
/// constraint has that sign is the result `Fin`.
pub proof fn law_result_type_has_inferred_properties(
    op: ArithmeticOp,
    l: ConstraintDef,
    r: ConstraintDef,
    cs: Seq<ConstraintDef>,
    facts: BoundaryFacts,
)
    ensures
        ({
            let (sign, excludes_zero, _) = op_properties(op, l, r, facts);
            let name = arithmetic_outcome(op, l, r, cs, facts).0;
            &&& has_properties(cs, sign, excludes_zero) ==> exists|k: int|
                0 <= k < cs.len() && #[trigger] cs[k].name@ == name && cs[k].sign == sign
                    && cs[k].excludes_zero == excludes_zero
            &&& has_sign(cs, sign) ==> exists|k: int|
                0 <= k < cs.len() && #[trigger] cs[k].name@ == name && cs[k].sign == sign
            &&& !has_sign(cs, sign) ==> name == fallback_name()
        }),
{
    let (sign, excludes_zero, _) = op_properties(op, l, r, facts);
    let name = arithmetic_outcome(op, l, r, cs, facts).0;
    let mp = props_pred(sign, excludes_zero);
    let sp = sign_pred(sign);
    let matches = cs.filter(mp);
    let sign_matches = cs.filter(sp);
    lemma_filter_nonempty(cs, mp);
    lemma_filter_nonempty(cs, sp);
    if matches.len() > 0 {
        // the name is that of an element of `matches`
        assert(exists|k: int| 0 <= k < matches.len() && #[trigger] matches[k].name@ == name) by {
            if op == ArithmeticOp::Mul && bounded(l.bounds) && bounded(r.bounds) {
                let (lo, hi) = mul_result_bounds(l, r, facts.abs_bound_product);
                lemma_first_name_member(matches, query_pred(BoundsQuery::Exactly(lo, hi)));
                lemma_first_name_member(matches, query_pred(BoundsQuery::Bounded));
            }
            lemma_prefer_unbounded_member(matches);
        }
        let k = choose|k: int| 0 <= k < matches.len() && #[trigger] matches[k].name@ == name;
        lemma_filtered_member(cs, mp, k);
        let m = choose|m: int| 0 <= m < cs.len() && #[trigger] cs[m] == matches[k];
        assert(cs[m].name@ == name);
        assert(has_properties(cs, sign, excludes_zero) ==> cs[m].sign == sign
            && cs[m].excludes_zero == excludes_zero);
        assert(cs[m].sign == sign);
    } else if sign_matches.len() > 0 {
        assert(exists|k: int| 0 <= k < sign_matches.len() && #[trigger] sign_matches[k].name@ == name)
            by {
            if same_bounded_range(l, r) {
                lemma_first_name_member(
                    sign_matches,
                    query_pred(BoundsQuery::Exactly(l.bounds.lower, l.bounds.upper)),
                );
            }
            lemma_prefer_unbounded_member(sign_matches);
        }
        let k = choose|k: int| 0 <= k < sign_matches.len() && #[trigger] sign_matches[k].name@ == name;
        lemma_filtered_member(cs, sp, k);
        let m = choose|m: int| 0 <= m < cs.len() && #[trigger] cs[m] == sign_matches[k];
        assert(cs[m].name@ == name && cs[m].sign == sign);
    }
}

/// Whether a constraint's sign is borne out by its bounds: a Positive one
/// has a lower bound that is a number at least zero, a Negative one an
/// upper bound that is a number at most zero (as every built constraint
/// has, see `law_sign_implies_bound`).
pub open spec fn sign_matches_bounds(c: ConstraintDef) -> bool {
    &&& c.sign == Sign::Positive ==> (c.bounds.lower is Some && is_ordered_key(
        c.bounds.lower->0 as int,
    ) && c.bounds.lower->0 >= 0)
    &&& c.sign == Sign::Negative ==> (c.bounds.upper is Some && is_ordered_key(
        c.bounds.upper->0 as int,
    ) && c.bounds.upper->0 <= 0)
}

/// What a result sign says of `x op y` for operand values with keys `x` and
/// `y` (keys have the signs of their values): Positive that the result is
/// at least zero, Negative that it is at most zero. A sum is at least zero
/// when both terms are, a difference when the first is and the second is
/// not above zero, a product or quotient when `x * y` is.
pub open spec fn sign_claim_holds(op: ArithmeticOp, s: Sign, x: int, y: int) -> bool {
    match s {
        Sign::Positive => match op {
            ArithmeticOp::Add => x >= 0 && y >= 0,
            ArithmeticOp::Sub => x >= 0 && y <= 0,
            ArithmeticOp::Mul => x * y >= 0,
            ArithmeticOp::Div => x * y >= 0,
        },
        Sign::Negative => match op {
            ArithmeticOp::Add => x <= 0 && y <= 0,
            ArithmeticOp::Sub => x <= 0 && y >= 0,
            ArithmeticOp::Mul => x * y <= 0,
            ArithmeticOp::Div => x * y <= 0,
        },
        Sign::Any => true,
    }
}

/// What zero exclusion of a result says of `x op y`: a sum of two terms of
/// one strict sign, a difference of terms of opposite strict signs, a
/// product of nonzero factors and a quotient of a nonzero dividend are not
/// zero.
pub open spec fn nonzero_claim_holds(op: ArithmeticOp, excludes_zero: bool, x: int, y: int) -> bool {
    excludes_zero ==> match op {
        ArithmeticOp::Add => (x > 0 && y > 0) || (x < 0 && y < 0),
        ArithmeticOp::Sub => (x > 0 && y < 0) || (x < 0 && y > 0),
        ArithmeticOp::Mul => x != 0 && y != 0,
        ArithmeticOp::Div => x != 0,
    }
}

/// The inferred sign and zero exclusion of a result hold of every result:
/// for any value `x` of the left operand's type and `y` of the right one's
/// (`y` not zero for a division), `x op y` has the inferred sign and is
/// nonzero when zero exclusion is inferred. So a nonnegative over a
/// nonpositive divisor is never claimed Positive, and so on.
pub proof fn law_result_properties_hold_for_values(
    op: ArithmeticOp,
    l: ConstraintDef,
    r: ConstraintDef,
    facts: BoundaryFacts,
    x: int,
    y: int,
)
    requires
        sign_matches_bounds(l),
        sign_matches_bounds(r),
        crate::constants::value_satisfies(x, l),
        crate::constants::value_satisfies(y, r),
        op == ArithmeticOp::Div ==> y != 0,
    ensures
        sign_claim_holds(op, op_properties(op, l, r, facts).0, x, y),
        nonzero_claim_holds(op, op_properties(op, l, r, facts).1, x, y),
{
    if l.sign == Sign::Positive {
        assert(x >= 0);
    }
    if l.sign == Sign::Negative {
        assert(x <= 0);
    }
    if r.sign == Sign::Positive {
        assert(y >= 0);
    }
    if r.sign == Sign::Negative {
        assert(y <= 0);
    }
    if op == ArithmeticOp::Mul || op == ArithmeticOp::Div {
        if (x >= 0 && y >= 0) || (x <= 0 && y <= 0) {
            assert(x * y >= 0) by (nonlinear_arith)
                requires
                    (x >= 0 && y >= 0) || (x <= 0 && y <= 0),
            ;
        }
        if (x >= 0 && y <= 0) || (x <= 0 && y >= 0) {
            assert(x * y <= 0) by (nonlinear_arith)
                requires
                    (x >= 0 && y <= 0) || (x <= 0 && y >= 0),
            ;
        }
    }
}

/// The inferred sign and zero exclusion are as precise as the operands'
/// signs allow: a sum of two terms of one sign keeps it, a difference of
/// terms of opposite signs has the sign of the first, a product or
/// quotient of two signed operands is signed; a product of nonzero factors,
/// a quotient of a nonzero dividend, a sum of nonzero terms of one sign and
/// a difference of nonzero terms of opposite signs are nonzero.
pub proof fn law_result_properties_are_decided(
    op: ArithmeticOp,
    l: ConstraintDef,
    r: ConstraintDef,
    facts: BoundaryFacts,
)
    ensures
        op == ArithmeticOp::Add && l.sign == r.sign ==> op_properties(op, l, r, facts).0 == l.sign,
        op == ArithmeticOp::Sub && l.sign != Sign::Any && r.sign != Sign::Any && l.sign != r.sign
            ==> op_properties(op, l, r, facts).0 == l.sign,
        (op == ArithmeticOp::Mul || op == ArithmeticOp::Div) && l.sign != Sign::Any && r.sign
            != Sign::Any ==> op_properties(op, l, r, facts).0 != Sign::Any,
        op == ArithmeticOp::Add && l.sign == r.sign && l.sign != Sign::Any && l.excludes_zero
            && r.excludes_zero ==> op_properties(op, l, r, facts).1,
        op == ArithmeticOp::Sub && l.sign != Sign::Any && r.sign != Sign::Any && l.sign != r.sign
            && l.excludes_zero && r.excludes_zero ==> op_properties(op, l, r, facts).1,
        op == ArithmeticOp::Mul && l.excludes_zero && r.excludes_zero ==> op_properties(
            op,
            l,
            r,
            facts,
        ).1,
        op == ArithmeticOp::Div && l.excludes_zero ==> op_properties(op, l, r, facts).1,
{
}

/// Addition commutes: swapping the operands changes neither the result type
/// nor safety, given that boundary sums are equally finite both ways.
pub proof fn law_addition_commutes(
    l: ConstraintDef,
    r: ConstraintDef,
    cs: Seq<ConstraintDef>,
    lr: BoundaryFacts,
    rl: BoundaryFacts,
)
    requires
        lr.add_finite == rl.add_finite,
    ensures
        arithmetic_outcome(ArithmeticOp::Add, l, r, cs, lr) == arithmetic_outcome(
            ArithmeticOp::Add,
            r,
            l,
            cs,
            rl,
        ),
{
    assert(add_properties(l, r, lr.add_finite) == add_properties(r, l, rl.add_finite));
    assert(same_bounded_range(l, r) ==> l.bounds == r.bounds);
}

/// Multiplication commutes: swapping the operands changes neither the
/// result type nor safety, given that boundary products are equally finite
/// both ways and the product of the greatest absolute bounds is the same.
pub proof fn law_multiplication_commutes(
    l: ConstraintDef,
    r: ConstraintDef,
    cs: Seq<ConstraintDef>,
    lr: BoundaryFacts,
    rl: BoundaryFacts,
)
    requires
        lr.mul_finite == rl.mul_finite,
        lr.abs_bound_product == rl.abs_bound_product,
    ensures
        arithmetic_outcome(ArithmeticOp::Mul, l, r, cs, lr) == arithmetic_outcome(
            ArithmeticOp::Mul,
            r,
            l,
            cs,
            rl,
        ),
{
    assert(mul_properties(l, r, lr.mul_finite) == mul_properties(r, l, rl.mul_finite));
    assert(mul_result_bounds(l, r, lr.abs_bound_product) == mul_result_bounds(
        r,
        l,
        rl.abs_bound_product,
    ));
    assert(same_bounded_range(l, r) ==> l.bounds == r.bounds);
}

/// Only same-signed subtraction and differently-signed addition can be safe;
/// multiplication needs two bounded operands and division a dividend in
/// `[-1, 1]` and a divisor that excludes zero.
pub proof fn law_safety_conditions(
    op: ArithmeticOp,
    l: ConstraintDef,
    r: ConstraintDef,
    cs: Seq<ConstraintDef>,
    facts: BoundaryFacts,
)
    ensures
        arithmetic_outcome(op, l, r, cs, facts).1 ==> match op {
            ArithmeticOp::Add => signs_differ(l.sign, r.sign) && facts.add_finite,
            ArithmeticOp::Sub => l.sign == r.sign && l.sign != Sign::Any && facts.sub_finite,
            ArithmeticOp::Mul => bounded(l.bounds) && bounded(r.bounds) && facts.mul_finite,
            ArithmeticOp::Div => in_unit_range(l.bounds) && r.excludes_zero && facts.div_finite,
        },
{
}

} // verus!
