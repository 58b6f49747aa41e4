//! Building the configuration from constraint definitions.
//!
//! A constraint is given by a name and a list of conditions. Its sign,
//! bounds and zero exclusion are read off the conditions; its negation is
//! the first constraint whose conditions are the negated ones.

use vstd::prelude::*;

use crate::conditions::{
    condition_comparison, conditions_match, negate_conditions, negated_all, normalize_condition,
    normalized, same_conditions, split_condition, views_of, Comparison,
};
use crate::config_types::{
    bounded, first_index, first_name, has_constraint, lemma_first_index, lemma_first_index_found,
    ArithmeticResult, Bounds, ConstraintDef, Sign, TypeAliasDef, TypeConfig,
    TypeDef,
};
use crate::float_key::{is_ordered_key, key_is_ordered, key_max, key_min, max_key, min_key, same_bound, bounds_equal};
use crate::text::{chars_of, str_eq};

verus! {

/// What the conditions seen so far say about a constraint.
#[derive(Debug, Clone, Copy, PartialEq, Eq, Structural)]
pub struct PropertyScan {
    /// Greatest lower bound seen (key).
    pub lower: Option<i64>,
    /// Least upper bound seen (key).
    pub upper: Option<i64>,
    /// Whether zero is excluded.
    pub excludes_zero: bool,
    /// Whether a condition keeps values at or above a nonnegative bound.
    pub positive: bool,
    /// Whether a condition keeps values at or below a nonpositive bound.
    pub negative: bool,
}

/// Nothing seen yet.
pub open spec fn initial_scan() -> PropertyScan {
    PropertyScan { lower: None, upper: None, excludes_zero: false, positive: false, negative: false }
}

/// A lower bound raised to `v` if `v` is greater (`f64::max`: a NaN side
/// gives way to the other).
pub open spec fn raised(l: Option<i64>, v: i64) -> Option<i64> {
    match l {
        None => Some(v),
        Some(x) => Some(max_key(x, v)),
    }
}

/// An upper bound lowered to `v` if `v` is smaller (`f64::min`: a NaN side
/// gives way to the other).
pub open spec fn lowered(u: Option<i64>, v: i64) -> Option<i64> {
    match u {
        None => Some(v),
        Some(x) => Some(min_key(x, v)),
    }
}

/// Whether a key is that of a value that is not NaN and at least zero.
pub open spec fn nonnegative(v: i64) -> bool {
    is_ordered_key(v as int) && v >= 0
}

/// Whether a key is that of a value that is not NaN and at most zero.
pub open spec fn nonpositive(v: i64) -> bool {
    is_ordered_key(v as int) && v <= 0
}

/// The effect of one condition with operator `op` and operand key `v`.
pub open spec fn scan_step(s: PropertyScan, op: Option<Comparison>, v: i64) -> PropertyScan {
    match op {
        Some(Comparison::Ge) => PropertyScan {
            lower: raised(s.lower, v),
            upper: s.upper,
            excludes_zero: s.excludes_zero,
            positive: s.positive || nonnegative(v),
            negative: s.negative,
        },
        Some(Comparison::Le) => PropertyScan {
            lower: s.lower,
            upper: lowered(s.upper, v),
            excludes_zero: s.excludes_zero,
            positive: s.positive,
            negative: s.negative || nonpositive(v),
        },
        Some(Comparison::Gt) => PropertyScan {
            lower: raised(s.lower, v),
            upper: s.upper,
            excludes_zero: s.excludes_zero || nonnegative(v),
            positive: s.positive || nonnegative(v),
            negative: s.negative,
        },
        Some(Comparison::Lt) => PropertyScan {
            lower: s.lower,
            upper: lowered(s.upper, v),
            excludes_zero: s.excludes_zero || nonpositive(v),
            positive: s.positive,
            negative: s.negative || nonpositive(v),
        },
        Some(Comparison::Ne) => PropertyScan {
            lower: s.lower,
            upper: s.upper,
            excludes_zero: s.excludes_zero || v == 0,
            positive: s.positive,
            negative: s.negative,
        },
        None => s,
    }
}

/// The operator of a condition, if it has a known one.
pub open spec fn condition_op(c: Seq<char>) -> Option<Comparison> {
    match split_condition(c) {
        Some((op, _)) => Some(op),
        None => None,
    }
}

/// The scan of the first `n` conditions.
pub open spec fn scan_prefix(conds: Seq<Seq<char>>, values: Seq<i64>, n: int) -> PropertyScan
    decreases n,
{
    if n <= 0 {
        initial_scan()
    } else {
        scan_step(scan_prefix(conds, values, n - 1), condition_op(conds[n - 1]), values[n - 1])
    }
}

/// Positive when only nonnegative-side conditions occur, Negative when only
/// nonpositive-side ones occur, Any otherwise.
pub open spec fn sign_of(positive: bool, negative: bool) -> Sign {
    if positive && !negative {
        Sign::Positive
    } else if negative && !positive {
        Sign::Negative
    } else {
        Sign::Any
    }
}

/// Sign, bounds and zero exclusion of a constraint with these conditions,
/// `values[k]` being the key of the operand of `conds[k]`.
pub open spec fn type_properties(conds: Seq<Seq<char>>, values: Seq<i64>) -> (Sign, Bounds, bool) {
    let s = scan_prefix(conds, values, conds.len() as int);
    (sign_of(s.positive, s.negative), Bounds { lower: s.lower, upper: s.upper }, s.excludes_zero)
}

proof fn lemma_scan_sign_bounds(conds: Seq<Seq<char>>, values: Seq<i64>, n: int)
    requires
        0 <= n <= values.len(),
    ensures
        scan_prefix(conds, values, n).positive ==> (scan_prefix(conds, values, n).lower matches Some(
            l,
        ) && nonnegative(l)),
        scan_prefix(conds, values, n).negative ==> (scan_prefix(conds, values, n).upper matches Some(
            u,
        ) && nonpositive(u)),
    decreases n,
{
    if n > 0 {
        lemma_scan_sign_bounds(conds, values, n - 1);
    }
}

/// Whether a condition gives a lower bound (`>=` or `>`).
pub open spec fn is_lower_condition(c: Seq<char>) -> bool {
    condition_op(c) == Some(Comparison::Ge) || condition_op(c) == Some(Comparison::Gt)
}

/// Whether a condition gives an upper bound (`<=` or `<`).
pub open spec fn is_upper_condition(c: Seq<char>) -> bool {
    condition_op(c) == Some(Comparison::Le) || condition_op(c) == Some(Comparison::Lt)
}

/// What the lower bound of the first `n` conditions is, stated directly:
/// missing exactly when no condition gives one; otherwise the greatest
/// operand among those that are numbers, and NaN only when every operand
/// giving a lower bound is NaN.
pub open spec fn lower_is_greatest(conds: Seq<Seq<char>>, values: Seq<i64>, n: int, lower: Option<i64>) -> bool {
    &&& (lower is None <==> forall|k: int| 0 <= k < n ==> !is_lower_condition(#[trigger] conds[k]))
    &&& (exists|k: int|
        0 <= k < n && is_lower_condition(#[trigger] conds[k]) && is_ordered_key(values[k] as int))
        ==> (lower matches Some(l) && is_ordered_key(l as int) && (exists|k: int|
        0 <= k < n && is_lower_condition(#[trigger] conds[k]) && values[k] == l) && (forall|k: int|
        0 <= k < n && is_lower_condition(#[trigger] conds[k]) && is_ordered_key(values[k] as int)
            ==> values[k] <= l))
    &&& (lower matches Some(l) && !is_ordered_key(l as int)) ==> forall|k: int|
        0 <= k < n && is_lower_condition(#[trigger] conds[k]) ==> !is_ordered_key(values[k] as int)
    &&& (lower is Some && is_ordered_key(lower->0 as int)) ==> exists|k: int|
        0 <= k < n && is_lower_condition(#[trigger] conds[k]) && values[k] == lower->0
}

/// What the upper bound of the first `n` conditions is, stated directly:
/// missing exactly when no condition gives one; otherwise the least operand
/// among those that are numbers, and NaN only when every operand giving an
/// upper bound is NaN.
pub open spec fn upper_is_least(conds: Seq<Seq<char>>, values: Seq<i64>, n: int, upper: Option<i64>) -> bool {
    &&& (upper is None <==> forall|k: int| 0 <= k < n ==> !is_upper_condition(#[trigger] conds[k]))
    &&& (exists|k: int|
        0 <= k < n && is_upper_condition(#[trigger] conds[k]) && is_ordered_key(values[k] as int))
        ==> (upper matches Some(u) && is_ordered_key(u as int) && (exists|k: int|
        0 <= k < n && is_upper_condition(#[trigger] conds[k]) && values[k] == u) && (forall|k: int|
        0 <= k < n && is_upper_condition(#[trigger] conds[k]) && is_ordered_key(values[k] as int)
            ==> values[k] >= u))
    &&& (upper matches Some(u) && !is_ordered_key(u as int)) ==> forall|k: int|
        0 <= k < n && is_upper_condition(#[trigger] conds[k]) ==> !is_ordered_key(values[k] as int)
    &&& (upper is Some && is_ordered_key(upper->0 as int)) ==> exists|k: int|
        0 <= k < n && is_upper_condition(#[trigger] conds[k]) && values[k] == upper->0
}

proof fn lemma_scan_extremes(conds: Seq<Seq<char>>, values: Seq<i64>, n: int)
    requires
        0 <= n <= conds.len(),
        n <= values.len(),
    ensures
        lower_is_greatest(conds, values, n, scan_prefix(conds, values, n).lower),
        upper_is_least(conds, values, n, scan_prefix(conds, values, n).upper),
    decreases n,
{
    if n > 0 {
        lemma_scan_extremes(conds, values, n - 1);
        let prev = scan_prefix(conds, values, n - 1);
        let c = conds[n - 1];
        let v = values[n - 1];
        let cur = scan_prefix(conds, values, n);
        assert(cur == scan_step(prev, condition_op(c), v));
        if is_lower_condition(c) {
            assert(cur.lower == raised(prev.lower, v));
            if exists|k: int|
                0 <= k < n - 1 && is_lower_condition(#[trigger] conds[k]) && is_ordered_key(
                    values[k] as int,
                ) {
                let w = choose|k: int|
                    0 <= k < n - 1 && is_lower_condition(#[trigger] conds[k]) && values[k]
                        == prev.lower->0;
                if is_ordered_key(v as int) && v > prev.lower->0 {
                    assert(is_lower_condition(conds[n - 1]) && values[n - 1] == cur.lower->0);
                } else {
                    assert(is_lower_condition(conds[w]) && values[w] == cur.lower->0);
                }
            } else {
                if prev.lower is Some && is_ordered_key(prev.lower->0 as int) {
                    let l = prev.lower->0;
                    let w = choose|k: int|
                        0 <= k < n - 1 && is_lower_condition(#[trigger] conds[k]) && values[k] == l;
                    assert(is_lower_condition(conds[w]) && is_ordered_key(values[w] as int));
                }
                if is_ordered_key(v as int) {
                    assert(is_lower_condition(conds[n - 1]) && values[n - 1] == cur.lower->0);
                }
            }
            assert(!is_upper_condition(c));
            assert(cur.upper == prev.upper);
        } else if is_upper_condition(c) {
            assert(cur.upper == lowered(prev.upper, v));
            if exists|k: int|
                0 <= k < n - 1 && is_upper_condition(#[trigger] conds[k]) && is_ordered_key(
                    values[k] as int,
                ) {
                let w = choose|k: int|
                    0 <= k < n - 1 && is_upper_condition(#[trigger] conds[k]) && values[k]
                        == prev.upper->0;
                if is_ordered_key(v as int) && v < prev.upper->0 {
                    assert(is_upper_condition(conds[n - 1]) && values[n - 1] == cur.upper->0);
                } else {
                    assert(is_upper_condition(conds[w]) && values[w] == cur.upper->0);
                }
            } else {
                if prev.upper is Some && is_ordered_key(prev.upper->0 as int) {
                    let u = prev.upper->0;
                    let w = choose|k: int|
                        0 <= k < n - 1 && is_upper_condition(#[trigger] conds[k]) && values[k] == u;
                    assert(is_upper_condition(conds[w]) && is_ordered_key(values[w] as int));
                }
                if is_ordered_key(v as int) {
                    assert(is_upper_condition(conds[n - 1]) && values[n - 1] == cur.upper->0);
                }
            }
            assert(cur.lower == prev.lower);
        } else {
            assert(cur.lower == prev.lower);
            assert(cur.upper == prev.upper);
        }
    }
}

/// The bounds of a constraint, stated directly: the lower bound is the
/// greatest operand of its `>=` and `>` conditions and the upper bound the
/// least operand of its `<=` and `<` conditions, operands that are NaN
/// giving way to the others as in `f64::max` and `f64::min`; a bound is
/// missing exactly when no condition gives one.
pub proof fn law_bounds_are_extremes(conds: Seq<Seq<char>>, values: Seq<i64>)
    requires
        conds.len() <= values.len(),
    ensures
        lower_is_greatest(conds, values, conds.len() as int, type_properties(conds, values).1.lower),
        upper_is_least(conds, values, conds.len() as int, type_properties(conds, values).1.upper),
{
    lemma_scan_extremes(conds, values, conds.len() as int);
}

/// Whether a condition marks zero as excluded: `> x` with `x` a number at
/// least zero, `< x` with `x` a number at most zero, or `!= 0`.
pub open spec fn excludes_zero_condition(c: Seq<char>, v: i64) -> bool {
    ||| (condition_op(c) == Some(Comparison::Gt) && is_ordered_key(v as int) && v >= 0)
    ||| (condition_op(c) == Some(Comparison::Lt) && is_ordered_key(v as int) && v <= 0)
    ||| (condition_op(c) == Some(Comparison::Ne) && v == 0)
}

proof fn lemma_scan_excludes_zero(conds: Seq<Seq<char>>, values: Seq<i64>, n: int)
    requires
        0 <= n <= conds.len(),
        n <= values.len(),
    ensures
        scan_prefix(conds, values, n).excludes_zero <==> exists|k: int|
            0 <= k < n && excludes_zero_condition(#[trigger] conds[k], values[k]),
    decreases n,
{
    if n > 0 {
        lemma_scan_excludes_zero(conds, values, n - 1);
        let prev = scan_prefix(conds, values, n - 1);
        let cur = scan_prefix(conds, values, n);
        assert(cur == scan_step(prev, condition_op(conds[n - 1]), values[n - 1]));
        if excludes_zero_condition(conds[n - 1], values[n - 1]) {
            assert(cur.excludes_zero);
        } else {
            assert(cur.excludes_zero == prev.excludes_zero);
            if cur.excludes_zero {
                let k = choose|k: int|
                    0 <= k < n - 1 && excludes_zero_condition(#[trigger] conds[k], values[k]);
                assert(excludes_zero_condition(conds[k], values[k]));
            }
            if exists|k: int| 0 <= k < n && excludes_zero_condition(#[trigger] conds[k], values[k]) {
                let k = choose|k: int|
                    0 <= k < n && excludes_zero_condition(#[trigger] conds[k], values[k]);
                assert(k < n - 1);
                assert(prev.excludes_zero);
            }
        }
    }
}

/// Zero exclusion is read off the conditions: a constraint excludes zero
/// exactly when one of its conditions is `> x` with `x >= 0`, `< x` with
/// `x <= 0`, or `!= 0` (a NaN operand marks nothing, as its comparisons
/// with zero are false).
pub proof fn law_zero_exclusion_from_conditions(conds: Seq<Seq<char>>, values: Seq<i64>)
    requires
        conds.len() <= values.len(),
    ensures
        type_properties(conds, values).2 <==> exists|k: int|
            0 <= k < conds.len() && excludes_zero_condition(#[trigger] conds[k], values[k]),
{
    lemma_scan_excludes_zero(conds, values, conds.len() as int);
}

/// A Positive constraint admits no value below zero: its lower bound is
/// present and nonnegative; a Negative constraint symmetrically has an upper
/// bound that is nonpositive.
pub proof fn law_sign_implies_bound(conds: Seq<Seq<char>>, values: Seq<i64>)
    requires
        conds.len() <= values.len(),
    ensures
        type_properties(conds, values).0 == Sign::Positive ==> (type_properties(
            conds,
            values,
        ).1.lower matches Some(l) && l >= 0),
        type_properties(conds, values).0 == Sign::Negative ==> (type_properties(
            conds,
            values,
        ).1.upper matches Some(u) && u <= 0),
{
    lemma_scan_sign_bounds(conds, values, conds.len() as int);
}

fn scan_condition(s: PropertyScan, op: Option<Comparison>, v: i64) -> (r: PropertyScan)
    ensures
        r == scan_step(s, op, v),
{
    let lower = match s.lower {
        None => Some(v),
        Some(x) => Some(key_max(x, v)),
    };
    let upper = match s.upper {
        None => Some(v),
        Some(x) => Some(key_min(x, v)),
    };
    let ordered = key_is_ordered(v);
    let nonneg = ordered && v >= 0;
    let nonpos = ordered && v <= 0;
    match op {
        Some(Comparison::Ge) => PropertyScan { lower, positive: s.positive || nonneg, ..s },
        Some(Comparison::Le) => PropertyScan { upper, negative: s.negative || nonpos, ..s },
        Some(Comparison::Gt) => PropertyScan {
            lower,
            excludes_zero: s.excludes_zero || nonneg,
            positive: s.positive || nonneg,
            ..s
        },
        Some(Comparison::Lt) => PropertyScan {
            upper,
            excludes_zero: s.excludes_zero || nonpos,
            negative: s.negative || nonpos,
            ..s
        },
        Some(Comparison::Ne) => PropertyScan { excludes_zero: s.excludes_zero || v == 0, ..s },
        None => s,
    }
}

/// Parse type properties (sign, bounds, `excludes_zero`) from conditions.
///
/// `operand_values[k]` is the order key of the operand of `conditions[k]`
/// (conditions without a known operator are skipped, whatever their key).
/// `>=` and `>` raise the lower bound, `<=` and `<` lower the upper bound,
/// `>` at a nonnegative bound, `<` at a nonpositive bound and `!= 0` exclude
/// zero. A NaN operand is kept as a bound only until a number replaces it
/// (as `f64::max` and `f64::min` do) and counts as neither sign.
pub fn parse_type_properties(conditions: &[String], operand_values: &[i64]) -> (r: (
    Sign,
    Bounds,
    bool,
))
    requires
        conditions.len() == operand_values.len(),
    ensures
        r == type_properties(views_of(conditions@), operand_values@),
{
    let ghost conds = views_of(conditions@);
    let mut s = PropertyScan {
        lower: None,
        upper: None,
        excludes_zero: false,
        positive: false,
        negative: false,
    };
    let mut i: usize = 0;
    while i < conditions.len()
        invariant
            i <= conditions.len(),
            conditions.len() == operand_values.len(),
            conds == views_of(conditions@),
            s == scan_prefix(conds, operand_values@, i as int),
        decreases conditions.len() - i,
    {
        let op = match condition_comparison(conditions[i].as_str()) {
            Some((op, _)) => Some(op),
            None => None,
        };
        assert(conds[i as int] == conditions@[i as int]@);
        s = scan_condition(s, op, operand_values[i]);
        i += 1;
    }
    let sign = if s.positive && !s.negative {
        Sign::Positive
    } else if s.negative && !s.positive {
        Sign::Negative
    } else {
        Sign::Any
    };
    (sign, Bounds { lower: s.lower, upper: s.upper }, s.excludes_zero)
}

/// The view of an optional name.
pub open spec fn option_view(o: Option<String>) -> Option<Seq<char>> {
    match o {
        Some(s) => Some(s@),
        None => None,
    }
}

/// Holds of constraints whose conditions match the negated `conditions`.
pub open spec fn negates(conditions: Seq<Seq<char>>) -> spec_fn(ConstraintDef) -> bool {
    |c: ConstraintDef| same_conditions(negated_all(conditions), views_of(c.raw_conditions@))
}

/// The name of the negation of a constraint with these conditions: the
/// first constraint whose conditions match the negated ones.
pub open spec fn negation_name(cs: Seq<ConstraintDef>, conditions: Seq<Seq<char>>) -> Option<
    Seq<char>,
> {
    first_name(cs, negates(conditions))
}

fn find_negation_name(cs: &[ConstraintDef], conditions: &[String]) -> (r: Option<String>)
    ensures
        option_view(r) == negation_name(cs@, views_of(conditions@)),
{
    let negated = negate_conditions(conditions);
    let ghost p = negates(views_of(conditions@));
    let mut j: usize = 0;
    while j < cs.len()
        invariant
            j <= cs.len(),
            views_of(negated@) == negated_all(views_of(conditions@)),
            p == negates(views_of(conditions@)),
            forall|k: int| 0 <= k < j ==> !p(#[trigger] cs@[k]),
        decreases cs.len() - j,
    {
        if conditions_match(&negated, &cs[j].raw_conditions) {
            proof {
                lemma_first_index(cs@, p, j as int);
            }
            return Some(cs[j].name.clone());
        }
        j += 1;
    }
    proof {
        lemma_first_index(cs@, p, j as int);
    }
    None
}

/// Whether a list of constraint definitions is the one built from the given
/// names, normalized conditions and operand keys.
pub open spec fn built_from(
    r: Seq<ConstraintDef>,
    names: Seq<String>,
    conditions: Seq<Vec<String>>,
    operand_values: Seq<Vec<i64>>,
) -> bool {
    &&& r.len() == names.len()
    &&& forall|i: int|
        #![trigger r[i]]
        0 <= i < r.len() ==> {
            &&& r[i].name@ == names[i]@
            &&& views_of(r[i].raw_conditions@) == views_of(conditions[i]@).map_values(
                |c: Seq<char>| normalized(c),
            )
            &&& (r[i].sign, r[i].bounds, r[i].excludes_zero) == type_properties(
                views_of(r[i].raw_conditions@),
                operand_values[i]@,
            )
            &&& option_view(r[i].neg_constraint_name) == negation_name(
                r,
                views_of(r[i].raw_conditions@),
            )
        }
}

/// The negation of a built constraint names a constraint of the same
/// configuration: the first one whose conditions match the negated
/// conditions. It is missing exactly when no constraint matches them.
pub proof fn law_negation_target(
    r: Seq<ConstraintDef>,
    names: Seq<String>,
    conditions: Seq<Vec<String>>,
    operand_values: Seq<Vec<i64>>,
    i: int,
)
    requires
        built_from(r, names, conditions, operand_values),
        0 <= i < r.len(),
    ensures
        r[i].neg_constraint_name matches Some(n) ==> exists|j: int|
            0 <= j < r.len() && r[j].name@ == n@ && negates(views_of(r[i].raw_conditions@))(
                #[trigger] r[j],
            ) && forall|k: int|
                0 <= k < j ==> !negates(views_of(r[i].raw_conditions@))(#[trigger] r[k]),
        r[i].neg_constraint_name is None ==> forall|j: int|
            0 <= j < r.len() ==> !negates(views_of(r[i].raw_conditions@))(#[trigger] r[j]),
{
    let p = negates(views_of(r[i].raw_conditions@));
    assert(option_view(r[i].neg_constraint_name) == first_name(r, p));
    lemma_first_index_found(r, p);
}

/// Builds the constraint definitions of a configuration.
///
/// Constraint `i` is named `names[i]`; its conditions are `conditions[i]`,
/// each normalized, and `operand_values[i][k]` is the key of the operand of
/// the `k`-th one. Sign, bounds and zero exclusion come from
/// `parse_type_properties`; the negation name of each constraint is the
/// first constraint whose conditions match its negated conditions.
pub fn build_constraint_defs(
    names: &[String],
    conditions: &[Vec<String>],
    operand_values: &[Vec<i64>],
) -> (r: Vec<ConstraintDef>)
    requires
        names.len() == conditions.len(),
        names.len() == operand_values.len(),
        forall|i: int|
            0 <= i < names.len() ==> (#[trigger] conditions@[i])@.len()
                == operand_values@[i]@.len(),
    ensures
        built_from(r@, names@, conditions@, operand_values@),
{
    let mut defs: Vec<ConstraintDef> = Vec::new();
    let mut i: usize = 0;
    while i < names.len()
        invariant
            i <= names.len(),
            names.len() == conditions.len(),
            names.len() == operand_values.len(),
            forall|i: int|
                0 <= i < names.len() ==> (#[trigger] conditions@[i])@.len()
                    == operand_values@[i]@.len(),
            defs@.len() == i,
            forall|j: int|
                #![trigger defs@[j]]
                0 <= j < i ==> {
                    &&& defs@[j].name@ == names@[j]@
                    &&& views_of(defs@[j].raw_conditions@) == views_of(conditions@[j]@).map_values(
                        |c: Seq<char>| normalized(c),
                    )
                    &&& (defs@[j].sign, defs@[j].bounds, defs@[j].excludes_zero)
                        == type_properties(
                        views_of(defs@[j].raw_conditions@),
                        operand_values@[j]@,
                    )
                },
        decreases names.len() - i,
    {
        let conds = &conditions[i];
        let mut raw: Vec<String> = Vec::new();
        let mut k: usize = 0;
        while k < conds.len()
            invariant
                k <= conds.len(),
                raw@.len() == k,
                forall|m: int| 0 <= m < k ==> #[trigger] raw@[m]@ == normalized(conds@[m]@),
            decreases conds.len() - k,
        {
            raw.push(normalize_condition(conds[k].as_str()));
            k += 1;
        }
        assert(views_of(raw@) =~= views_of(conds@).map_values(|c: Seq<char>| normalized(c)));
        let (sign, bounds, excludes_zero) = parse_type_properties(&raw, &operand_values[i]);
        defs.push(
            ConstraintDef {
                name: names[i].clone(),
                neg_constraint_name: None,
                raw_conditions: raw,
                sign,
                bounds,
                excludes_zero,
            },
        );
        i += 1;
    }
    let mut out: Vec<ConstraintDef> = Vec::new();
    let mut j: usize = 0;
    while j < defs.len()
        invariant
            j <= defs.len(),
            out@.len() == j,
            forall|m: int|
                #![trigger out@[m]]
                0 <= m < j ==> {
                    &&& out@[m].name@ == defs@[m].name@
                    &&& out@[m].raw_conditions@ == defs@[m].raw_conditions@
                    &&& out@[m].sign == defs@[m].sign
                    &&& out@[m].bounds == defs@[m].bounds
                    &&& out@[m].excludes_zero == defs@[m].excludes_zero
                    &&& option_view(out@[m].neg_constraint_name) == negation_name(
                        defs@,
                        views_of(defs@[m].raw_conditions@),
                    )
                },
        decreases defs.len() - j,
    {
        let neg = find_negation_name(&defs, &defs[j].raw_conditions);
        let d = &defs[j];
        out.push(
            ConstraintDef {
                name: d.name.clone(),
                neg_constraint_name: neg,
                raw_conditions: d.raw_conditions.clone(),
                sign: d.sign,
                bounds: d.bounds,
                excludes_zero: d.excludes_zero,
            },
        );
        j += 1;
    }
    proof {
        assert forall|c: Seq<Seq<char>>| #[trigger] negation_name(out@, c) == negation_name(defs@, c) by {
            lemma_negation_name_same_conditions(out@, defs@, c);
        }
    }
    out
}

proof fn lemma_negation_name_same_conditions(
    a: Seq<ConstraintDef>,
    b: Seq<ConstraintDef>,
    c: Seq<Seq<char>>,
)
    requires
        a.len() == b.len(),
        forall|m: int|
            #![trigger a[m]]
            0 <= m < a.len() ==> a[m].name@ == b[m].name@ && a[m].raw_conditions@
                == b[m].raw_conditions@,
    ensures
        negation_name(a, c) == negation_name(b, c),
{
    let p = negates(c);
    lemma_first_index_found(a, p);
    lemma_first_index_found(b, p);
    assert forall|m: int| 0 <= m < a.len() implies #[trigger] p(b[m]) == p(a[m]) by {
        assert(a[m].raw_conditions@ == b[m].raw_conditions@);
        assert(views_of(a[m].raw_conditions@) == views_of(b[m].raw_conditions@));
    }
    match first_index(a, p) {
        Some(k) => {
            assert(p(b[k]));
            lemma_first_index(b, p, k);
        },
        None => {
            lemma_first_index(b, p, b.len() as int);
        },
    }
}

/// Errors in the alias list of a configuration.
#[derive(Debug, Clone)]
pub enum ConfigError {
    /// An alias references a type that does not exist.
    UnknownAliasTarget(String),
    /// An alias name is already the name of a type.
    AliasConflict(String),
}

/// Whether an alias refers to an existing type and takes a free name.
pub open spec fn alias_ok(cs: Seq<ConstraintDef>, a: TypeAliasDef) -> bool {
    has_constraint(cs, a.original_name@) && !has_constraint(cs, a.alias_name@)
}

/// The error reported for an alias that is not ok.
pub open spec fn alias_error(cs: Seq<ConstraintDef>, a: TypeAliasDef, e: ConfigError) -> bool {
    if !has_constraint(cs, a.original_name@) {
        e matches ConfigError::UnknownAliasTarget(n) && n@ == a.original_name@
    } else {
        e matches ConfigError::AliasConflict(n) && n@ == a.alias_name@
    }
}

fn constraint_exists(cs: &[ConstraintDef], name: &String) -> (r: bool)
    ensures
        r == has_constraint(cs@, name@),
{
    let mut k: usize = 0;
    while k < cs.len()
        invariant
            k <= cs.len(),
            forall|j: int| 0 <= j < k ==> cs@[j].name@ != name@,
        decreases cs.len() - k,
    {
        if str_eq(cs[k].name.as_str(), name.as_str()) {
            return true;
        }
        k += 1;
    }
    false
}

/// Validates aliases: each must reference an existing type and must not take
/// the name of one. The first alias that fails decides the error.
pub fn validate_aliases(constraints: &[ConstraintDef], aliases: &[TypeAliasDef]) -> (r: Result<
    (),
    ConfigError,
>)
    ensures
        r is Ok <==> forall|k: int| 0 <= k < aliases@.len() ==> alias_ok(constraints@, #[trigger] aliases@[k]),
        r matches Err(e) ==> exists|k: int|
            0 <= k < aliases@.len() && !alias_ok(constraints@, #[trigger] aliases@[k]) && (forall|
                j: int,
            | 0 <= j < k ==> alias_ok(constraints@, #[trigger] aliases@[j])) && alias_error(
                constraints@,
                aliases@[k],
                e,
            ),
{
    let mut k: usize = 0;
    while k < aliases.len()
        invariant
            k <= aliases.len(),
            forall|j: int| 0 <= j < k ==> alias_ok(constraints@, #[trigger] aliases@[j]),
        decreases aliases.len() - k,
    {
        let a = &aliases[k];
        if !constraint_exists(constraints, &a.original_name) {
            return Err(ConfigError::UnknownAliasTarget(a.original_name.clone()));
        }
        if constraint_exists(constraints, &a.alias_name) {
            return Err(ConfigError::AliasConflict(a.alias_name.clone()));
        }
        k += 1;
    }
    Ok(())
}

/// The views of the float types every constraint type is built for.
pub open spec fn standard_float_types() -> Seq<Seq<char>> {
    seq![seq!['f', '3', '2'], seq!['f', '6', '4']]
}

impl TypeConfig {
    /// Assembles a configuration: one type per constraint, named like it and
    /// built for `f32` and `f64`.
    pub fn new(
        constraints: Vec<ConstraintDef>,
        arithmetic_results: Vec<ArithmeticResult>,
        type_aliases: Vec<TypeAliasDef>,
    ) -> (r: TypeConfig)
        requires
            arithmetic_results@.len() == 4 * constraints@.len() * constraints@.len(),
        ensures
            r.wf(),
            r.constraints@ == constraints@,
            r.arithmetic_results@ == arithmetic_results@,
            r.type_aliases@ == type_aliases@,
            r.constraint_types@.len() == constraints@.len(),
            forall|k: int|
                0 <= k < constraints@.len() ==> {
                    &&& (#[trigger] r.constraint_types@[k]).name@ == constraints@[k].name@
                    &&& r.constraint_types@[k].constraint_name@ == constraints@[k].name@
                    &&& views_of(r.constraint_types@[k].float_types@) == standard_float_types()
                },
    {
        let mut types: Vec<TypeDef> = Vec::new();
        let mut k: usize = 0;
        while k < constraints.len()
            invariant
                k <= constraints.len(),
                types@.len() == k,
                forall|j: int|
                    0 <= j < k ==> {
                        &&& (#[trigger] types@[j]).name@ == constraints@[j].name@
                        &&& types@[j].constraint_name@ == constraints@[j].name@
                        &&& views_of(types@[j].float_types@) == standard_float_types()
                    },
            decreases constraints.len() - k,
        {
            let mut floats: Vec<String> = Vec::new();
            floats.push(crate::text::string_of(&['f', '3', '2']));
            floats.push(crate::text::string_of(&['f', '6', '4']));
            assert(views_of(floats@) =~= standard_float_types());
            types.push(
                TypeDef {
                    name: constraints[k].name.clone(),
                    float_types: floats,
                    constraint_name: constraints[k].name.clone(),
                },
            );
            k += 1;
        }
        let r = TypeConfig { constraints, constraint_types: types, arithmetic_results, type_aliases };
        assert forall|t: int| 0 <= t < r.constraint_types@.len() implies has_constraint(
            r.constraints@,
            (#[trigger] r.constraint_types@[t]).constraint_name@,
        ) by {
            assert(r.constraints@[t].name@ == r.constraint_types@[t].constraint_name@);
        }
        assert forall|t: int| 0 <= t < r.constraint_types@.len() implies has_constraint(
            r.constraints@,
            (#[trigger] r.constraint_types@[t]).name@,
        ) by {
            assert(r.constraints@[t].name@ == r.constraint_types@[t].name@);
        }
        proof {
            r.lemma_wf_from_parts();
        }
        r
    }

    /// Find a constraint type by its properties (sign, bounds, `excludes_zero`):
    /// the name of the first constraint that has exactly these properties,
    /// bounds compared as `Option<f64>` (a NaN bound equals nothing).
    pub fn find_type_by_constraints(&self, sign: Sign, bounds: &Bounds, excludes_zero: bool) -> (r:
        Option<String>)
        ensures
            option_view(r) == first_name(
                self.constraints@,
                |c: ConstraintDef|
                    c.sign == sign && same_bound(c.bounds.lower, bounds.lower) && same_bound(c.bounds.upper, bounds.upper) && c.excludes_zero == excludes_zero,
            ),
    {
        let ghost p = |c: ConstraintDef|
            c.sign == sign && same_bound(c.bounds.lower, bounds.lower) && same_bound(c.bounds.upper, bounds.upper) && c.excludes_zero == excludes_zero;
        let mut k: usize = 0;
        while k < self.constraints.len()
            invariant
                k <= self.constraints.len(),
                p == (|c: ConstraintDef|
                    c.sign == sign && same_bound(c.bounds.lower, bounds.lower) && same_bound(c.bounds.upper, bounds.upper) && c.excludes_zero == excludes_zero),
                forall|j: int| 0 <= j < k ==> !p(#[trigger] self.constraints@[j]),
            decreases self.constraints.len() - k,
        {
            let c = &self.constraints[k];
            if c.sign == sign && bounds_equal(c.bounds.lower, bounds.lower) && bounds_equal(
                c.bounds.upper,
                bounds.upper,
            ) && c.excludes_zero == excludes_zero {
                proof {
                    lemma_first_index(self.constraints@, p, k as int);
                }
                return Some(c.name.clone());
            }
            k += 1;
        }
        proof {
            lemma_first_index(self.constraints@, p, k as int);
        }
        None
    }
}

} // verus!
