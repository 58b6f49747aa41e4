//! Output types of the unary operations `abs()` and `signum()`.

use vstd::prelude::*;

use crate::config_types::{bounded, ConstraintDef, Sign};
use crate::float_key::{MAX_FINITE_KEY, NEG_ONE_KEY, ONE_KEY};
use crate::text::string_of;

verus! {

/// Whether the bounds are `[-1, 1]` (Symmetric).
pub open spec fn symmetric_bounds(c: ConstraintDef) -> bool {
    c.bounds.lower == Some(NEG_ONE_KEY) && c.bounds.upper == Some(ONE_KEY)
}

/// Whether the bounds are `[0, 1]` (Normalized).
pub open spec fn normalized_bounds(c: ConstraintDef) -> bool {
    c.bounds.lower == Some(0i64) && c.bounds.upper == Some(ONE_KEY)
}

/// Whether the bounds are `[-1, 0]` (NegativeNormalized).
pub open spec fn negative_normalized_bounds(c: ConstraintDef) -> bool {
    c.bounds.lower == Some(NEG_ONE_KEY) && c.bounds.upper == Some(0i64)
}

/// `Normalized`
pub open spec fn normalized_name() -> Seq<char> {
    seq!['N', 'o', 'r', 'm', 'a', 'l', 'i', 'z', 'e', 'd']
}

/// `NegativeNormalized`
pub open spec fn negative_normalized_name() -> Seq<char> {
    seq!['N', 'e', 'g', 'a', 't', 'i', 'v', 'e'] + normalized_name()
}

/// `Positive`
pub open spec fn positive_name() -> Seq<char> {
    seq!['P', 'o', 's', 'i', 't', 'i', 'v', 'e']
}

/// `NonZeroPositive`
pub open spec fn nonzero_positive_name() -> Seq<char> {
    seq!['N', 'o', 'n', 'Z', 'e', 'r', 'o'] + positive_name()
}

/// `Symmetric`
pub open spec fn symmetric_name() -> Seq<char> {
    seq!['S', 'y', 'm', 'm', 'e', 't', 'r', 'i', 'c']
}

/// The type name of `abs()` of a value of this constraint: bounded zero-
/// including types in `[-1, 1]`, `[0, 1]` or `[-1, 0]` give `Normalized`;
/// otherwise `NonZeroPositive` if zero is excluded, else `Positive`.
pub open spec fn abs_output(c: ConstraintDef) -> Seq<char> {
    if bounded(c.bounds) && !c.excludes_zero && (symmetric_bounds(c) || normalized_bounds(c)
        || negative_normalized_bounds(c)) {
        normalized_name()
    } else if c.excludes_zero {
        nonzero_positive_name()
    } else {
        positive_name()
    }
}

/// The type name of `signum()` of a value of this constraint: `Normalized`
/// for Positive types, `NegativeNormalized` for Negative types and
/// `Symmetric` otherwise.
pub open spec fn signum_output(c: ConstraintDef) -> Seq<char> {
    match c.sign {
        Sign::Positive => normalized_name(),
        Sign::Negative => negative_normalized_name(),
        Sign::Any => symmetric_name(),
    }
}

/// Checks if bounds represent Symmetric type [-1, 1].
pub fn is_symmetric_bounds(constraint_def: &ConstraintDef) -> (r: bool)
    ensures
        r == symmetric_bounds(*constraint_def),
{
    constraint_def.bounds.lower == Some(NEG_ONE_KEY) && constraint_def.bounds.upper == Some(ONE_KEY)
}

/// Checks if bounds represent Normalized type [0, 1].
pub fn is_normalized_bounds(constraint_def: &ConstraintDef) -> (r: bool)
    ensures
        r == normalized_bounds(*constraint_def),
{
    constraint_def.bounds.lower == Some(0i64) && constraint_def.bounds.upper == Some(ONE_KEY)
}

/// Checks if bounds represent `NegativeNormalized` type [-1, 0].
pub fn is_negative_normalized_bounds(constraint_def: &ConstraintDef) -> (r: bool)
    ensures
        r == negative_normalized_bounds(*constraint_def),
{
    constraint_def.bounds.lower == Some(NEG_ONE_KEY) && constraint_def.bounds.upper == Some(0i64)
}

/// Infers the output type for `abs()` operation based on constraint properties.
pub fn infer_abs_output_type(constraint_def: &ConstraintDef) -> (r: String)
    ensures
        r@ == abs_output(*constraint_def),
{
    let is_bounded = constraint_def.bounds.is_bounded();
    let excludes_zero = constraint_def.excludes_zero;
    if is_bounded && !excludes_zero {
        if is_symmetric_bounds(constraint_def) || is_normalized_bounds(constraint_def) {
            return string_of(&['N', 'o', 'r', 'm', 'a', 'l', 'i', 'z', 'e', 'd']);
        }
        if is_negative_normalized_bounds(constraint_def) {
            return string_of(&['N', 'o', 'r', 'm', 'a', 'l', 'i', 'z', 'e', 'd']);
        }
    }
    if excludes_zero {
        let r = string_of(
            &['N', 'o', 'n', 'Z', 'e', 'r', 'o', 'P', 'o', 's', 'i', 't', 'i', 'v', 'e'],
        );
        assert(r@ =~= nonzero_positive_name());
        r
    } else {
        string_of(&['P', 'o', 's', 'i', 't', 'i', 'v', 'e'])
    }
}

/// Infers the output type for `signum()` operation based on constraint
/// properties.
pub fn infer_signum_output_type(constraint_def: &ConstraintDef) -> (r: String)
    ensures
        r@ == signum_output(*constraint_def),
{
    match constraint_def.sign {
        Sign::Positive => string_of(&['N', 'o', 'r', 'm', 'a', 'l', 'i', 'z', 'e', 'd']),
        Sign::Negative => {
            let r = string_of(
                &[
                    'N',
                    'e',
                    'g',
                    'a',
                    't',
                    'i',
                    'v',
                    'e',
                    'N',
                    'o',
                    'r',
                    'm',
                    'a',
                    'l',
                    'i',
                    'z',
                    'e',
                    'd',
                ],
            );
            assert(r@ =~= negative_normalized_name());
            r
        },
        Sign::Any => string_of(&['S', 'y', 'm', 'm', 'e', 't', 'r', 'i', 'c']),
    }
}

/// `abs()` always lands in a nonnegative type, and in `NonZeroPositive`
/// exactly for zero-excluding sources.
pub proof fn law_abs_output_nonnegative(c: ConstraintDef)
    ensures
        abs_output(c) == normalized_name() || abs_output(c) == positive_name() || abs_output(c)
            == nonzero_positive_name(),
        c.excludes_zero <==> abs_output(c) == nonzero_positive_name(),
{
    assert(normalized_name() != nonzero_positive_name()) by {
        assert(normalized_name().len() != nonzero_positive_name().len());
    }
    assert(positive_name() != nonzero_positive_name()) by {
        assert(positive_name().len() != nonzero_positive_name().len());
    }
}

/// Whether the value with key `k` lies in the range that an output type
/// of `abs()` or `signum()` names: `Normalized` is `[0, 1]`,
/// `NegativeNormalized` `[-1, 0]`, `Symmetric` `[-1, 1]`, `Positive` the
/// finite values at least zero and `NonZeroPositive` those above zero.
pub open spec fn named_range_contains(name: Seq<char>, k: int) -> bool {
    if name == normalized_name() {
        0 <= k <= ONE_KEY
    } else if name == negative_normalized_name() {
        NEG_ONE_KEY <= k <= 0
    } else if name == symmetric_name() {
        NEG_ONE_KEY <= k <= ONE_KEY
    } else if name == positive_name() {
        0 <= k <= MAX_FINITE_KEY
    } else if name == nonzero_positive_name() {
        0 < k <= MAX_FINITE_KEY
    } else {
        false
    }
}

/// The key of `signum(x)` for the value with key `x`: `1`, `-1`, or the
/// zero itself.
pub open spec fn signum_key(x: int) -> int {
    if x > 0 {
        ONE_KEY as int
    } else if x < 0 {
        NEG_ONE_KEY as int
    } else {
        0
    }
}

/// `signum()` always lands in its output type: for every value `x` of a
/// constraint whose sign is borne out by its bounds, `signum(x)` lies in the
/// range the output type names. So a type admitting negative values gets an
/// output holding `-1`, one admitting positive values an output holding `1`.
pub proof fn law_signum_output_holds_signum(c: ConstraintDef, x: int)
    requires
        crate::arithmetic::sign_matches_bounds(c),
        crate::constants::value_satisfies(x, c),
    ensures
        named_range_contains(signum_output(c), signum_key(x)),
{
    assert(normalized_name() != negative_normalized_name()) by {
        assert(normalized_name().len() != negative_normalized_name().len());
    }
    assert(symmetric_name() != normalized_name()) by {
        assert(symmetric_name().len() != normalized_name().len());
    }
    assert(symmetric_name() != negative_normalized_name()) by {
        assert(symmetric_name().len() != negative_normalized_name().len());
    }
}

/// The output type of `signum()` is no wider than signum's values allow:
/// it lies within `[-1, 1]`, and holds no negative value for a Positive
/// constraint and no positive value for a Negative one.
pub proof fn law_signum_output_is_tight(c: ConstraintDef, k: int)
    requires
        named_range_contains(signum_output(c), k),
    ensures
        NEG_ONE_KEY <= k <= ONE_KEY,
        c.sign == Sign::Positive ==> k >= 0,
        c.sign == Sign::Negative ==> k <= 0,
{
    assert(normalized_name() != negative_normalized_name()) by {
        assert(normalized_name().len() != negative_normalized_name().len());
    }
    assert(symmetric_name() != normalized_name()) by {
        assert(symmetric_name().len() != normalized_name().len());
    }
    assert(symmetric_name() != negative_normalized_name()) by {
        assert(symmetric_name().len() != negative_normalized_name().len());
    }
}

/// The output type of `abs()` of a constraint with bounds `[-1, 1]`,
/// `[0, 1]` or `[-1, 0]` that admits zero lies within `[0, 1]`.
pub proof fn law_abs_of_unit_range_is_tight(c: ConstraintDef, k: int)
    requires
        !c.excludes_zero,
        c.bounds.lower == Some(NEG_ONE_KEY) || c.bounds.lower == Some(0i64),
        c.bounds.upper == Some(ONE_KEY) || c.bounds.upper == Some(0i64),
        !(c.bounds.lower == Some(0i64) && c.bounds.upper == Some(0i64)),
        named_range_contains(abs_output(c), k),
    ensures
        0 <= k <= ONE_KEY,
{
    assert(normalized_name() != negative_normalized_name()) by {
        assert(normalized_name().len() != negative_normalized_name().len());
    }
    assert(normalized_name() != symmetric_name()) by {
        assert(normalized_name().len() != symmetric_name().len());
    }
}

/// `abs()` always lands in its output type: for every value `x` of the
/// constraint, `|x|` lies in the range the output type names.
pub proof fn law_abs_output_holds_abs(c: ConstraintDef, x: int)
    requires
        crate::constants::value_satisfies(x, c),
    ensures
        named_range_contains(abs_output(c), crate::arithmetic::abs_key(x)),
{
    assert(normalized_name() != positive_name()) by {
        assert(normalized_name().len() != positive_name().len());
    }
    assert(normalized_name() != negative_normalized_name()) by {
        assert(normalized_name().len() != negative_normalized_name().len());
    }
    assert(normalized_name() != symmetric_name()) by {
        assert(normalized_name().len() != symmetric_name().len());
    }
    assert(nonzero_positive_name() != normalized_name()) by {
        assert(nonzero_positive_name().len() != normalized_name().len());
    }
    assert(nonzero_positive_name() != negative_normalized_name()) by {
        assert(nonzero_positive_name().len() != negative_normalized_name().len());
    }
    assert(nonzero_positive_name() != symmetric_name()) by {
        assert(nonzero_positive_name().len() != symmetric_name().len());
    }
    assert(nonzero_positive_name() != positive_name()) by {
        assert(nonzero_positive_name().len() != positive_name().len());
    }
    assert(positive_name() != negative_normalized_name()) by {
        assert(positive_name().len() != negative_normalized_name().len());
    }
    assert(positive_name() != symmetric_name()) by {
        assert(positive_name()[0] != symmetric_name()[0]);
    }
}

} // verus!
