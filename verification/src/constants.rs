//! Mathematical constants offered by the constraint types.
//!
//! Each constant is given by the bit patterns of its `f64` value and of its
//! `f32` value; a type offers the constants whose value in its float type
//! satisfies its constraint.

use vstd::prelude::*;

use crate::config_types::ConstraintDef;
use crate::float_key::{
    float_key_from_bits, is_finite_key, is_ordered_key, key_is_ordered, key_of_bits, MAX_FINITE_KEY,
};
use crate::config_types::ordered_bounds;

verus! {

/// A constant definition.
#[derive(Debug, Clone, Copy)]
pub struct ConstantDef {
    /// Constant name (such as `ZERO` or `PI`).
    pub name: &'static str,
    /// Documentation.
    pub doc: &'static str,
    /// Expression for the `f32` value; `None` means the literal value.
    pub f32_expr: Option<&'static str>,
    /// Expression for the `f64` value; `None` means the literal value.
    pub f64_expr: Option<&'static str>,
    /// Bit pattern of the `f64` value (used for the bounds check of the
    /// `f64` types).
    pub literal_bits: u64,
    /// Bit pattern of the `f32` value widened to `f64` (used for the bounds
    /// check of the `f32` types).
    pub f32_bits: u64,
}

/// The bit patterns of the constants, in table order: 0, 1, -1, 2, -2, 0.5,
/// -0.5, π, -π, e, -e, 1/π, 2/π, π/2, π/3, π/4, π/6, π/8.
pub open spec fn constant_bits() -> Seq<u64> {
    seq![
        0x0000_0000_0000_0000u64,
        0x3FF0_0000_0000_0000u64,
        0xBFF0_0000_0000_0000u64,
        0x4000_0000_0000_0000u64,
        0xC000_0000_0000_0000u64,
        0x3FE0_0000_0000_0000u64,
        0xBFE0_0000_0000_0000u64,
        0x4009_21FB_5444_2D18u64,
        0xC009_21FB_5444_2D18u64,
        0x4005_BF0A_8B14_5769u64,
        0xC005_BF0A_8B14_5769u64,
        0x3FD4_5F30_6DC9_C883u64,
        0x3FE4_5F30_6DC9_C883u64,
        0x3FF9_21FB_5444_2D18u64,
        0x3FF0_C152_382D_7366u64,
        0x3FE9_21FB_5444_2D18u64,
        0x3FE0_C152_382D_7366u64,
        0x3FD9_21FB_5444_2D18u64,
    ]
}

/// The bit patterns of the `f32` values of the constants, widened to `f64`,
/// in table order.
pub open spec fn constant_f32_bits() -> Seq<u64> {
    seq![
        0x0000_0000_0000_0000u64,
        0x3FF0_0000_0000_0000u64,
        0xBFF0_0000_0000_0000u64,
        0x4000_0000_0000_0000u64,
        0xC000_0000_0000_0000u64,
        0x3FE0_0000_0000_0000u64,
        0xBFE0_0000_0000_0000u64,
        0x4009_21FB_6000_0000u64,
        0xC009_21FB_6000_0000u64,
        0x4005_BF0A_8000_0000u64,
        0xC005_BF0A_8000_0000u64,
        0x3FD4_5F30_6000_0000u64,
        0x3FE4_5F30_6000_0000u64,
        0x3FF9_21FB_6000_0000u64,
        0x3FF0_C152_4000_0000u64,
        0x3FE9_21FB_6000_0000u64,
        0x3FE0_C152_4000_0000u64,
        0x3FD9_21FB_6000_0000u64,
    ]
}

fn constant(
    name: &'static str,
    doc: &'static str,
    f32_expr: Option<&'static str>,
    f64_expr: Option<&'static str>,
    literal_bits: u64,
    f32_bits: u64,
) -> (r: ConstantDef)
    ensures
        r.name == name,
        r.doc == doc,
        r.f32_expr == f32_expr,
        r.f64_expr == f64_expr,
        r.literal_bits == literal_bits,
        r.f32_bits == f32_bits,
{
    ConstantDef { name, doc, f32_expr, f64_expr, literal_bits, f32_bits }
}

/// All constant definitions, in table order.
pub fn all_constants() -> (r: Vec<ConstantDef>)
    ensures
        r@.len() == constant_bits().len(),
        forall|k: int|
            0 <= k < r@.len() ==> #[trigger] r@[k].literal_bits == constant_bits()[k]
                && r@[k].f32_bits == constant_f32_bits()[k],
{
    let r = vec![
        constant("ZERO", "Zero (0.0)", None, None, 0x0000_0000_0000_0000, 0x0000_0000_0000_0000),
        constant("ONE", "One (1.0)", None, None, 0x3FF0_0000_0000_0000, 0x3FF0_0000_0000_0000),
        constant("NEG_ONE", "Negative one (-1.0)", None, None, 0xBFF0_0000_0000_0000, 0xBFF0_0000_0000_0000),
        constant("TWO", "Two (2.0)", None, None, 0x4000_0000_0000_0000, 0x4000_0000_0000_0000),
        constant("NEG_TWO", "Negative two (-2.0)", None, None, 0xC000_0000_0000_0000, 0xC000_0000_0000_0000),
        constant("HALF", "Half (0.5)", None, None, 0x3FE0_0000_0000_0000, 0x3FE0_0000_0000_0000),
        constant("NEG_HALF", "Negative half (-0.5)", None, None, 0xBFE0_0000_0000_0000, 0xBFE0_0000_0000_0000),
        constant(
            "PI",
            "Pi (π)",
            Some("core::f32::consts::PI"),
            Some("core::f64::consts::PI"),
            0x4009_21FB_5444_2D18, 0x4009_21FB_6000_0000,
        ),
        constant("NEG_PI", "Negative pi (-π)", None, None, 0xC009_21FB_5444_2D18, 0xC009_21FB_6000_0000),
        constant(
            "E",
            "Euler's number (e)",
            Some("core::f32::consts::E"),
            Some("core::f64::consts::E"),
            0x4005_BF0A_8B14_5769, 0x4005_BF0A_8000_0000,
        ),
        constant("NEG_E", "Negative Euler's number (-e)", None, None, 0xC005_BF0A_8B14_5769, 0xC005_BF0A_8000_0000),
        constant(
            "FRAC_1_PI",
            "1/π",
            Some("core::f32::consts::FRAC_1_PI"),
            Some("core::f64::consts::FRAC_1_PI"),
            0x3FD4_5F30_6DC9_C883, 0x3FD4_5F30_6000_0000,
        ),
        constant(
            "FRAC_2_PI",
            "2/π",
            Some("core::f32::consts::FRAC_2_PI"),
            Some("core::f64::consts::FRAC_2_PI"),
            0x3FE4_5F30_6DC9_C883, 0x3FE4_5F30_6000_0000,
        ),
        constant(
            "FRAC_PI_2",
            "π/2",
            Some("core::f32::consts::FRAC_PI_2"),
            Some("core::f64::consts::FRAC_PI_2"),
            0x3FF9_21FB_5444_2D18, 0x3FF9_21FB_6000_0000,
        ),
        constant(
            "FRAC_PI_3",
            "π/3",
            Some("core::f32::consts::FRAC_PI_3"),
            Some("core::f64::consts::FRAC_PI_3"),
            0x3FF0_C152_382D_7366, 0x3FF0_C152_4000_0000,
        ),
        constant(
            "FRAC_PI_4",
            "π/4",
            Some("core::f32::consts::FRAC_PI_4"),
            Some("core::f64::consts::FRAC_PI_4"),
            0x3FE9_21FB_5444_2D18, 0x3FE9_21FB_6000_0000,
        ),
        constant(
            "FRAC_PI_6",
            "π/6",
            Some("core::f32::consts::FRAC_PI_6"),
            Some("core::f64::consts::FRAC_PI_6"),
            0x3FE0_C152_382D_7366, 0x3FE0_C152_4000_0000,
        ),
        constant(
            "FRAC_PI_8",
            "π/8",
            Some("core::f32::consts::FRAC_PI_8"),
            Some("core::f64::consts::FRAC_PI_8"),
            0x3FD9_21FB_5444_2D18, 0x3FD9_21FB_6000_0000,
        ),
    ];
    assert(r@.len() == constant_bits().len());
    r
}

/// Whether a value is not below a lower bound; a NaN bound, like a
/// missing one, rejects nothing.
pub open spec fn at_or_above(key: int, lower: Option<i64>) -> bool {
    match lower {
        Some(l) => !is_ordered_key(l as int) || key >= l,
        None => true,
    }
}

/// Whether a value is not above an upper bound; a NaN bound, like a
/// missing one, rejects nothing.
pub open spec fn at_or_below(key: int, upper: Option<i64>) -> bool {
    match upper {
        Some(u) => !is_ordered_key(u as int) || key <= u,
        None => true,
    }
}

/// Whether a value (given by its key) satisfies a constraint: it is finite,
/// within the present bounds, and nonzero if the constraint excludes zero. As
/// with `f64` comparisons, a NaN bound rejects nothing.
pub open spec fn value_satisfies(key: int, c: ConstraintDef) -> bool {
    &&& is_finite_key(key)
    &&& at_or_above(key, c.bounds.lower)
    &&& at_or_below(key, c.bounds.upper)
    &&& !(c.excludes_zero && key == 0)
}

/// Checks whether a constant value (given by its key) satisfies a
/// constraint.
pub fn constant_matches_constraint(value: i64, constraint_def: &ConstraintDef) -> (r: bool)
    ensures
        r == value_satisfies(value as int, *constraint_def),
{
    if value < -MAX_FINITE_KEY || value > MAX_FINITE_KEY {
        return false;
    }
    if let Some(lower) = constraint_def.bounds.lower {
        if key_is_ordered(lower) && value < lower {
            return false;
        }
    }
    if let Some(upper) = constraint_def.bounds.upper {
        if key_is_ordered(upper) && value > upper {
            return false;
        }
    }
    if constraint_def.excludes_zero && value == 0 {
        return false;
    }
    true
}

/// The bit pattern of a constant's value for a float type: that of its
/// `f32` value (widened to `f64`) for `f32`, that of its `f64` value
/// otherwise.
pub open spec fn constant_bits_for(d: ConstantDef, float_type: Seq<char>) -> u64 {
    if float_type == seq!['f', '3', '2'] {
        d.f32_bits
    } else {
        d.literal_bits
    }
}

/// Holds of the constants whose value for the float type satisfies the
/// constraint.
pub open spec fn applicable(c: ConstraintDef, float_type: Seq<char>) -> spec_fn(ConstantDef) -> bool {
    |d: ConstantDef| value_satisfies(key_of_bits(constant_bits_for(d, float_type)), c)
}

/// The constants of the table that a constraint type offers for a float
/// type, in table order: those whose value in that float type satisfies
/// the constraint.
pub fn applicable_constants(
    table: &[ConstantDef],
    constraint_def: &ConstraintDef,
    float_type: &str,
) -> (r: Vec<ConstantDef>)
    ensures
        r@ == table@.filter(applicable(*constraint_def, float_type@)),
{
    let ghost p = applicable(*constraint_def, float_type@);
    let is_f32 = crate::text::chars_eq(&crate::text::chars_of(float_type), &['f', '3', '2']);
    assert(['f', '3', '2']@ =~= seq!['f', '3', '2']);
    let mut r: Vec<ConstantDef> = Vec::new();
    let mut i: usize = 0;
    while i < table.len()
        invariant
            i <= table.len(),
            p == applicable(*constraint_def, float_type@),
            is_f32 == (float_type@ == seq!['f', '3', '2']),
            r@ == table@.take(i as int).filter(p),
        decreases table.len() - i,
    {
        proof {
            table@.take(i as int).lemma_filter_push(table@[i as int], p);
            assert(table@.take(i as int + 1) == table@.take(i as int).push(table@[i as int]));
        }
        let bits = if is_f32 {
            table[i].f32_bits
        } else {
            table[i].literal_bits
        };
        let key = float_key_from_bits(bits);
        if constant_matches_constraint(key, constraint_def) {
            r.push(table[i]);
        }
        i += 1;
    }
    assert(table@.take(i as int) == table@);
    r
}

/// Every constant a type offers passes the validation of that type: its
/// value in the type's float type satisfies the checks of `new()`. (A NaN
/// bound is left out: it rejects no constant but every value in `new()`.)
pub proof fn law_offered_constants_validate(
    table: Seq<ConstantDef>,
    c: ConstraintDef,
    float_type: Seq<char>,
    k: int,
)
    requires
        ordered_bounds(c.bounds),
        0 <= k < table.filter(applicable(c, float_type)).len(),
    ensures
        crate::generator::checks_hold(
            crate::generator::validation_checks(c, float_type),
            key_of_bits(constant_bits_for(table.filter(applicable(c, float_type))[k], float_type)),
        ),
{
    table.lemma_filter_pred(applicable(c, float_type), k);
    crate::generator::law_validation_matches_constraint(
        c,
        float_type,
        key_of_bits(constant_bits_for(table.filter(applicable(c, float_type))[k], float_type)),
    );
}

/// A constant offered by a constraint is offered by every constraint that
/// contains it.
pub proof fn law_constants_follow_containment(key: int, a: ConstraintDef, b: ConstraintDef)
    requires
        value_satisfies(key, a),
        crate::conversion::contained_in(a, b),
    ensures
        value_satisfies(key, b),
{
}

} // verus!
