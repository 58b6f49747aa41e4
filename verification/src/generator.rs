//! What the code generator emits for a configuration.
//!
//! The generator walks the configured types in a fixed order; this module
//! computes, for each walk, the list of items to emit (type names, float
//! types, operand and output aliases, checks) so that only the rendering of
//! tokens is left to the caller.

use vstd::prelude::*;

use crate::conditions::views_of;
use crate::arithmetic::last_index_of;
use crate::config_types::{
    first_index, has_constraint, lemma_first_index, lemma_first_index_found, result_index,
    ArithmeticOp, ArithmeticResult, ConstraintDef, TypeConfig, TypeDef,
};
use crate::text::{chars_of, str_eq, string_of, to_uppercase, uppercase};
use crate::float_key::is_ordered_key;
use crate::config_types::ordered_bounds;

verus! {

broadcast use vstd::seq::Seq::lemma_flatten_push;

/// The alias of a constraint type for a float type: the type name followed
/// by the float type in upper case (`Positive`, `f32` → `PositiveF32`).
pub open spec fn type_alias(name: Seq<char>, float_type: Seq<char>) -> Seq<char> {
    name + uppercase(float_type)
}

/// Generates type alias identifier from type name and floating-point type.
pub fn make_type_alias(name: &str, float_type: &str) -> (r: String)
    ensures
        r@ == type_alias(name@, float_type@),
{
    let upper = to_uppercase(float_type);
    let mut v = chars_of(name);
    crate::text::extend_chars(&mut v, &chars_of(upper.as_str()));
    string_of(&v)
}

/// Holds of constraints with the given name.
pub open spec fn named(name: Seq<char>) -> spec_fn(ConstraintDef) -> bool {
    |c: ConstraintDef| c.name@ == name
}

/// The position of the first constraint with the given name.
pub open spec fn constraint_position(cs: Seq<ConstraintDef>, name: Seq<char>) -> int {
    first_index(cs, named(name))->0
}

/// Finds the position of the first constraint definition with the given name.
pub fn find_constraint_index(constraints: &[ConstraintDef], constraint_name: &str) -> (r: usize)
    requires
        has_constraint(constraints@, constraint_name@),
    ensures
        first_index(constraints@, named(constraint_name@)) == Some(r as int),
        r < constraints@.len(),
        constraints@[r as int].name@ == constraint_name@,
{
    let ghost p = named(constraint_name@);
    let mut k: usize = 0;
    while k < constraints.len()
        invariant
            k <= constraints.len(),
            p == named(constraint_name@),
            has_constraint(constraints@, constraint_name@),
            forall|j: int| 0 <= j < k ==> !p(#[trigger] constraints@[j]),
        decreases constraints.len() - k,
    {
        if str_eq(constraints[k].name.as_str(), constraint_name) {
            proof {
                lemma_first_index(constraints@, p, k as int);
            }
            return k;
        }
        k += 1;
    }
    proof {
        let w = choose|w: int| 0 <= w < constraints@.len() && #[trigger] constraints@[w].name@
            == constraint_name@;
        assert(p(constraints@[w]));
    }
    0
}

/// Finds constraint definition by constraint name (the first with that name).
pub fn find_constraint_def<'a>(config: &'a TypeConfig, constraint_name: &str) -> (r:
    &'a ConstraintDef)
    requires
        has_constraint(config.constraints@, constraint_name@),
    ensures
        *r == config.constraints@[constraint_position(config.constraints@, constraint_name@)],
{
    let k = find_constraint_index(&config.constraints, constraint_name);
    &config.constraints[k]
}

/// Holds of types built for the given float type.
pub open spec fn has_float(float_type: Seq<char>) -> spec_fn(TypeDef) -> bool {
    |t: TypeDef| views_of(t.float_types@).contains(float_type)
}

/// The types of a list of references.
pub open spec fn deref_types(s: Seq<&TypeDef>) -> Seq<TypeDef> {
    s.map_values(|t: &TypeDef| *t)
}

fn contains_name(names: &[String], name: &str) -> (r: bool)
    ensures
        r == views_of(names@).contains(name@),
{
    let mut k: usize = 0;
    while k < names.len()
        invariant
            k <= names.len(),
            forall|j: int| 0 <= j < k ==> names@[j]@ != name@,
        decreases names.len() - k,
    {
        if str_eq(names[k].as_str(), name) {
            assert(views_of(names@)[k as int] == name@);
            return true;
        }
        k += 1;
    }
    assert(!views_of(names@).contains(name@)) by {
        if views_of(names@).contains(name@) {
            let j = choose|j: int| 0 <= j < views_of(names@).len() && views_of(names@)[j] == name@;
            assert(names@[j]@ == name@);
        }
    }
    false
}

/// Filters constraint types that include the specified floating-point type.
pub fn filter_constraint_types_by_float<'a>(config: &'a TypeConfig, float_type: &str) -> (r: Vec<
    &'a TypeDef,
>)
    ensures
        deref_types(r@) == config.constraint_types@.filter(has_float(float_type@)),
{
    let ghost p = has_float(float_type@);
    let types = &config.constraint_types;
    let mut r: Vec<&TypeDef> = Vec::new();
    let mut i: usize = 0;
    while i < types.len()
        invariant
            i <= types.len(),
            types == &config.constraint_types,
            p == has_float(float_type@),
            deref_types(r@) == types@.take(i as int).filter(p),
        decreases types.len() - i,
    {
        proof {
            types@.take(i as int).lemma_filter_push(types@[i as int], p);
            assert(types@.take(i as int + 1) == types@.take(i as int).push(types@[i as int]));
        }
        if contains_name(&types[i].float_types, float_type) {
            r.push(&types[i]);
        }
        assert(deref_types(r@) =~= types@.take(i as int + 1).filter(p));
        i += 1;
    }
    assert(types@.take(i as int) == types@);
    r
}

/// One constraint type instantiated for one float type.
#[derive(Debug, Clone)]
pub struct TypeInstance {
    /// The type name (such as `Positive`).
    pub name: String,
    /// The float type (such as `f32`).
    pub float_type: String,
    /// Position of the type's constraint in the configuration.
    pub constraint: usize,
}

/// The view of a type instance: name, float type and constraint position.
pub open spec fn instance_view(t: TypeInstance) -> (Seq<char>, Seq<char>, int) {
    (t.name@, t.float_type@, t.constraint as int)
}

/// The views of a list of type instances.
pub open spec fn instance_views(s: Seq<TypeInstance>) -> Seq<(Seq<char>, Seq<char>, int)> {
    s.map_values(|t: TypeInstance| instance_view(t))
}

/// The instances of one type: one per float type, in order.
pub open spec fn type_instances(cs: Seq<ConstraintDef>, t: TypeDef) -> Seq<(Seq<char>, Seq<char>, int)> {
    t.float_types@.map_values(
        |f: String| (t.name@, f@, constraint_position(cs, t.constraint_name@)),
    )
}

/// All instances: every type, and within it every float type, in order.
pub open spec fn all_instances(config: TypeConfig) -> Seq<(Seq<char>, Seq<char>, int)> {
    config.constraint_types@.map_values(|t: TypeDef| type_instances(config.constraints@, t)).flatten()
}

/// Iterates over all constraint types and their float types, giving for each
/// combination the type name, the float type and the type's constraint.
pub fn for_all_constraint_float_types(config: &TypeConfig) -> (r: Vec<TypeInstance>)
    requires
        config.wf(),
    ensures
        instance_views(r@) == all_instances(*config),
{
    let types = &config.constraint_types;
    let ghost rows = types@.map_values(|t: TypeDef| type_instances(config.constraints@, t));
    let mut out: Vec<TypeInstance> = Vec::new();
    let mut i: usize = 0;
    while i < types.len()
        invariant
            i <= types.len(),
            types == &config.constraint_types,
            config.wf(),
            rows == types@.map_values(|t: TypeDef| type_instances(config.constraints@, t)),
            instance_views(out@) == rows.take(i as int).flatten(),
        decreases types.len() - i,
    {
        let t = &types[i];
        proof {
            config.lemma_wf();
        }
        assert(has_constraint(config.constraints@, types@[i as int].constraint_name@));
        let c = find_constraint_index(&config.constraints, t.constraint_name.as_str());
        let ghost before = instance_views(out@);
        let mut j: usize = 0;
        while j < t.float_types.len()
            invariant
                j <= t.float_types.len(),
                instance_views(out@) == before + type_instances(
                    config.constraints@,
                    *t,
                ).take(j as int),
                c as int == constraint_position(config.constraints@, t.constraint_name@),
            decreases t.float_types.len() - j,
        {
            let ghost prev = out@;
            let inst = TypeInstance {
                name: t.name.clone(),
                float_type: t.float_types[j].clone(),
                constraint: c,
            };
            assert(instance_view(inst) == type_instances(config.constraints@, *t)[j as int]);
            out.push(inst);
            assert(instance_views(out@) =~= instance_views(prev).push(instance_view(inst)));
            assert(instance_views(out@) =~= before + type_instances(
                config.constraints@,
                *t,
            ).take(j as int + 1));
            j += 1;
        }
        proof {
            assert(type_instances(config.constraints@, *t).take(j as int) == type_instances(
                config.constraints@,
                *t,
            ));
            assert(rows.take(i as int + 1) == rows.take(i as int).push(rows[i as int]));
        }
        i += 1;
    }
    assert(rows.take(i as int) == rows);
    out
}

/// One comparison of a value against a bound in a validation expression.
#[derive(Debug, Clone, Copy, PartialEq, Eq, Structural)]
pub struct BoundCheck {
    /// Key of the bound.
    pub bound: i64,
    /// Whether the bound is a lower bound.
    pub is_lower: bool,
    /// Whether the comparison is strict (`>` or `<`).
    pub strict: bool,
    /// Whether value and bound are widened to `f64` before comparing (for `f32`).
    pub widen: bool,
}

/// One check of a validation expression; the expression is their conjunction.
#[derive(Debug, Clone, Copy, PartialEq, Eq, Structural)]
pub enum ValidationCheck {
    /// `value.is_finite()`
    IsFinite,
    /// A comparison against a bound.
    Bound(BoundCheck),
    /// `value != 0.0`
    NonZero,
}

/// `f32`
pub open spec fn f32_name() -> Seq<char> {
    seq!['f', '3', '2']
}

/// The comparison against one bound: strict exactly when zero is excluded
/// and the bound is zero.
pub open spec fn bound_check(bound: i64, is_lower: bool, excludes_zero: bool, float_type: Seq<char>) -> BoundCheck {
    BoundCheck {
        bound,
        is_lower,
        strict: excludes_zero && bound == 0,
        widen: float_type == f32_name(),
    }
}

/// Builds a single boundary check.
pub fn build_bound_check(bound: i64, is_lower: bool, excludes_zero: bool, float_type: &str) -> (r:
    BoundCheck)
    ensures
        r == bound_check(bound, is_lower, excludes_zero, float_type@),
{
    let is_f32 = crate::text::chars_eq(&chars_of(float_type), &['f', '3', '2']);
    proof {
        assert(['f', '3', '2']@ =~= f32_name());
    }
    BoundCheck { bound, is_lower, strict: excludes_zero && bound == 0, widen: is_f32 }
}

/// Whether zero exclusion needs its own check: not when a zero bound with a
/// strict comparison already excludes it.
pub open spec fn explicit_zero_check_needed(c: ConstraintDef) -> bool {
    !(c.bounds.lower == Some(0i64) && c.excludes_zero) && !(c.bounds.upper == Some(0i64)
        && c.excludes_zero)
}

/// Checks if an explicit zero check is needed.
pub fn needs_explicit_zero_check(constraint_def: &ConstraintDef) -> (r: bool)
    ensures
        r == explicit_zero_check_needed(*constraint_def),
{
    let lower_excludes_zero = constraint_def.bounds.lower == Some(0i64)
        && constraint_def.excludes_zero;
    let upper_excludes_zero = constraint_def.bounds.upper == Some(0i64)
        && constraint_def.excludes_zero;
    !lower_excludes_zero && !upper_excludes_zero
}

/// The checks of the validation expression of a constraint: finiteness,
/// the lower bound, the upper bound, and zero unless a bound covers it.
pub open spec fn validation_checks(c: ConstraintDef, float_type: Seq<char>) -> Seq<ValidationCheck> {
    let lower = match c.bounds.lower {
        Some(l) => seq![ValidationCheck::Bound(bound_check(l, true, c.excludes_zero, float_type))],
        None => Seq::empty(),
    };
    let upper = match c.bounds.upper {
        Some(u) => seq![ValidationCheck::Bound(bound_check(u, false, c.excludes_zero, float_type))],
        None => Seq::empty(),
    };
    let zero = if c.excludes_zero && explicit_zero_check_needed(c) {
        seq![ValidationCheck::NonZero]
    } else {
        Seq::empty()
    };
    seq![ValidationCheck::IsFinite] + lower + upper + zero
}

/// Whether a value (given by its key) passes one check.
pub open spec fn check_holds(check: ValidationCheck, key: int) -> bool {
    match check {
        ValidationCheck::IsFinite => crate::float_key::is_finite_key(key),
        ValidationCheck::Bound(b) => is_ordered_key(b.bound as int) && if b.is_lower {
            if b.strict {
                key > b.bound
            } else {
                key >= b.bound
            }
        } else {
            if b.strict {
                key < b.bound
            } else {
                key <= b.bound
            }
        },
        ValidationCheck::NonZero => key != 0,
    }
}

/// Whether a value passes every check of a list.
pub open spec fn checks_hold(checks: Seq<ValidationCheck>, key: int) -> bool {
    forall|k: int| 0 <= k < checks.len() ==> check_holds(#[trigger] checks[k], key)
}

/// The validation expression of a type accepts exactly the values that
/// satisfy its constraint, for either float type.
pub proof fn law_validation_matches_constraint(c: ConstraintDef, float_type: Seq<char>, key: int)
    requires
        ordered_bounds(c.bounds),
    ensures
        checks_hold(validation_checks(c, float_type), key) <==> crate::constants::value_satisfies(
            key,
            c,
        ),
{
    let checks = validation_checks(c, float_type);
    if checks_hold(checks, key) {
        assert(check_holds(checks[0], key));
        let mut n: int = 1;
        if let Some(l) = c.bounds.lower {
            assert(check_holds(checks[n], key));
            n = n + 1;
        }
        if let Some(u) = c.bounds.upper {
            assert(check_holds(checks[n], key));
            n = n + 1;
        }
        if c.excludes_zero && explicit_zero_check_needed(c) {
            assert(check_holds(checks[n], key));
        }
    }
}

/// A conversion to a containing constraint always succeeds: every value
/// that passes the validation of the source type passes that of the target
/// type, for either float type.
pub proof fn law_contained_conversion_validates(
    source: ConstraintDef,
    target: ConstraintDef,
    float_type: Seq<char>,
    key: int,
)
    requires
        ordered_bounds(source.bounds),
        ordered_bounds(target.bounds),
        crate::conversion::contained_in(source, target),
        checks_hold(validation_checks(source, float_type), key),
    ensures
        checks_hold(validation_checks(target, float_type), key),
{
    law_validation_matches_constraint(source, float_type, key);
    crate::constants::law_constants_follow_containment(key, source, target);
    law_validation_matches_constraint(target, float_type, key);
}

/// Builds the validation expression of a constraint, as its list of checks.
pub fn build_validation_expr(constraint_def: &ConstraintDef, float_type: &str) -> (r: Vec<
    ValidationCheck,
>)
    ensures
        r@ == validation_checks(*constraint_def, float_type@),
{
    let mut checks: Vec<ValidationCheck> = Vec::new();
    checks.push(ValidationCheck::IsFinite);
    let ghost s0 = checks@;
    if let Some(lower) = constraint_def.bounds.lower {
        checks.push(
            ValidationCheck::Bound(
                build_bound_check(lower, true, constraint_def.excludes_zero, float_type),
            ),
        );
    }
    let ghost s1 = checks@;
    if let Some(upper) = constraint_def.bounds.upper {
        checks.push(
            ValidationCheck::Bound(
                build_bound_check(upper, false, constraint_def.excludes_zero, float_type),
            ),
        );
    }
    let ghost s2 = checks@;
    if constraint_def.excludes_zero && needs_explicit_zero_check(constraint_def) {
        checks.push(ValidationCheck::NonZero);
    }
    assert(checks@ =~= validation_checks(*constraint_def, float_type@));
    checks
}

/// One arithmetic trait implementation to emit: `lhs op rhs -> output`.
#[derive(Debug, Clone)]
pub struct ArithmeticImpl {
    /// Left operand type.
    pub lhs: String,
    /// Right operand type.
    pub rhs: String,
    /// Output type.
    pub output: String,
    /// The operator.
    pub op: ArithmeticOp,
    /// Whether the operation is safe (returns the output directly).
    pub is_safe: bool,
    /// Whether a primitive float stands on the left.
    pub reversed: bool,
}

/// The view of an implementation to emit.
pub type ImplView = (Seq<char>, Seq<char>, Seq<char>, ArithmeticOp, bool, bool);

/// The view of an implementation to emit.
pub open spec fn impl_view(x: ArithmeticImpl) -> ImplView {
    (x.lhs@, x.rhs@, x.output@, x.op, x.is_safe, x.reversed)
}

/// The views of a list of implementations.
pub open spec fn impl_views(s: Seq<ArithmeticImpl>) -> Seq<ImplView> {
    s.map_values(|x: ArithmeticImpl| impl_view(x))
}

/// The stored result for `op` with operands named `l` and `r`, where both
/// names belong to constraints (the last constraint of each name counts).
pub open spec fn lookup_result(config: TypeConfig, op: ArithmeticOp, l: Seq<char>, r: Seq<char>) -> Option<
    ArithmeticResult,
> {
    let cs = config.constraints@;
    match (last_index_of(cs, l), last_index_of(cs, r)) {
        (Some(i), Some(j)) => Some(
            config.arithmetic_results@[result_index(cs.len() as int, op, i, j)],
        ),
        _ => None,
    }
}

/// The entry for `lt op rt` on float type `f`, with the stored result `res`.
pub open spec fn pair_entry(
    lt: Seq<char>,
    rt: Seq<char>,
    f: Seq<char>,
    op: ArithmeticOp,
    res: ArithmeticResult,
) -> ImplView {
    (type_alias(lt, f), type_alias(rt, f), type_alias(res.output_type@, f), op, res.is_safe, false)
}

/// The entries for operands named `lt` and `rt`: one per float type.
pub open spec fn float_entries(
    lt: Seq<char>,
    rt: Seq<char>,
    floats: Seq<String>,
    op: ArithmeticOp,
    res: ArithmeticResult,
) -> Seq<ImplView> {
    floats.map_values(|f: String| pair_entry(lt, rt, f@, op, res))
}

/// The entries for `lt op rt`: one per float type of `lt`.
pub open spec fn float_row(config: TypeConfig, op: ArithmeticOp, lt: TypeDef, rt: TypeDef) -> Seq<
    ImplView,
> {
    float_entries(
        lt.name@,
        rt.name@,
        lt.float_types@,
        op,
        lookup_result(config, op, lt.name@, rt.name@)->0,
    )
}

/// The entries for `lt` and `rt`: for every operator, its float row.
pub open spec fn ops_row(config: TypeConfig, ops: Seq<ArithmeticOp>, lt: TypeDef, rt: TypeDef) -> Seq<
    ImplView,
> {
    ops.map_values(|op: ArithmeticOp| float_row(config, op, lt, rt)).flatten()
}

/// The entries with left type `lt`: for every right type, its operator row.
pub open spec fn rhs_row(config: TypeConfig, ops: Seq<ArithmeticOp>, lt: TypeDef) -> Seq<ImplView> {
    config.constraint_types@.map_values(|rt: TypeDef| ops_row(config, ops, lt, rt)).flatten()
}

/// All entries between constraint types: for every left type, its row.
pub open spec fn all_types_plan(config: TypeConfig, ops: Seq<ArithmeticOp>) -> Seq<ImplView> {
    config.constraint_types@.map_values(|lt: TypeDef| rhs_row(config, ops, lt)).flatten()
}

proof fn lemma_has_last_index(cs: Seq<ConstraintDef>, name: Seq<char>)
    requires
        has_constraint(cs, name),
    ensures
        last_index_of(cs, name) is Some,
        last_index_of(cs, name)->0 < cs.len(),
        0 <= last_index_of(cs, name)->0,
{
    reveal(last_index_of);
    let w = choose|k: int| 0 <= k < cs.len() && #[trigger] cs[k].name@ == name;
    // the last position with the name exists: walk up from a known one
    assert(exists|k: int|
        0 <= k < cs.len() && #[trigger] cs[k].name@ == name && forall|m: int|
            k < m < cs.len() ==> #[trigger] cs[m].name@ != name) by {
        lemma_last_exists(cs, name, w);
    }
}

proof fn lemma_last_exists(cs: Seq<ConstraintDef>, name: Seq<char>, w: int)
    requires
        0 <= w < cs.len(),
        cs[w].name@ == name,
    ensures
        exists|k: int|
            0 <= k < cs.len() && #[trigger] cs[k].name@ == name && forall|m: int|
                k < m < cs.len() ==> #[trigger] cs[m].name@ != name,
    decreases cs.len() - w,
{
    if exists|m: int| w < m < cs.len() && #[trigger] cs[m].name@ == name {
        let m = choose|m: int| w < m < cs.len() && #[trigger] cs[m].name@ == name;
        lemma_last_exists(cs, name, m);
    } else {
        assert(forall|m: int| w < m < cs.len() ==> #[trigger] cs[m].name@ != name);
    }
}

fn lookup<'a>(config: &'a TypeConfig, op: ArithmeticOp, lhs: &str, rhs: &str) -> (r: &'a ArithmeticResult)
    requires
        config.wf(),
        has_constraint(config.constraints@, lhs@),
        has_constraint(config.constraints@, rhs@),
    ensures
        lookup_result(*config, op, lhs@, rhs@) == Some(*r),
{
    proof {
        lemma_has_last_index(config.constraints@, lhs@);
        lemma_has_last_index(config.constraints@, rhs@);
    }
    config.get_arithmetic_result(op, lhs, rhs).unwrap()
}

fn push_float_entries(
    lt: &str,
    rt: &str,
    floats: &[String],
    op: ArithmeticOp,
    result: &ArithmeticResult,
    out: &mut Vec<ArithmeticImpl>,
)
    ensures
        impl_views(final(out)@) == impl_views(old(out)@) + float_entries(
            lt@,
            rt@,
            floats@,
            op,
            *result,
        ),
{
    let ghost row = float_entries(lt@, rt@, floats@, op, *result);
    let mut k: usize = 0;
    while k < floats.len()
        invariant
            k <= floats.len(),
            row == float_entries(lt@, rt@, floats@, op, *result),
            impl_views(out@) == impl_views(old(out)@) + row.take(k as int),
        decreases floats.len() - k,
    {
        let f = floats[k].as_str();
        let entry = ArithmeticImpl {
            lhs: make_type_alias(lt, f),
            rhs: make_type_alias(rt, f),
            output: make_type_alias(result.output_type.as_str(), f),
            op,
            is_safe: result.is_safe,
            reversed: false,
        };
        let ghost prev = out@;
        out.push(entry);
        assert(impl_view(entry) == row[k as int]);
        assert(impl_views(out@) =~= impl_views(prev).push(impl_view(entry)));
        assert(row.take(k as int + 1) == row.take(k as int).push(row[k as int]));
        k += 1;
    }
    assert(row.take(k as int) == row);
}

fn push_float_row(
    config: &TypeConfig,
    op: ArithmeticOp,
    lt: &TypeDef,
    rt: &TypeDef,
    out: &mut Vec<ArithmeticImpl>,
)
    requires
        config.wf(),
        has_constraint(config.constraints@, lt.name@),
        has_constraint(config.constraints@, rt.name@),
    ensures
        impl_views(final(out)@) == impl_views(old(out)@) + float_row(*config, op, *lt, *rt),
{
    let result = lookup(config, op, lt.name.as_str(), rt.name.as_str());
    push_float_entries(lt.name.as_str(), rt.name.as_str(), &lt.float_types, op, result, out);
}

fn push_ops_row(
    config: &TypeConfig,
    ops: &[ArithmeticOp],
    lt: &TypeDef,
    rt: &TypeDef,
    out: &mut Vec<ArithmeticImpl>,
)
    requires
        config.wf(),
        has_constraint(config.constraints@, lt.name@),
        has_constraint(config.constraints@, rt.name@),
    ensures
        impl_views(final(out)@) == impl_views(old(out)@) + ops_row(*config, ops@, *lt, *rt),
{
    let ghost rows = ops@.map_values(|op: ArithmeticOp| float_row(*config, op, *lt, *rt));
    let mut k: usize = 0;
    while k < ops.len()
        invariant
            k <= ops.len(),
            config.wf(),
            has_constraint(config.constraints@, lt.name@),
            has_constraint(config.constraints@, rt.name@),
            rows == ops@.map_values(|op: ArithmeticOp| float_row(*config, op, *lt, *rt)),
            impl_views(out@) == impl_views(old(out)@) + rows.take(k as int).flatten(),
        decreases ops.len() - k,
    {
        let ghost prev = impl_views(out@);
        push_float_row(config, ops[k], lt, rt, out);
        proof {
            assert(rows.take(k as int + 1) == rows.take(k as int).push(rows[k as int]));
            assert(impl_views(out@) =~= impl_views(old(out)@) + rows.take(k as int + 1).flatten());
        }
        k += 1;
    }
    assert(rows.take(k as int) == rows);
}

fn push_rhs_row(
    config: &TypeConfig,
    ops: &[ArithmeticOp],
    lt: &TypeDef,
    out: &mut Vec<ArithmeticImpl>,
)
    requires
        config.wf(),
        has_constraint(config.constraints@, lt.name@),
    ensures
        impl_views(final(out)@) == impl_views(old(out)@) + rhs_row(*config, ops@, *lt),
{
    let types = &config.constraint_types;
    let ghost rows = types@.map_values(|rt: TypeDef| ops_row(*config, ops@, *lt, rt));
    let mut k: usize = 0;
    while k < types.len()
        invariant
            k <= types.len(),
            types == &config.constraint_types,
            config.wf(),
            has_constraint(config.constraints@, lt.name@),
            rows == types@.map_values(|rt: TypeDef| ops_row(*config, ops@, *lt, rt)),
            impl_views(out@) == impl_views(old(out)@) + rows.take(k as int).flatten(),
        decreases types.len() - k,
    {
        proof {
            config.lemma_wf();
        }
        assert(has_constraint(config.constraints@, types@[k as int].name@));
        push_ops_row(config, ops, lt, &types[k], out);
        proof {
            assert(rows.take(k as int + 1) == rows.take(k as int).push(rows[k as int]));
            assert(impl_views(out@) =~= impl_views(old(out)@) + rows.take(k as int + 1).flatten());
        }
        k += 1;
    }
    assert(rows.take(k as int) == rows);
}

/// Lists the arithmetic implementations between constraint types: for every
/// left type, right type, operator of `ops` and float type of the left type,
/// in this order, the operand aliases, the output alias of the stored result
/// and its safety.
pub fn generate_arithmetic_for_all_types(config: &TypeConfig, ops: &[ArithmeticOp]) -> (r: Vec<
    ArithmeticImpl,
>)
    requires
        config.wf(),
    ensures
        impl_views(r@) == all_types_plan(*config, ops@),
{
    let types = &config.constraint_types;
    let ghost rows = types@.map_values(|lt: TypeDef| rhs_row(*config, ops@, lt));
    let mut out: Vec<ArithmeticImpl> = Vec::new();
    let mut k: usize = 0;
    assert(impl_views(out@) =~= rows.take(0).flatten());
    while k < types.len()
        invariant
            k <= types.len(),
            types == &config.constraint_types,
            config.wf(),
            rows == types@.map_values(|lt: TypeDef| rhs_row(*config, ops@, lt)),
            impl_views(out@) == rows.take(k as int).flatten(),
        decreases types.len() - k,
    {
        proof {
            config.lemma_wf();
        }
        assert(has_constraint(config.constraints@, types@[k as int].name@));
        push_rhs_row(config, ops, &types[k], &mut out);
        proof {
            assert(rows.take(k as int + 1) == rows.take(k as int).push(rows[k as int]));
        }
        k += 1;
    }
    assert(rows.take(k as int) == rows);
    out
}

/// The primitive float types, in order: `f32`, `f64`.
pub open spec fn primitive_names() -> Seq<Seq<char>> {
    seq![seq!['f', '3', '2'], seq!['f', '6', '4']]
}

/// The entry for a constraint type named `name` and the primitive `prim`
/// on float type `f`: `name op prim`, or `prim op name` when reversed.
pub open spec fn primitive_entry(
    name: Seq<char>,
    prim: Seq<char>,
    f: Seq<char>,
    op: ArithmeticOp,
    res: ArithmeticResult,
    reversed: bool,
) -> ImplView {
    if reversed {
        (prim, type_alias(name, f), type_alias(res.output_type@, f), op, res.is_safe, true)
    } else {
        (type_alias(name, f), prim, type_alias(res.output_type@, f), op, res.is_safe, false)
    }
}

/// The entries for the float types of a constraint type that equal `prim`.
pub open spec fn primitive_entries(
    name: Seq<char>,
    floats: Seq<String>,
    prim: Seq<char>,
    op: ArithmeticOp,
    res: ArithmeticResult,
    reversed: bool,
) -> Seq<ImplView> {
    floats.map_values(primitive_entry_if(name, prim, op, res, reversed)).flatten()
}

/// For a float type `f`: the entry on `f` if it is `prim`, else none.
pub open spec fn primitive_entry_if(
    name: Seq<char>,
    prim: Seq<char>,
    op: ArithmeticOp,
    res: ArithmeticResult,
    reversed: bool,
) -> spec_fn(String) -> Seq<ImplView> {
    |f: String|
        if f@ == prim {
            seq![primitive_entry(name, prim, f@, op, res, reversed)]
        } else {
            Seq::empty()
        }
}

/// The stored result used for a constraint type with a primitive: the
/// primitive counts as `Fin`.
pub open spec fn primitive_result(
    config: TypeConfig,
    op: ArithmeticOp,
    name: Seq<char>,
    reversed: bool,
) -> Option<ArithmeticResult> {
    if reversed {
        lookup_result(config, op, crate::arithmetic::fallback_name(), name)
    } else {
        lookup_result(config, op, name, crate::arithmetic::fallback_name())
    }
}

/// The entries for a constraint type and a primitive: for every operator
/// with a stored result, the matching float entries.
pub open spec fn primitive_ops_row(
    config: TypeConfig,
    ops: Seq<ArithmeticOp>,
    name: Seq<char>,
    floats: Seq<String>,
    prim: Seq<char>,
    reversed: bool,
) -> Seq<ImplView> {
    ops.map_values(
        |op: ArithmeticOp|
            match primitive_result(config, op, name, reversed) {
                Some(res) => primitive_entries(name, floats, prim, op, res, reversed),
                None => Seq::empty(),
            },
    ).flatten()
}

/// Constraint type on the left: for every type, every primitive, its row.
pub open spec fn primitive_plan_left(config: TypeConfig, ops: Seq<ArithmeticOp>) -> Seq<ImplView> {
    config.constraint_types@.map_values(
        |t: TypeDef|
            primitive_names().map_values(
                |p: Seq<char>| primitive_ops_row(config, ops, t.name@, t.float_types@, p, false),
            ).flatten(),
    ).flatten()
}

/// Primitive on the left: for every primitive, every type, its row.
pub open spec fn primitive_plan_right(config: TypeConfig, ops: Seq<ArithmeticOp>) -> Seq<ImplView> {
    primitive_names().map_values(
        |p: Seq<char>|
            config.constraint_types@.map_values(
                |t: TypeDef| primitive_ops_row(config, ops, t.name@, t.float_types@, p, true),
            ).flatten(),
    ).flatten()
}

proof fn lemma_flatten_member<A>(s: Seq<Seq<A>>, x: A)
    requires
        s.flatten().contains(x),
    ensures
        exists|i: int| 0 <= i < s.len() && #[trigger] s[i].contains(x),
    decreases s.len(),
{
    if s.len() > 0 {
        let f = s.first();
        let rest = s.drop_first();
        assert(s.flatten() == f + rest.flatten());
        let k = choose|k: int| 0 <= k < s.flatten().len() && s.flatten()[k] == x;
        if k < f.len() {
            assert(f[k] == x);
            assert(s[0].contains(x));
        } else {
            assert(rest.flatten()[k - f.len()] == x);
            lemma_flatten_member(rest, x);
            let i = choose|i: int| 0 <= i < rest.len() && #[trigger] rest[i].contains(x);
            assert(s[i + 1] == rest[i]);
        }
    }
}

/// Every entry built for a primitive `prim` is the entry on `prim` itself.
proof fn lemma_primitive_entries_member(
    name: Seq<char>,
    floats: Seq<String>,
    prim: Seq<char>,
    op: ArithmeticOp,
    res: ArithmeticResult,
    reversed: bool,
    e: ImplView,
)
    requires
        primitive_entries(name, floats, prim, op, res, reversed).contains(e),
    ensures
        e == primitive_entry(name, prim, prim, op, res, reversed),
{
    let entries = floats.map_values(primitive_entry_if(name, prim, op, res, reversed));
    lemma_flatten_member(entries, e);
    let q = choose|q: int| 0 <= q < entries.len() && #[trigger] entries[q].contains(e);
    assert(floats[q]@ == prim);
}

/// The entries of one operator row for a constraint type named `name` and a
/// primitive `prim`: each is `prim op name` (primitive on the left) or
/// `name op prim`, with the output and safety stored for `Fin op name` or
/// `name op Fin` respectively.
proof fn lemma_primitive_row_entry(
    config: TypeConfig,
    ops: Seq<ArithmeticOp>,
    name: Seq<char>,
    floats: Seq<String>,
    prim: Seq<char>,
    reversed: bool,
    e: ImplView,
)
    requires
        primitive_ops_row(config, ops, name, floats, prim, reversed).contains(e),
    ensures
        ops.contains(e.3),
        e.5 == reversed,
        reversed ==> {
            &&& lookup_result(config, e.3, seq!['F', 'i', 'n'], name) is Some
            &&& e.0 == prim
            &&& e.1 == type_alias(name, prim)
            &&& e.2 == type_alias(
                lookup_result(config, e.3, seq!['F', 'i', 'n'], name)->0.output_type@,
                prim,
            )
            &&& e.4 == lookup_result(config, e.3, seq!['F', 'i', 'n'], name)->0.is_safe
        },
        !reversed ==> {
            &&& lookup_result(config, e.3, name, seq!['F', 'i', 'n']) is Some
            &&& e.0 == type_alias(name, prim)
            &&& e.1 == prim
            &&& e.2 == type_alias(
                lookup_result(config, e.3, name, seq!['F', 'i', 'n'])->0.output_type@,
                prim,
            )
            &&& e.4 == lookup_result(config, e.3, name, seq!['F', 'i', 'n'])->0.is_safe
        },
{
    let rows = ops.map_values(
        |op: ArithmeticOp|
            match primitive_result(config, op, name, reversed) {
                Some(res) => primitive_entries(name, floats, prim, op, res, reversed),
                None => Seq::empty(),
            },
    );
    lemma_flatten_member(rows, e);
    let m = choose|m: int| 0 <= m < rows.len() && #[trigger] rows[m].contains(e);
    let op = ops[m];
    assert(ops.contains(op));
    match primitive_result(config, op, name, reversed) {
        Some(res) => {
            assert(rows[m] == primitive_entries(name, floats, prim, op, res, reversed));
            lemma_primitive_entries_member(name, floats, prim, op, res, reversed, e);
        },
        None => {
            assert(rows[m] == Seq::<ImplView>::empty());
        },
    }
}

/// A primitive on the left of an operator counts as `Fin` and stays on the
/// left: every entry of the plan with a primitive on the left is
/// `prim op T` for a constraint type `T` built for that primitive, with the
/// output type and safety stored for `Fin op T` (not `T op Fin`).
pub proof fn law_primitive_on_left_uses_fin_op_type(
    config: TypeConfig,
    ops: Seq<ArithmeticOp>,
    e: ImplView,
)
    requires
        primitive_plan_right(config, ops).contains(e),
    ensures
        e.5,
        ops.contains(e.3),
        e.0 == seq!['f', '3', '2'] || e.0 == seq!['f', '6', '4'],
        exists|t: int|
            0 <= t < config.constraint_types@.len() && {
                let name = (#[trigger] config.constraint_types@[t]).name@;
                &&& lookup_result(config, e.3, seq!['F', 'i', 'n'], name) is Some
                &&& e.1 == type_alias(name, e.0)
                &&& e.2 == type_alias(
                    lookup_result(config, e.3, seq!['F', 'i', 'n'], name)->0.output_type@,
                    e.0,
                )
                &&& e.4 == lookup_result(config, e.3, seq!['F', 'i', 'n'], name)->0.is_safe
            },
{
    let types = config.constraint_types@;
    let outer = primitive_names().map_values(
        |p: Seq<char>|
            types.map_values(
                |t: TypeDef| primitive_ops_row(config, ops, t.name@, t.float_types@, p, true),
            ).flatten(),
    );
    lemma_flatten_member(outer, e);
    let i = choose|i: int| 0 <= i < outer.len() && #[trigger] outer[i].contains(e);
    let p = primitive_names()[i];
    let mid = types.map_values(
        |t: TypeDef| primitive_ops_row(config, ops, t.name@, t.float_types@, p, true),
    );
    assert(outer[i] == mid.flatten());
    lemma_flatten_member(mid, e);
    let t = choose|t: int| 0 <= t < mid.len() && #[trigger] mid[t].contains(e);
    lemma_primitive_row_entry(config, ops, types[t].name@, types[t].float_types@, p, true, e);
    assert(config.constraint_types@[t].name@ == types[t].name@);
}

/// A primitive on the right of an operator counts as `Fin`: every entry of
/// the plan with a primitive on the right is `T op prim` with the output
/// type and safety stored for `T op Fin`.
pub proof fn law_primitive_on_right_uses_type_op_fin(
    config: TypeConfig,
    ops: Seq<ArithmeticOp>,
    e: ImplView,
)
    requires
        primitive_plan_left(config, ops).contains(e),
    ensures
        !e.5,
        ops.contains(e.3),
        e.1 == seq!['f', '3', '2'] || e.1 == seq!['f', '6', '4'],
        exists|t: int|
            0 <= t < config.constraint_types@.len() && {
                let name = (#[trigger] config.constraint_types@[t]).name@;
                &&& lookup_result(config, e.3, name, seq!['F', 'i', 'n']) is Some
                &&& e.0 == type_alias(name, e.1)
                &&& e.2 == type_alias(
                    lookup_result(config, e.3, name, seq!['F', 'i', 'n'])->0.output_type@,
                    e.1,
                )
                &&& e.4 == lookup_result(config, e.3, name, seq!['F', 'i', 'n'])->0.is_safe
            },
{
    let types = config.constraint_types@;
    let outer = types.map_values(
        |t: TypeDef|
            primitive_names().map_values(
                |p: Seq<char>| primitive_ops_row(config, ops, t.name@, t.float_types@, p, false),
            ).flatten(),
    );
    lemma_flatten_member(outer, e);
    let t = choose|t: int| 0 <= t < outer.len() && #[trigger] outer[t].contains(e);
    let mid = primitive_names().map_values(
        |p: Seq<char>| primitive_ops_row(config, ops, types[t].name@, types[t].float_types@, p, false),
    );
    assert(outer[t] == mid.flatten());
    lemma_flatten_member(mid, e);
    let i = choose|i: int| 0 <= i < mid.len() && #[trigger] mid[i].contains(e);
    let p = primitive_names()[i];
    lemma_primitive_row_entry(config, ops, types[t].name@, types[t].float_types@, p, false, e);
    assert(config.constraint_types@[t].name@ == types[t].name@);
}

fn push_primitive_entries(
    name: &str,
    floats: &[String],
    prim: &str,
    op: ArithmeticOp,
    result: &ArithmeticResult,
    reversed: bool,
    out: &mut Vec<ArithmeticImpl>,
)
    ensures
        impl_views(final(out)@) == impl_views(old(out)@) + primitive_entries(
            name@,
            floats@,
            prim@,
            op,
            *result,
            reversed,
        ),
{
    let ghost rows = floats@.map_values(primitive_entry_if(name@, prim@, op, *result, reversed));
    let mut k: usize = 0;
    while k < floats.len()
        invariant
            k <= floats.len(),
            rows == floats@.map_values(primitive_entry_if(name@, prim@, op, *result, reversed)),
            impl_views(out@) == impl_views(old(out)@) + rows.take(k as int).flatten(),
        decreases floats.len() - k,
    {
        let f = floats[k].as_str();
        let ghost prev = out@;
        if str_eq(f, prim) {
            let alias = make_type_alias(name, f);
            let output = make_type_alias(result.output_type.as_str(), f);
            let entry = if reversed {
                ArithmeticImpl {
                    lhs: string_of(&chars_of(prim)),
                    rhs: alias,
                    output,
                    op,
                    is_safe: result.is_safe,
                    reversed: true,
                }
            } else {
                ArithmeticImpl {
                    lhs: alias,
                    rhs: string_of(&chars_of(prim)),
                    output,
                    op,
                    is_safe: result.is_safe,
                    reversed: false,
                }
            };
            out.push(entry);
            assert(rows[k as int] == seq![impl_view(entry)]);
            assert(impl_views(out@) =~= impl_views(prev) + rows[k as int]);
        } else {
            assert(rows[k as int] == Seq::<ImplView>::empty());
            assert(impl_views(out@) =~= impl_views(prev) + rows[k as int]);
        }
        proof {
            assert(rows.take(k as int + 1) == rows.take(k as int).push(rows[k as int]));
        }
        k += 1;
    }
    assert(rows.take(k as int) == rows);
}

fn push_primitive_ops_row(
    config: &TypeConfig,
    ops: &[ArithmeticOp],
    name: &str,
    floats: &[String],
    prim: &str,
    reversed: bool,
    out: &mut Vec<ArithmeticImpl>,
)
    requires
        config.wf(),
    ensures
        impl_views(final(out)@) == impl_views(old(out)@) + primitive_ops_row(
            *config,
            ops@,
            name@,
            floats@,
            prim@,
            reversed,
        ),
{
    let ghost rows = ops@.map_values(
        |op: ArithmeticOp|
            match primitive_result(*config, op, name@, reversed) {
                Some(res) => primitive_entries(name@, floats@, prim@, op, res, reversed),
                None => Seq::empty(),
            },
    );
    let fin = string_of(&['F', 'i', 'n']);
    let mut k: usize = 0;
    while k < ops.len()
        invariant
            k <= ops.len(),
            config.wf(),
            fin@ == crate::arithmetic::fallback_name(),
            rows == ops@.map_values(
                |op: ArithmeticOp|
                    match primitive_result(*config, op, name@, reversed) {
                        Some(res) => primitive_entries(name@, floats@, prim@, op, res, reversed),
                        None => Seq::empty(),
                    },
            ),
            impl_views(out@) == impl_views(old(out)@) + rows.take(k as int).flatten(),
        decreases ops.len() - k,
    {
        let op = ops[k];
        let found = if reversed {
            config.get_arithmetic_result(op, fin.as_str(), name)
        } else {
            config.get_arithmetic_result(op, name, fin.as_str())
        };
        let ghost prev = impl_views(out@);
        match found {
            Some(res) => {
                push_primitive_entries(name, floats, prim, op, res, reversed, out);
            },
            None => {
                assert(impl_views(out@) =~= prev + Seq::<ImplView>::empty());
            },
        }
        proof {
            assert(rows.take(k as int + 1) == rows.take(k as int).push(rows[k as int]));
            assert(impl_views(out@) =~= impl_views(old(out)@) + rows.take(k as int + 1).flatten());
        }
        k += 1;
    }
    assert(rows.take(k as int) == rows);
}

fn primitive_strings() -> (r: Vec<String>)
    ensures
        views_of(r@) == primitive_names(),
{
    let mut r: Vec<String> = Vec::new();
    r.push(string_of(&['f', '3', '2']));
    r.push(string_of(&['f', '6', '4']));
    assert(views_of(r@) =~= primitive_names());
    r
}

/// Lists the arithmetic implementations between constraint types and the
/// primitive float types, a primitive counting as `Fin`: first each type
/// with each primitive on the right (types outermost), then each primitive
/// on the left with each type (primitives outermost); within, every
/// operator of `ops` that has a stored result, and every float type of the
/// constraint type equal to the primitive.
pub fn generate_arithmetic_for_primitive_types(config: &TypeConfig, ops: &[ArithmeticOp]) -> (r:
    Vec<ArithmeticImpl>)
    requires
        config.wf(),
    ensures
        impl_views(r@) == primitive_plan_left(*config, ops@) + primitive_plan_right(*config, ops@),
{
    let prims = primitive_strings();
    let types = &config.constraint_types;
    let mut out: Vec<ArithmeticImpl> = Vec::new();
    // 1. constraint type op primitive
    let ghost left_rows = types@.map_values(
        |t: TypeDef|
            primitive_names().map_values(
                |p: Seq<char>| primitive_ops_row(*config, ops@, t.name@, t.float_types@, p, false),
            ).flatten(),
    );
    let mut i: usize = 0;
    assert(impl_views(out@) =~= left_rows.take(0).flatten());
    while i < types.len()
        invariant
            i <= types.len(),
            types == &config.constraint_types,
            config.wf(),
            views_of(prims@) == primitive_names(),
            left_rows == types@.map_values(
                |t: TypeDef|
                    primitive_names().map_values(
                        |p: Seq<char>| primitive_ops_row(*config, ops@, t.name@, t.float_types@, p, false),
                    ).flatten(),
            ),
            impl_views(out@) == left_rows.take(i as int).flatten(),
        decreases types.len() - i,
    {
        let t = &types[i];
        let ghost before = impl_views(out@);
        let ghost prow = primitive_names().map_values(
            |p: Seq<char>| primitive_ops_row(*config, ops@, t.name@, t.float_types@, p, false),
        );
        let mut j: usize = 0;
        while j < prims.len()
            invariant
                j <= prims.len(),
                config.wf(),
                views_of(prims@) == primitive_names(),
                prow == primitive_names().map_values(
                    |p: Seq<char>| primitive_ops_row(*config, ops@, t.name@, t.float_types@, p, false),
                ),
                impl_views(out@) == before + prow.take(j as int).flatten(),
            decreases prims.len() - j,
        {
            assert(prims@[j as int]@ == primitive_names()[j as int]);
            push_primitive_ops_row(config, ops, t.name.as_str(), &t.float_types, prims[j].as_str(), false, &mut out);
            proof {
                assert(prow.take(j as int + 1) == prow.take(j as int).push(prow[j as int]));
                assert(impl_views(out@) =~= before + prow.take(j as int + 1).flatten());
            }
            j += 1;
        }
        proof {
            assert(prow.take(j as int) == prow);
            assert(left_rows[i as int] == prow.flatten());
            assert(left_rows.take(i as int + 1) == left_rows.take(i as int).push(left_rows[i as int]));
        }
        i += 1;
    }
    assert(left_rows.take(i as int) == left_rows);
    let ghost left = impl_views(out@);
    // 2. primitive op constraint type
    let ghost right_rows = primitive_names().map_values(
        |p: Seq<char>|
            types@.map_values(
                |t: TypeDef| primitive_ops_row(*config, ops@, t.name@, t.float_types@, p, true),
            ).flatten(),
    );
    let mut j: usize = 0;
    assert(impl_views(out@) =~= left + right_rows.take(0).flatten());
    while j < prims.len()
        invariant
            j <= prims.len(),
            types == &config.constraint_types,
            config.wf(),
            views_of(prims@) == primitive_names(),
            right_rows == primitive_names().map_values(
                |p: Seq<char>|
                    types@.map_values(
                        |t: TypeDef| primitive_ops_row(*config, ops@, t.name@, t.float_types@, p, true),
                    ).flatten(),
            ),
            impl_views(out@) == left + right_rows.take(j as int).flatten(),
        decreases prims.len() - j,
    {
        let p = prims[j].as_str();
        assert(p@ == primitive_names()[j as int]);
        let ghost before = impl_views(out@);
        let ghost trow = types@.map_values(
            |t: TypeDef| primitive_ops_row(*config, ops@, t.name@, t.float_types@, p@, true),
        );
        let mut i: usize = 0;
        while i < types.len()
            invariant
                i <= types.len(),
                types == &config.constraint_types,
                config.wf(),
                trow == types@.map_values(
                    |t: TypeDef| primitive_ops_row(*config, ops@, t.name@, t.float_types@, p@, true),
                ),
                impl_views(out@) == before + trow.take(i as int).flatten(),
            decreases types.len() - i,
        {
            push_primitive_ops_row(config, ops, types[i].name.as_str(), &types[i].float_types, p, true, &mut out);
            proof {
                assert(trow.take(i as int + 1) == trow.take(i as int).push(trow[i as int]));
                assert(impl_views(out@) =~= before + trow.take(i as int + 1).flatten());
            }
            i += 1;
        }
        proof {
            assert(trow.take(i as int) == trow);
            assert(right_rows[j as int] == trow.flatten());
            assert(right_rows.take(j as int + 1) == right_rows.take(j as int).push(right_rows[j as int]));
            assert(impl_views(out@) =~= left + right_rows.take(j as int + 1).flatten());
        }
        j += 1;
    }
    assert(right_rows.take(j as int) == right_rows);
    out
}

/// One negation implementation to emit: `-source -> target`.
#[derive(Debug, Clone)]
pub struct NegationImpl {
    /// The negated type.
    pub source: String,
    /// The type of the negation.
    pub target: String,
}

/// The view of a negation implementation.
pub open spec fn negation_view(x: NegationImpl) -> (Seq<char>, Seq<char>) {
    (x.source@, x.target@)
}

/// The views of a list of negation implementations.
pub open spec fn negation_views(s: Seq<NegationImpl>) -> Seq<(Seq<char>, Seq<char>)> {
    s.map_values(|x: NegationImpl| negation_view(x))
}

/// The negation entries of one type: none when its constraint is missing or
/// has no negation, else one per float type.
pub open spec fn negation_row(cs: Seq<ConstraintDef>, t: TypeDef) -> Seq<(Seq<char>, Seq<char>)> {
    match first_index(cs, named(t.constraint_name@)) {
        Some(k) => match cs[k].neg_constraint_name {
            Some(n) => t.float_types@.map_values(
                |f: String| (type_alias(t.name@, f@), type_alias(n@, f@)),
            ),
            None => Seq::empty(),
        },
        None => Seq::empty(),
    }
}

/// All negation entries, type by type.
pub open spec fn negation_plan(config: TypeConfig) -> Seq<(Seq<char>, Seq<char>)> {
    config.constraint_types@.map_values(|t: TypeDef| negation_row(config.constraints@, t)).flatten()
}

fn find_constraint_position(constraints: &[ConstraintDef], constraint_name: &str) -> (r: Option<
    usize,
>)
    ensures
        match r {
            Some(k) => first_index(constraints@, named(constraint_name@)) == Some(k as int),
            None => first_index(constraints@, named(constraint_name@)) is None,
        },
{
    let ghost p = named(constraint_name@);
    let mut k: usize = 0;
    while k < constraints.len()
        invariant
            k <= constraints.len(),
            p == named(constraint_name@),
            forall|j: int| 0 <= j < k ==> !p(#[trigger] constraints@[j]),
        decreases constraints.len() - k,
    {
        if str_eq(constraints[k].name.as_str(), constraint_name) {
            proof {
                lemma_first_index(constraints@, p, k as int);
            }
            return Some(k);
        }
        k += 1;
    }
    proof {
        lemma_first_index(constraints@, p, k as int);
    }
    None
}

/// Lists the negation implementations: for every type whose constraint has a
/// negation, one per float type, from the type's alias to the alias of the
/// negation.
pub fn generate_negation_plan(config: &TypeConfig) -> (r: Vec<NegationImpl>)
    ensures
        negation_views(r@) == negation_plan(*config),
{
    let types = &config.constraint_types;
    let ghost rows = types@.map_values(|t: TypeDef| negation_row(config.constraints@, t));
    let mut out: Vec<NegationImpl> = Vec::new();
    let mut i: usize = 0;
    assert(negation_views(out@) =~= rows.take(0).flatten());
    while i < types.len()
        invariant
            i <= types.len(),
            types == &config.constraint_types,
            rows == types@.map_values(|t: TypeDef| negation_row(config.constraints@, t)),
            negation_views(out@) == rows.take(i as int).flatten(),
        decreases types.len() - i,
    {
        let t = &types[i];
        let ghost before = negation_views(out@);
        match find_constraint_position(&config.constraints, t.constraint_name.as_str()) {
            Some(k) => {
                proof {
                    lemma_first_index_found(config.constraints@, named(t.constraint_name@));
                }
                match &config.constraints[k].neg_constraint_name {
                    Some(neg) => {
                        let ghost row = t.float_types@.map_values(
                            |f: String| (type_alias(t.name@, f@), type_alias(neg@, f@)),
                        );
                        let mut j: usize = 0;
                        while j < t.float_types.len()
                            invariant
                                j <= t.float_types.len(),
                                row == t.float_types@.map_values(
                                    |f: String| (type_alias(t.name@, f@), type_alias(neg@, f@)),
                                ),
                                negation_views(out@) == before + row.take(j as int),
                            decreases t.float_types.len() - j,
                        {
                            let f = t.float_types[j].as_str();
                            let entry = NegationImpl {
                                source: make_type_alias(t.name.as_str(), f),
                                target: make_type_alias(neg.as_str(), f),
                            };
                            let ghost prev = out@;
                            out.push(entry);
                            assert(negation_views(out@) =~= negation_views(prev).push(
                                negation_view(entry),
                            ));
                            assert(row.take(j as int + 1) == row.take(j as int).push(row[j as int]));
                            j += 1;
                        }
                        assert(row.take(j as int) == row);
                        assert(rows[i as int] == row);
                    },
                    None => {
                        assert(rows[i as int] == Seq::<(Seq<char>, Seq<char>)>::empty());
                        assert(negation_views(out@) =~= before + rows[i as int]);
                    },
                }
            },
            None => {
                assert(rows[i as int] == Seq::<(Seq<char>, Seq<char>)>::empty());
                assert(negation_views(out@) =~= before + rows[i as int]);
            },
        }
        proof {
            assert(rows.take(i as int + 1) == rows.take(i as int).push(rows[i as int]));
        }
        i += 1;
    }
    assert(rows.take(i as int) == rows);
    out
}

} // verus!
