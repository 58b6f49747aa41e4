//! The configuration model: constraints, their sign and bounds, the types
//! built from them, and the table of arithmetic results.

use vstd::prelude::*;

use crate::float_key::is_ordered_key;

verus! {

/// Sign property of a constraint type.
#[derive(Debug, Clone, Copy, PartialEq, Eq, Structural)]
pub enum Sign {
    /// Non-negative values (>= 0)
    Positive,
    /// Non-positive values (<= 0)
    Negative,
    /// Any sign (including zero)
    Any,
}

/// Arithmetic operation type.
#[derive(Debug, Clone, Copy, PartialEq, Eq, Hash, Structural)]
pub enum ArithmeticOp {
    Add,
    Sub,
    Mul,
    Div,
}

/// Bound information for a constraint type, as order keys of the bounding
/// values (see `float_key`).
#[derive(Debug, Clone, Copy, PartialEq, Eq, Structural)]
pub struct Bounds {
    /// Lower bound (None means -∞)
    pub lower: Option<i64>,
    /// Upper bound (None means +∞)
    pub upper: Option<i64>,
}

/// Whether both bounds are present.
pub open spec fn bounded(b: Bounds) -> bool {
    b.lower is Some && b.upper is Some
}

/// Whether neither bound is present.
pub open spec fn unbounded(b: Bounds) -> bool {
    b.lower is None && b.upper is None
}

/// Whether every present bound is the key of a value that is not NaN.
pub open spec fn ordered_bounds(b: Bounds) -> bool {
    &&& (b.lower matches Some(l) ==> is_ordered_key(l as int))
    &&& (b.upper matches Some(u) ==> is_ordered_key(u as int))
}

impl Bounds {
    /// Check if this type is bounded (has both upper and lower bounds)
    pub fn is_bounded(&self) -> (r: bool)
        ensures
            r == bounded(*self),
    {
        self.lower.is_some() && self.upper.is_some()
    }
}

/// The method-name part of an arithmetic operator: trait name and method name.
pub open spec fn op_names(op: ArithmeticOp) -> (Seq<char>, Seq<char>) {
    match op {
        ArithmeticOp::Add => (seq!['A', 'd', 'd'], seq!['a', 'd', 'd']),
        ArithmeticOp::Sub => (seq!['S', 'u', 'b'], seq!['s', 'u', 'b']),
        ArithmeticOp::Mul => (seq!['M', 'u', 'l'], seq!['m', 'u', 'l']),
        ArithmeticOp::Div => (seq!['D', 'i', 'v'], seq!['d', 'i', 'v']),
    }
}

/// The four standard arithmetic operators in order, with their trait and
/// method names (`Add`/`add`, `Sub`/`sub`, `Mul`/`mul`, `Div`/`div`).
pub fn get_standard_arithmetic_ops() -> (r: [(ArithmeticOp, &'static str, &'static str); 4])
    ensures
        r[0].0 == ArithmeticOp::Add,
        r[1].0 == ArithmeticOp::Sub,
        r[2].0 == ArithmeticOp::Mul,
        r[3].0 == ArithmeticOp::Div,
        forall|i: int| 0 <= i < 4 ==> (#[trigger] r[i].1@, r[i].2@) == op_names(r[i].0),
{
    let r = [
        (ArithmeticOp::Add, "Add", "add"),
        (ArithmeticOp::Sub, "Sub", "sub"),
        (ArithmeticOp::Mul, "Mul", "mul"),
        (ArithmeticOp::Div, "Div", "div"),
    ];
    proof {
        reveal_strlit("Add");
        reveal_strlit("add");
        reveal_strlit("Sub");
        reveal_strlit("sub");
        reveal_strlit("Mul");
        reveal_strlit("mul");
        reveal_strlit("Div");
        reveal_strlit("div");
        assert(("Add"@, "add"@) == op_names(ArithmeticOp::Add));
        assert(("Sub"@, "sub"@) == op_names(ArithmeticOp::Sub));
        assert(("Mul"@, "mul"@) == op_names(ArithmeticOp::Mul));
        assert(("Div"@, "div"@) == op_names(ArithmeticOp::Div));
    }
    r
}

/// Result of arithmetic operation type inference.
#[derive(Debug, Clone)]
pub struct ArithmeticResult {
    /// Output constraint type name
    pub output_type: String,
    /// Whether this operation is safe (no overflow/divide-by-zero possible)
    pub is_safe: bool,
}

/// Single constraint definition.
#[derive(Debug, Clone)]
pub struct ConstraintDef {
    /// Constraint name.
    pub name: String,
    /// Name of the constraint type after negation (e.g., Positive -> Negative).
    pub neg_constraint_name: Option<String>,
    /// Normalized conditions as written (used for negation calculation).
    pub raw_conditions: Vec<String>,
    /// Sign property of this constraint.
    pub sign: Sign,
    /// Bound information of this constraint.
    pub bounds: Bounds,
    /// Whether this constraint excludes zero.
    pub excludes_zero: bool,
}

/// Type definition (single constraint).
#[derive(Debug, Clone)]
pub struct TypeDef {
    /// Type name.
    pub name: String,
    /// List of floating-point types.
    pub float_types: Vec<String>,
    /// Constraint name.
    pub constraint_name: String,
}

/// An alias for a constraint type.
#[derive(Debug, Clone)]
pub struct TypeAliasDef {
    /// Name of the aliased type.
    pub original_name: String,
    /// The alias.
    pub alias_name: String,
}

/// Main configuration structure.
///
/// `arithmetic_results` holds one result per operator and ordered pair of
/// constraints: the result for operator `op`, left constraint `i` and right
/// constraint `j` stands at `result_index(n, op, i, j)`, `n` being the
/// number of constraints.
pub struct TypeConfig {
    /// List of constraint definitions.
    pub constraints: Vec<ConstraintDef>,
    /// List of constraint type definitions.
    pub constraint_types: Vec<TypeDef>,
    /// Arithmetic operation results, indexed by operator and constraint pair.
    pub arithmetic_results: Vec<ArithmeticResult>,
    /// Type aliases.
    pub type_aliases: Vec<TypeAliasDef>,
}

/// The position of an operator in the standard order Add, Sub, Mul, Div.
pub open spec fn op_index(op: ArithmeticOp) -> int {
    match op {
        ArithmeticOp::Add => 0,
        ArithmeticOp::Sub => 1,
        ArithmeticOp::Mul => 2,
        ArithmeticOp::Div => 3,
    }
}

/// Where the result for `op` on constraints `i` and `j` is stored.
pub open spec fn result_index(n: int, op: ArithmeticOp, i: int, j: int) -> int {
    (i * n + j) * 4 + op_index(op)
}

/// Whether some constraint of the list has the given name.
pub open spec fn has_constraint(cs: Seq<ConstraintDef>, name: Seq<char>) -> bool {
    exists|k: int| 0 <= k < cs.len() && #[trigger] cs[k].name@ == name
}

/// The first position at or after `start` whose constraint satisfies `p`.
pub open spec fn first_index_from(
    cs: Seq<ConstraintDef>,
    p: spec_fn(ConstraintDef) -> bool,
    start: int,
) -> Option<int>
    decreases cs.len() - start,
{
    if start < 0 || start >= cs.len() {
        None
    } else if p(cs[start]) {
        Some(start)
    } else {
        first_index_from(cs, p, start + 1)
    }
}

/// The first position whose constraint satisfies `p`.
pub open spec fn first_index(cs: Seq<ConstraintDef>, p: spec_fn(ConstraintDef) -> bool) -> Option<
    int,
> {
    first_index_from(cs, p, 0)
}

/// The name of the first constraint satisfying `p`, if any.
pub open spec fn first_name(cs: Seq<ConstraintDef>, p: spec_fn(ConstraintDef) -> bool) -> Option<
    Seq<char>,
> {
    match first_index(cs, p) {
        Some(k) => Some(cs[k].name@),
        None => None,
    }
}

/// The first position satisfying `p` is the one before which none does.
pub proof fn lemma_first_index(cs: Seq<ConstraintDef>, p: spec_fn(ConstraintDef) -> bool, k: int)
    requires
        0 <= k <= cs.len(),
        forall|j: int| 0 <= j < k ==> !p(#[trigger] cs[j]),
    ensures
        k < cs.len() && p(cs[k]) ==> first_index(cs, p) == Some(k),
        k == cs.len() ==> first_index(cs, p) is None,
{
    lemma_first_index_from(cs, p, 0, k);
}

proof fn lemma_first_index_from(
    cs: Seq<ConstraintDef>,
    p: spec_fn(ConstraintDef) -> bool,
    start: int,
    k: int,
)
    requires
        0 <= start <= k <= cs.len(),
        forall|j: int| start <= j < k ==> !p(#[trigger] cs[j]),
    ensures
        k < cs.len() && p(cs[k]) ==> first_index_from(cs, p, start) == Some(k),
        k == cs.len() ==> first_index_from(cs, p, start) is None,
    decreases k - start,
{
    if start < k {
        lemma_first_index_from(cs, p, start + 1, k);
    }
}

/// A found position satisfies `p`, and nothing before it does.
pub proof fn lemma_first_index_found(cs: Seq<ConstraintDef>, p: spec_fn(ConstraintDef) -> bool)
    ensures
        first_index(cs, p) matches Some(k) ==> 0 <= k < cs.len() && p(cs[k]) && forall|j: int|
            0 <= j < k ==> !p(#[trigger] cs[j]),
        first_index(cs, p) is None ==> forall|j: int| 0 <= j < cs.len() ==> !p(#[trigger] cs[j]),
{
    lemma_first_index_from_found(cs, p, 0);
}

proof fn lemma_first_index_from_found(
    cs: Seq<ConstraintDef>,
    p: spec_fn(ConstraintDef) -> bool,
    start: int,
)
    requires
        0 <= start,
    ensures
        first_index_from(cs, p, start) matches Some(k) ==> start <= k < cs.len() && p(cs[k])
            && forall|j: int| start <= j < k ==> !p(#[trigger] cs[j]),
        first_index_from(cs, p, start) is None ==> forall|j: int|
            start <= j < cs.len() ==> !p(#[trigger] cs[j]),
    decreases cs.len() - start,
{
    if start < cs.len() && !p(cs[start]) {
        lemma_first_index_from_found(cs, p, start + 1);
    }
}

impl TypeConfig {
    /// The configuration is consistent: every type names an existing
    /// constraint and the result table has one entry per operator and pair.
    #[verifier::opaque]
    pub open spec fn wf(&self) -> bool {
        self.wf_parts()
    }

    /// The parts of consistency, spelled out.
    pub open spec fn wf_parts(&self) -> bool {
        let n = self.constraints@.len();
        &&& self.arithmetic_results@.len() == 4 * n * n
        &&& forall|t: int|
            0 <= t < self.constraint_types@.len() ==> has_constraint(
                self.constraints@,
                (#[trigger] self.constraint_types@[t]).constraint_name@,
            )
        &&& forall|t: int|
            0 <= t < self.constraint_types@.len() ==> has_constraint(
                self.constraints@,
                (#[trigger] self.constraint_types@[t]).name@,
            )
    }

    /// Consistency spelled out.
    pub proof fn lemma_wf(&self)
        requires
            self.wf(),
        ensures
            self.wf_parts(),
    {
        reveal(TypeConfig::wf);
    }

    /// Consistency from its parts.
    pub proof fn lemma_wf_from_parts(&self)
        requires
            self.wf_parts(),
        ensures
            self.wf(),
    {
        reveal(TypeConfig::wf);
    }
}

} // verus!
