# strict_num_extended

The constraint algebra behind a generator of finite floating-point types
(`FinF64`, `NonNegativeF32`, `NormalizedF64`, ...), written in Verus.

A type is defined by a name and a list of conditions such as `">= 0.0"`.
The library decides everything that follows from those conditions and
proves it:

- `input`: the grammar of the generator's input, with a law that a
  well-formed input reads back exactly;
- `conditions`, `config`: normalizing and negating conditions, the sign,
  bounds and zero exclusion of each constraint, the negation of each type,
  alias checks;
- `arithmetic`: the result type and safety of `+ - * /` between any two
  constraint types (commutativity of `+` and `*`, and the conditions under
  which an operation can be safe, are proved);
- `conversion`, `constants`, `unary_ops`: `From`/`TryFrom` between types,
  which named constants each type offers, the output types of `abs()` and
  `signum()`;
- `generator`, `doc_generator`: the lists of items to generate, the
  validation checks of each type (proved to accept exactly the values of
  its constraint), and the shape of each type's documentation.

Bounds are held as order keys of `f64` values (`float_key`): integers that
order like the values, so that no floating-point number enters the proofs.

`app/` holds what cannot be verified: converting compiler tokens, parsing
and evaluating floating-point numbers, and writing the generated items with
`quote`.
