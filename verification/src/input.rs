//! The input grammar of the type generator.
//!
//! The input is a token tree:
//!
//! ```text
//! [(Name, ["cond", ...]), ...]            the type definitions
//! [(Name, ["cond", ...]), ...], [(Original, Alias), ...]
//! ```
//!
//! Separators: a comma after a definition is optional; conditions and
//! aliases are separated by commas, a trailing comma being allowed. Tokens
//! left over inside a definition or alias, or after the lists, are
//! reported once everything else has parsed. Every error names the span of
//! the token where it was found, or of the closing delimiter (or the end of
//! the input) when a group ended too early.

use vstd::prelude::*;

use crate::conditions::views_of;
use crate::config_types::TypeAliasDef;

verus! {

/// The delimiter of a group.
#[derive(Debug, Clone, Copy, PartialEq, Eq, Structural)]
pub enum Delimiter {
    /// `( ... )`
    Parenthesis,
    /// `[ ... ]`
    Bracket,
    /// `{ ... }`
    Brace,
}

/// A token of the input, with the span it was found at (an index into a
/// table the caller keeps).
#[derive(Debug)]
pub struct Token {
    /// What the token is.
    pub tree: TokenTree,
    /// The span of the token; for a group, that of its opening delimiter.
    pub span: usize,
}

/// The kinds of tokens.
#[derive(Debug)]
pub enum TokenTree {
    /// An identifier that can name a type.
    Ident(String),
    /// A keyword, which cannot name a type.
    Keyword(String),
    /// A string literal, with its value.
    Str(String),
    /// Any other literal.
    Literal,
    /// A punctuation character.
    Punct(char),
    /// A delimited group: its delimiter, its tokens and the span of its
    /// closing delimiter.
    Group(Delimiter, Vec<Token>, usize),
}

/// What was expected where an input error was found.
#[derive(Debug, Clone, Copy, PartialEq, Eq, Structural)]
pub enum InputErrorKind {
    /// `[ ... ]` expected.
    ExpectedBrackets,
    /// `( ... )` expected.
    ExpectedParentheses,
    /// An identifier expected, and something else found.
    ExpectedIdentifier,
    /// An identifier expected, and a keyword found.
    FoundKeyword,
    /// `,` expected.
    ExpectedComma,
    /// A condition that is not a string literal.
    NotStringLiteral,
    /// A token that no rule reads.
    UnexpectedToken,
}

/// An input error: its kind, the span where it was found, and whether that
/// span is the end of a group (or of the input) rather than a token.
#[derive(Debug, Clone, Copy, PartialEq, Eq, Structural)]
pub struct InputError {
    /// What was expected.
    pub kind: InputErrorKind,
    /// Where.
    pub span: usize,
    /// Whether the group (or input) ended where a token was expected.
    pub at_end: bool,
}

/// The parsed input: type names with their conditions, and aliases.
#[derive(Debug, Clone)]
pub struct ParsedInput {
    /// The type names, in order.
    pub names: Vec<String>,
    /// The conditions of each type, as written.
    pub conditions: Vec<Vec<String>>,
    /// The aliases, in order.
    pub aliases: Vec<TypeAliasDef>,
    /// For each alias, the spans of its two names.
    pub alias_spans: Vec<(usize, usize)>,
}

/// A type definition as values: its name and conditions.
pub type DefView = (Seq<char>, Seq<Seq<char>>);

/// An alias as values: the aliased name, the alias, and the spans of both.
pub type AliasView = (Seq<char>, Seq<char>, usize, usize);

/// The parsed input as values.
pub type InputView = (Seq<DefView>, Seq<AliasView>);

/// The view of parsed input.
pub open spec fn input_view(p: ParsedInput) -> InputView {
    (
        Seq::new(
            p.names@.len(),
            |i: int| (p.names@[i]@, views_of(p.conditions@[i]@)),
        ),
        aliases_view(p.aliases@, p.alias_spans@),
    )
}

/// An error at a token.
pub open spec fn error_at(kind: InputErrorKind, span: usize) -> InputError {
    InputError { kind, span, at_end: false }
}

/// An error at the end of a group (or of the input).
pub open spec fn error_at_end(kind: InputErrorKind, span: usize) -> InputError {
    InputError { kind, span, at_end: true }
}

/// Whether a token is the punctuation character `c`.
pub open spec fn is_punct(t: Token, c: char) -> bool {
    t.tree matches TokenTree::Punct(p) && p == c
}

/// The first of two optional leftover spans.
pub open spec fn first_of(a: Option<usize>, b: Option<usize>) -> Option<usize> {
    if a is Some {
        a
    } else {
        b
    }
}

/// The span of the first token from position `k` on, if there is one.
pub open spec fn leftover_from(ts: Seq<Token>, k: int) -> Option<usize> {
    if k < ts.len() {
        Some(ts[k].span)
    } else {
        None
    }
}

/// The name at position `k` of a group ending at `close`.
pub open spec fn name_at(ts: Seq<Token>, k: int, close: usize) -> Result<Seq<char>, InputError> {
    if k >= ts.len() {
        Err(error_at_end(InputErrorKind::ExpectedIdentifier, close))
    } else {
        match ts[k].tree {
            TokenTree::Ident(n) => Ok(n@),
            TokenTree::Keyword(_) => Err(error_at(InputErrorKind::FoundKeyword, ts[k].span)),
            _ => Err(error_at(InputErrorKind::ExpectedIdentifier, ts[k].span)),
        }
    }
}

/// The comma at position `k` of a group ending at `close`.
pub open spec fn comma_at(ts: Seq<Token>, k: int, close: usize) -> Result<(), InputError> {
    if k >= ts.len() {
        Err(error_at_end(InputErrorKind::ExpectedComma, close))
    } else if is_punct(ts[k], ',') {
        Ok(())
    } else {
        Err(error_at(InputErrorKind::ExpectedComma, ts[k].span))
    }
}

/// The contents of the bracket group at position `k` of a group ending at
/// `close`.
pub open spec fn brackets_at(ts: Seq<Token>, k: int, close: usize) -> Result<Seq<Token>, InputError> {
    if k >= ts.len() {
        Err(error_at_end(InputErrorKind::ExpectedBrackets, close))
    } else {
        match ts[k].tree {
            TokenTree::Group(Delimiter::Bracket, inner, _) => Ok(inner@),
            _ => Err(error_at(InputErrorKind::ExpectedBrackets, ts[k].span)),
        }
    }
}

/// Whether a token after a literal makes the two part of one larger
/// expression (an operator, `.`, `?`, a call or index group, or `as`): the
/// condition is then an expression that is not a string literal. After any
/// other token, the comma between conditions is what is missing.
pub open spec fn continues_expression(t: Token) -> bool {
    match t.tree {
        TokenTree::Punct(c) => c == '+' || c == '-' || c == '*' || c == '/' || c == '%' || c == '^'
            || c == '&' || c == '|' || c == '<' || c == '>' || c == '=' || c == '!' || c == '.'
            || c == '?',
        TokenTree::Group(Delimiter::Parenthesis, _, _) => true,
        TokenTree::Group(Delimiter::Bracket, _, _) => true,
        TokenTree::Keyword(k) => k@ == seq!['a', 's'],
        _ => false,
    }
}

/// A list of conditions: string literals separated by commas, a trailing
/// comma allowed. A literal that an expression continues is not a string
/// literal condition.
pub open spec fn conditions_of(ts: Seq<Token>) -> Result<Seq<Seq<char>>, InputError>
    decreases ts.len(),
{
    if ts.len() == 0 {
        Ok(Seq::empty())
    } else {
        match ts[0].tree {
            TokenTree::Str(v) => if ts.len() == 1 {
                Ok(seq![v@])
            } else if is_punct(ts[1], ',') {
                match conditions_of(ts.skip(2)) {
                    Ok(rest) => Ok(seq![v@] + rest),
                    Err(e) => Err(e),
                }
            } else if continues_expression(ts[1]) {
                Err(error_at(InputErrorKind::NotStringLiteral, ts[0].span))
            } else {
                Err(error_at(InputErrorKind::ExpectedComma, ts[1].span))
            },
            _ => Err(error_at(InputErrorKind::NotStringLiteral, ts[0].span)),
        }
    }
}

/// A definition `Name, [conditions]` inside parentheses ending at `close`,
/// with the span of a leftover token after it.
pub open spec fn definition_of(ts: Seq<Token>, close: usize) -> Result<
    (DefView, Option<usize>),
    InputError,
> {
    match name_at(ts, 0, close) {
        Err(e) => Err(e),
        Ok(name) => match comma_at(ts, 1, close) {
            Err(e) => Err(e),
            Ok(_) => match brackets_at(ts, 2, close) {
                Err(e) => Err(e),
                Ok(inner) => match conditions_of(inner) {
                    Err(e) => Err(e),
                    Ok(conds) => Ok(((name, conds), leftover_from(ts, 3))),
                },
            },
        },
    }
}

/// The definitions: parenthesized definitions, each optionally followed by
/// a comma.
pub open spec fn definitions_of(ts: Seq<Token>) -> Result<(Seq<DefView>, Option<usize>), InputError>
    decreases ts.len(),
{
    if ts.len() == 0 {
        Ok((Seq::empty(), None))
    } else {
        match ts[0].tree {
            TokenTree::Group(Delimiter::Parenthesis, inner, close) => match definition_of(
                inner@,
                close,
            ) {
                Err(e) => Err(e),
                Ok((d, lo)) => {
                    let rest = if ts.len() > 1 && is_punct(ts[1], ',') {
                        ts.skip(2)
                    } else {
                        ts.skip(1)
                    };
                    match definitions_of(rest) {
                        Err(e) => Err(e),
                        Ok((ds, lo2)) => Ok((seq![d] + ds, first_of(lo, lo2))),
                    }
                },
            },
            _ => Err(error_at(InputErrorKind::ExpectedParentheses, ts[0].span)),
        }
    }
}

/// An alias `Original, Alias` inside parentheses ending at `close`, with the
/// span of a leftover token after it.
pub open spec fn alias_of(ts: Seq<Token>, close: usize) -> Result<(AliasView, Option<usize>), InputError> {
    match name_at(ts, 0, close) {
        Err(e) => Err(e),
        Ok(original) => match comma_at(ts, 1, close) {
            Err(e) => Err(e),
            Ok(_) => match name_at(ts, 2, close) {
                Err(e) => Err(e),
                Ok(alias) => Ok(((original, alias, ts[0].span, ts[2].span), leftover_from(ts, 3))),
            },
        },
    }
}

/// The aliases: parenthesized aliases separated by commas, a trailing
/// comma allowed.
pub open spec fn aliases_of(ts: Seq<Token>) -> Result<(Seq<AliasView>, Option<usize>), InputError>
    decreases ts.len(),
{
    if ts.len() == 0 {
        Ok((Seq::empty(), None))
    } else {
        match ts[0].tree {
            TokenTree::Group(Delimiter::Parenthesis, inner, close) => match alias_of(inner@, close) {
                Err(e) => Err(e),
                Ok((a, lo)) => if ts.len() == 1 {
                    Ok((seq![a], lo))
                } else if is_punct(ts[1], ',') {
                    match aliases_of(ts.skip(2)) {
                        Err(e) => Err(e),
                        Ok((rest, lo2)) => Ok((seq![a] + rest, first_of(lo, lo2))),
                    }
                } else {
                    Err(error_at(InputErrorKind::ExpectedComma, ts[1].span))
                },
            },
            _ => Err(error_at(InputErrorKind::ExpectedParentheses, ts[0].span)),
        }
    }
}

/// The result once both lists have parsed: the first leftover token, if
/// any, is an error.
pub open spec fn finished(
    defs: Seq<DefView>,
    aliases: Seq<AliasView>,
    leftover: Option<usize>,
) -> Result<InputView, InputError> {
    match leftover {
        Some(s) => Err(error_at(InputErrorKind::UnexpectedToken, s)),
        None => Ok((defs, aliases)),
    }
}

/// The whole input, ending at `end`: the bracketed definitions, then
/// optionally a comma and the bracketed aliases.
pub open spec fn input_of(ts: Seq<Token>, end: usize) -> Result<InputView, InputError> {
    match brackets_at(ts, 0, end) {
        Err(e) => Err(e),
        Ok(inner) => match definitions_of(inner) {
            Err(e) => Err(e),
            Ok((defs, lo)) => if ts.len() > 1 && is_punct(ts[1], ',') {
                match brackets_at(ts, 2, end) {
                    Err(e) => Err(e),
                    Ok(inner2) => match aliases_of(inner2) {
                        Err(e) => Err(e),
                        Ok((aliases, lo2)) => finished(
                            defs,
                            aliases,
                            first_of(lo, first_of(lo2, leftover_from(ts, 3))),
                        ),
                    },
                }
            } else {
                finished(defs, Seq::empty(), first_of(lo, leftover_from(ts, 1)))
            },
        },
    }
}



/// The `k`-th item of a comma-separated list.
pub open spec fn item(ts: Seq<Token>, k: int) -> Token {
    ts[2 * k]
}

/// The separator after the `k`-th item of a comma-separated list.
pub open spec fn separator(ts: Seq<Token>, k: int) -> Token {
    ts[2 * k + 1]
}

/// Whether `ts` is a list of `n` items with a comma between each two.
pub open spec fn comma_list(ts: Seq<Token>, n: nat) -> bool {
    &&& ts.len() == (if n == 0 {
        0
    } else {
        2 * n - 1
    })
    &&& forall|k: int| 0 <= k < n - 1 ==> is_punct(#[trigger] separator(ts, k), ',')
}

/// Whether `t` is a string literal with value `v`.
pub open spec fn is_str(t: Token, v: Seq<char>) -> bool {
    t.tree matches TokenTree::Str(x) && x@ == v
}

/// Whether `ts` writes the conditions `conds` as string literals.
pub open spec fn renders_conditions(ts: Seq<Token>, conds: Seq<Seq<char>>) -> bool {
    &&& comma_list(ts, conds.len())
    &&& forall|k: int| 0 <= k < conds.len() ==> is_str(#[trigger] item(ts, k), conds[k])
}

/// Whether `t` writes the definition `d` as `(Name, [conditions])`.
pub open spec fn renders_definition(t: Token, d: DefView) -> bool {
    t.tree matches TokenTree::Group(Delimiter::Parenthesis, inner, _) && {
        let ts = inner@;
        &&& ts.len() == 3
        &&& ts[0].tree matches TokenTree::Ident(n) && n@ == d.0
        &&& is_punct(ts[1], ',')
        &&& ts[2].tree matches TokenTree::Group(Delimiter::Bracket, cs, _) && renders_conditions(
            cs@,
            d.1,
        )
    }
}

/// Whether `t` writes the alias `a` as `(Original, Alias)`, the names at the
/// alias's spans.
pub open spec fn renders_alias(t: Token, a: AliasView) -> bool {
    t.tree matches TokenTree::Group(Delimiter::Parenthesis, inner, _) && {
        let ts = inner@;
        &&& ts.len() == 3
        &&& ts[0].tree matches TokenTree::Ident(n) && n@ == a.0 && ts[0].span == a.2
        &&& is_punct(ts[1], ',')
        &&& ts[2].tree matches TokenTree::Ident(m) && m@ == a.1 && ts[2].span == a.3
    }
}

/// Whether `ts` writes the definitions, separated by commas.
pub open spec fn renders_definitions(ts: Seq<Token>, defs: Seq<DefView>) -> bool {
    &&& comma_list(ts, defs.len())
    &&& forall|k: int| 0 <= k < defs.len() ==> renders_definition(#[trigger] item(ts, k), defs[k])
}

/// Whether `ts` writes the aliases, separated by commas.
pub open spec fn renders_aliases(ts: Seq<Token>, aliases: Seq<AliasView>) -> bool {
    &&& comma_list(ts, aliases.len())
    &&& forall|k: int| 0 <= k < aliases.len() ==> renders_alias(#[trigger] item(ts, k), aliases[k])
}

/// Whether `t` writes the aliases in brackets.
pub open spec fn renders_alias_list(t: Token, aliases: Seq<AliasView>) -> bool {
    t.tree matches TokenTree::Group(Delimiter::Bracket, a, _) && renders_aliases(a@, aliases)
}

/// Whether `ts` writes a whole input: the bracketed definitions, and, when
/// there are aliases or a second list is written, a comma and the
/// bracketed aliases.
pub open spec fn renders_input(ts: Seq<Token>, defs: Seq<DefView>, aliases: Seq<AliasView>) -> bool {
    &&& ts.len() >= 1
    &&& ts[0].tree matches TokenTree::Group(Delimiter::Bracket, d, _) && renders_definitions(d@, defs)
    &&& (ts.len() == 1 && aliases.len() == 0) || (ts.len() == 3 && is_punct(ts[1], ',')
        && renders_alias_list(ts[2], aliases))
}

proof fn lemma_comma_list_rest(ts: Seq<Token>, n: nat)
    requires
        comma_list(ts, n),
        n >= 2,
    ensures
        comma_list(ts.skip(2), (n - 1) as nat),
        is_punct(ts[1], ','),
        forall|k: int| 0 <= k < n - 1 ==> item(ts.skip(2), k) == #[trigger] item(ts, k + 1),
{
    assert(separator(ts, 0) == ts[1]);
    assert forall|k: int| 0 <= k < n - 2 implies is_punct(
        #[trigger] separator(ts.skip(2), k),
        ',',
    ) by {
        assert(separator(ts.skip(2), k) == separator(ts, k + 1));
    }
    assert forall|k: int| 0 <= k < n - 1 implies item(ts.skip(2), k) == #[trigger] item(
        ts,
        k + 1,
    ) by {}
}

proof fn lemma_conditions_read_back(ts: Seq<Token>, conds: Seq<Seq<char>>)
    requires
        renders_conditions(ts, conds),
    ensures
        conditions_of(ts) == Ok::<Seq<Seq<char>>, InputError>(conds),
    decreases conds.len(),
{
    if conds.len() == 0 {
        assert(conds =~= Seq::<Seq<char>>::empty());
    } else {
        assert(item(ts, 0) == ts[0]);
        if conds.len() == 1 {
            assert(conds =~= seq![conds[0]]);
        } else {
            lemma_comma_list_rest(ts, conds.len());
            let rest = conds.skip(1);
            assert forall|k: int| 0 <= k < rest.len() implies is_str(
                #[trigger] item(ts.skip(2), k),
                rest[k],
            ) by {
                assert(item(ts.skip(2), k) == item(ts, k + 1));
            }
            lemma_conditions_read_back(ts.skip(2), rest);
            assert(conds =~= seq![conds[0]] + rest);
        }
    }
}

proof fn lemma_definitions_read_back(ts: Seq<Token>, defs: Seq<DefView>)
    requires
        renders_definitions(ts, defs),
    ensures
        definitions_of(ts) == Ok::<(Seq<DefView>, Option<usize>), InputError>((defs, None)),
    decreases defs.len(),
{
    if defs.len() == 0 {
        assert(defs =~= Seq::<DefView>::empty());
    } else {
        assert(item(ts, 0) == ts[0]);
        assert(renders_definition(ts[0], defs[0]));
        let rest = defs.skip(1);
        let tail = if defs.len() == 1 {
            ts.skip(1)
        } else {
            ts.skip(2)
        };
        if defs.len() == 1 {
            assert(ts.skip(1) =~= Seq::<Token>::empty());
            assert(rest =~= Seq::<DefView>::empty());
        } else {
            lemma_comma_list_rest(ts, defs.len());
            assert forall|k: int| 0 <= k < rest.len() implies renders_definition(
                #[trigger] item(ts.skip(2), k),
                rest[k],
            ) by {
                assert(item(ts.skip(2), k) == item(ts, k + 1));
            }
            lemma_definitions_read_back(ts.skip(2), rest);
        }
        assert(definitions_of(tail) == Ok::<(Seq<DefView>, Option<usize>), InputError>((rest, None)));
        assert(defs =~= seq![defs[0]] + rest);
        match ts[0].tree {
            TokenTree::Group(Delimiter::Parenthesis, inner, close) => {
                match inner@[2].tree {
                    TokenTree::Group(_, cs, _) => {
                        lemma_conditions_read_back(cs@, defs[0].1);
                    },
                    _ => {},
                }
                assert(definition_of(inner@, close) == Ok::<(DefView, Option<usize>), InputError>(
                    (defs[0], None),
                ));
            },
            _ => {},
        }
    }
}

proof fn lemma_aliases_read_back(ts: Seq<Token>, aliases: Seq<AliasView>)
    requires
        renders_aliases(ts, aliases),
    ensures
        aliases_of(ts) == Ok::<(Seq<AliasView>, Option<usize>), InputError>((aliases, None)),
    decreases aliases.len(),
{
    if aliases.len() == 0 {
        assert(aliases =~= Seq::<AliasView>::empty());
    } else {
        assert(item(ts, 0) == ts[0]);
        assert(renders_alias(ts[0], aliases[0]));
        let rest = aliases.skip(1);
        if aliases.len() == 1 {
            assert(aliases =~= seq![aliases[0]]);
        } else {
            lemma_comma_list_rest(ts, aliases.len());
            assert forall|k: int| 0 <= k < rest.len() implies renders_alias(
                #[trigger] item(ts.skip(2), k),
                rest[k],
            ) by {
                assert(item(ts.skip(2), k) == item(ts, k + 1));
            }
            lemma_aliases_read_back(ts.skip(2), rest);
            assert(aliases =~= seq![aliases[0]] + rest);
        }
    }
}

/// Reading gives back what was written: an input that writes definitions
/// `(Name, ["cond", ...])` and aliases `(Original, Alias)` with commas
/// between them parses to exactly these definitions and aliases.
pub proof fn law_parse_reads_back(
    ts: Seq<Token>,
    end: usize,
    defs: Seq<DefView>,
    aliases: Seq<AliasView>,
)
    requires
        renders_input(ts, defs, aliases),
    ensures
        input_of(ts, end) == Ok::<InputView, InputError>((defs, aliases)),
{
    if let TokenTree::Group(_, d, _) = ts[0].tree {
        lemma_definitions_read_back(d@, defs);
    }
    if ts.len() == 3 {
        if let TokenTree::Group(_, a, _) = ts[2].tree {
            lemma_aliases_read_back(a@, aliases);
        }
    } else {
        assert(aliases =~= Seq::<AliasView>::empty());
    }
}

fn is_comma(t: &Token) -> (b: bool)
    ensures
        b == is_punct(*t, ','),
{
    match &t.tree {
        TokenTree::Punct(c) => *c == ',',
        _ => false,
    }
}

fn continues_expression_exec(t: &Token) -> (b: bool)
    ensures
        b == continues_expression(*t),
{
    match &t.tree {
        TokenTree::Punct(c) => {
            let c = *c;
            c == '+' || c == '-' || c == '*' || c == '/' || c == '%' || c == '^' || c == '&' || c
                == '|' || c == '<' || c == '>' || c == '=' || c == '!' || c == '.' || c == '?'
        },
        TokenTree::Group(Delimiter::Parenthesis, _, _) => true,
        TokenTree::Group(Delimiter::Bracket, _, _) => true,
        TokenTree::Keyword(k) => {
            let r = crate::text::chars_eq(&crate::text::chars_of(k.as_str()), &['a', 's']);
            assert(['a', 's']@ =~= seq!['a', 's']);
            r
        },
        _ => false,
    }
}

fn name_at_exec(ts: &[Token], k: usize, close: usize) -> (r: Result<String, InputError>)
    ensures
        match r {
            Ok(n) => name_at(ts@, k as int, close) == Ok::<Seq<char>, InputError>(n@),
            Err(e) => name_at(ts@, k as int, close) == Err::<Seq<char>, InputError>(e),
        },
{
    if k >= ts.len() {
        return Err(InputError { kind: InputErrorKind::ExpectedIdentifier, span: close, at_end: true });
    }
    match &ts[k].tree {
        TokenTree::Ident(n) => Ok(n.clone()),
        TokenTree::Keyword(_) => Err(
            InputError { kind: InputErrorKind::FoundKeyword, span: ts[k].span, at_end: false },
        ),
        _ => Err(
            InputError {
                kind: InputErrorKind::ExpectedIdentifier,
                span: ts[k].span,
                at_end: false,
            },
        ),
    }
}

fn comma_at_exec(ts: &[Token], k: usize, close: usize) -> (r: Result<(), InputError>)
    ensures
        r == comma_at(ts@, k as int, close),
{
    if k >= ts.len() {
        Err(InputError { kind: InputErrorKind::ExpectedComma, span: close, at_end: true })
    } else if is_comma(&ts[k]) {
        Ok(())
    } else {
        Err(InputError { kind: InputErrorKind::ExpectedComma, span: ts[k].span, at_end: false })
    }
}

fn brackets_at_exec(ts: &[Token], k: usize, close: usize) -> (r: Result<&Vec<Token>, InputError>)
    ensures
        match r {
            Ok(v) => brackets_at(ts@, k as int, close) == Ok::<Seq<Token>, InputError>(v@),
            Err(e) => brackets_at(ts@, k as int, close) == Err::<Seq<Token>, InputError>(e),
        },
{
    if k >= ts.len() {
        return Err(InputError { kind: InputErrorKind::ExpectedBrackets, span: close, at_end: true });
    }
    match &ts[k].tree {
        TokenTree::Group(Delimiter::Bracket, inner, _) => Ok(inner),
        _ => Err(
            InputError { kind: InputErrorKind::ExpectedBrackets, span: ts[k].span, at_end: false },
        ),
    }
}

fn leftover_from_exec(ts: &[Token], k: usize) -> (r: Option<usize>)
    ensures
        r == leftover_from(ts@, k as int),
{
    if k < ts.len() {
        Some(ts[k].span)
    } else {
        None
    }
}

fn first_of_exec(a: Option<usize>, b: Option<usize>) -> (r: Option<usize>)
    ensures
        r == first_of(a, b),
{
    if a.is_some() {
        a
    } else {
        b
    }
}

fn parse_conditions(ts: &[Token]) -> (r: Result<Vec<String>, InputError>)
    ensures
        match r {
            Ok(v) => conditions_of(ts@) == Ok::<Seq<Seq<char>>, InputError>(views_of(v@)),
            Err(e) => conditions_of(ts@) == Err::<Seq<Seq<char>>, InputError>(e),
        },
{
    let mut out: Vec<String> = Vec::new();
    let mut i: usize = 0;
    assert(ts@.skip(0) =~= ts@);
    assert(views_of(out@) + Seq::<Seq<char>>::empty() =~= Seq::<Seq<char>>::empty());
    while i < ts.len()
        invariant
            i <= ts.len(),
            conditions_of(ts@) == match conditions_of(ts@.skip(i as int)) {
                Ok(rest) => Ok(views_of(out@) + rest),
                Err(e) => Err(e),
            },
        decreases ts.len() - i,
    {
        let ghost rest_before = ts@.skip(i as int);
        assert(rest_before[0] == ts@[i as int]);
        match &ts[i].tree {
            TokenTree::Str(v) => {
                if i + 1 == ts.len() {
                    assert(rest_before.len() == 1);
                    let ghost prev = views_of(out@);
                    out.push(v.clone());
                    i += 1;
                    assert(ts@.skip(i as int) =~= Seq::<Token>::empty());
                    assert(views_of(out@) =~= prev.push(v@));
                    assert(views_of(out@) + Seq::<Seq<char>>::empty() =~= views_of(out@));
                    assert(prev + seq![v@] =~= views_of(out@));
                } else if is_comma(&ts[i + 1]) {
                    assert(rest_before[1] == ts@[i + 1]);
                    assert(rest_before.skip(2) =~= ts@.skip(i + 2));
                    let ghost prev = views_of(out@);
                    out.push(v.clone());
                    i += 2;
                    assert(views_of(out@) =~= prev.push(v@));
                    assert forall|rest: Seq<Seq<char>>| prev + (seq![v@] + rest) =~= views_of(out@)
                        + rest by {}
                } else if continues_expression_exec(&ts[i + 1]) {
                    assert(rest_before[1] == ts@[i + 1]);
                    return Err(
                        InputError {
                            kind: InputErrorKind::NotStringLiteral,
                            span: ts[i].span,
                            at_end: false,
                        },
                    );
                } else {
                    assert(rest_before[1] == ts@[i + 1]);
                    return Err(
                        InputError {
                            kind: InputErrorKind::ExpectedComma,
                            span: ts[i + 1].span,
                            at_end: false,
                        },
                    );
                }
            },
            _ => {
                return Err(
                    InputError {
                        kind: InputErrorKind::NotStringLiteral,
                        span: ts[i].span,
                        at_end: false,
                    },
                );
            },
        }
    }
    assert(ts@.skip(i as int) =~= Seq::<Token>::empty());
    assert(views_of(out@) + Seq::<Seq<char>>::empty() =~= views_of(out@));
    Ok(out)
}



fn parse_definition(ts: &[Token], close: usize) -> (r: Result<(String, Vec<String>, Option<usize>), InputError>)
    ensures
        match r {
            Ok((name, conds, lo)) => definition_of(ts@, close) == Ok::<(DefView, Option<usize>), InputError>(
                ((name@, views_of(conds@)), lo),
            ),
            Err(e) => definition_of(ts@, close) == Err::<(DefView, Option<usize>), InputError>(e),
        },
{
    let name = match name_at_exec(ts, 0, close) {
        Ok(n) => n,
        Err(e) => return Err(e),
    };
    match comma_at_exec(ts, 1, close) {
        Ok(_) => {},
        Err(e) => return Err(e),
    }
    let inner = match brackets_at_exec(ts, 2, close) {
        Ok(v) => v,
        Err(e) => return Err(e),
    };
    let conds = match parse_conditions(inner.as_slice()) {
        Ok(c) => c,
        Err(e) => return Err(e),
    };
    Ok((name, conds, leftover_from_exec(ts, 3)))
}

/// The views of definitions collected so far.
pub open spec fn defs_view(names: Seq<String>, conds: Seq<Vec<String>>) -> Seq<DefView> {
    Seq::new(names.len(), |i: int| (names[i]@, views_of(conds[i]@)))
}

fn parse_definitions(ts: &[Token]) -> (r: Result<(Vec<String>, Vec<Vec<String>>, Option<usize>), InputError>)
    ensures
        match r {
            Ok((names, conds, lo)) => names@.len() == conds@.len() && definitions_of(ts@) == Ok::<
                (Seq<DefView>, Option<usize>),
                InputError,
            >((defs_view(names@, conds@), lo)),
            Err(e) => definitions_of(ts@) == Err::<(Seq<DefView>, Option<usize>), InputError>(e),
        },
{
    let mut names: Vec<String> = Vec::new();
    let mut conds: Vec<Vec<String>> = Vec::new();
    let mut lo: Option<usize> = None;
    let mut i: usize = 0;
    assert(ts@.skip(0) =~= ts@);
    assert forall|ds: Seq<DefView>| defs_view(names@, conds@) + ds =~= ds by {}
    while i < ts.len()
        invariant
            i <= ts.len(),
            names@.len() == conds@.len(),
            definitions_of(ts@) == match definitions_of(ts@.skip(i as int)) {
                Ok((ds, lo2)) => Ok((defs_view(names@, conds@) + ds, first_of(lo, lo2))),
                Err(e) => Err(e),
            },
        decreases ts.len() - i,
    {
        let ghost rest_before = ts@.skip(i as int);
        assert(rest_before[0] == ts@[i as int]);
        match &ts[i].tree {
            TokenTree::Group(Delimiter::Parenthesis, inner, close) => {
                let (n, c, l) = match parse_definition(inner.as_slice(), *close) {
                    Ok(d) => d,
                    Err(e) => return Err(e),
                };
                let ghost prev = defs_view(names@, conds@);
                let ghost d: DefView = (n@, views_of(c@));
                let ghost lo_before = lo;
                names.push(n);
                conds.push(c);
                lo = first_of_exec(lo, l);
                assert(defs_view(names@, conds@) =~= prev.push(d));
                if i + 1 < ts.len() && is_comma(&ts[i + 1]) {
                    assert(rest_before[1] == ts@[i + 1]);
                    assert(rest_before.skip(2) =~= ts@.skip(i + 2));
                    i += 2;
                } else {
                    assert(i + 1 < ts.len() ==> rest_before[1] == ts@[i + 1]);
                    assert(rest_before.skip(1) =~= ts@.skip(i + 1));
                    i += 1;
                }
                assert forall|ds: Seq<DefView>| prev + (seq![d] + ds) =~= defs_view(names@, conds@)
                    + ds by {}
            },
            _ => {
                return Err(
                    InputError {
                        kind: InputErrorKind::ExpectedParentheses,
                        span: ts[i].span,
                        at_end: false,
                    },
                );
            },
        }
    }
    assert(ts@.skip(i as int) =~= Seq::<Token>::empty());
    assert(defs_view(names@, conds@) + Seq::<DefView>::empty() =~= defs_view(names@, conds@));
    Ok((names, conds, lo))
}

fn parse_alias(ts: &[Token], close: usize) -> (r: Result<
    (TypeAliasDef, (usize, usize), Option<usize>),
    InputError,
>)
    ensures
        match r {
            Ok((a, spans, lo)) => alias_of(ts@, close) == Ok::<(AliasView, Option<usize>), InputError>(
                ((a.original_name@, a.alias_name@, spans.0, spans.1), lo),
            ),
            Err(e) => alias_of(ts@, close) == Err::<(AliasView, Option<usize>), InputError>(e),
        },
{
    let original_name = match name_at_exec(ts, 0, close) {
        Ok(n) => n,
        Err(e) => return Err(e),
    };
    match comma_at_exec(ts, 1, close) {
        Ok(_) => {},
        Err(e) => return Err(e),
    }
    let alias_name = match name_at_exec(ts, 2, close) {
        Ok(n) => n,
        Err(e) => return Err(e),
    };
    Ok((TypeAliasDef { original_name, alias_name }, (ts[0].span, ts[2].span), leftover_from_exec(ts, 3)))
}

/// The views of aliases with their spans.
pub open spec fn aliases_view(aliases: Seq<TypeAliasDef>, spans: Seq<(usize, usize)>) -> Seq<AliasView> {
    Seq::new(
        aliases.len(),
        |i: int| (aliases[i].original_name@, aliases[i].alias_name@, spans[i].0, spans[i].1),
    )
}

fn parse_aliases(ts: &[Token]) -> (r: Result<
    (Vec<TypeAliasDef>, Vec<(usize, usize)>, Option<usize>),
    InputError,
>)
    ensures
        match r {
            Ok((aliases, spans, lo)) => aliases@.len() == spans@.len() && aliases_of(ts@) == Ok::<
                (Seq<AliasView>, Option<usize>),
                InputError,
            >((aliases_view(aliases@, spans@), lo)),
            Err(e) => aliases_of(ts@) == Err::<(Seq<AliasView>, Option<usize>), InputError>(e),
        },
{
    let mut out: Vec<TypeAliasDef> = Vec::new();
    let mut spans: Vec<(usize, usize)> = Vec::new();
    let mut lo: Option<usize> = None;
    let mut i: usize = 0;
    assert(ts@.skip(0) =~= ts@);
    assert forall|xs: Seq<AliasView>| aliases_view(out@, spans@) + xs =~= xs by {}
    while i < ts.len()
        invariant
            i <= ts.len(),
            out@.len() == spans@.len(),
            aliases_of(ts@) == match aliases_of(ts@.skip(i as int)) {
                Ok((xs, lo2)) => Ok((aliases_view(out@, spans@) + xs, first_of(lo, lo2))),
                Err(e) => Err(e),
            },
        decreases ts.len() - i,
    {
        let ghost rest_before = ts@.skip(i as int);
        assert(rest_before[0] == ts@[i as int]);
        match &ts[i].tree {
            TokenTree::Group(Delimiter::Parenthesis, inner, close) => {
                let (a, sp, l) = match parse_alias(inner.as_slice(), *close) {
                    Ok(x) => x,
                    Err(e) => return Err(e),
                };
                let ghost prev = aliases_view(out@, spans@);
                let ghost av: AliasView = (a.original_name@, a.alias_name@, sp.0, sp.1);
                if i + 1 == ts.len() {
                    out.push(a);
                    spans.push(sp);
                    lo = first_of_exec(lo, l);
                    i += 1;
                    assert(aliases_view(out@, spans@) =~= prev.push(av));
                    assert(ts@.skip(i as int) =~= Seq::<Token>::empty());
                    assert(aliases_view(out@, spans@) + Seq::<AliasView>::empty() =~= prev + seq![av]);
                } else if is_comma(&ts[i + 1]) {
                    assert(rest_before[1] == ts@[i + 1]);
                    assert(rest_before.skip(2) =~= ts@.skip(i + 2));
                    out.push(a);
                    spans.push(sp);
                    lo = first_of_exec(lo, l);
                    i += 2;
                    assert(aliases_view(out@, spans@) =~= prev.push(av));
                    assert forall|xs: Seq<AliasView>| prev + (seq![av] + xs) =~= aliases_view(
                        out@,
                        spans@,
                    ) + xs by {}
                } else {
                    assert(rest_before[1] == ts@[i + 1]);
                    return Err(
                        InputError {
                            kind: InputErrorKind::ExpectedComma,
                            span: ts[i + 1].span,
                            at_end: false,
                        },
                    );
                }
            },
            _ => {
                return Err(
                    InputError {
                        kind: InputErrorKind::ExpectedParentheses,
                        span: ts[i].span,
                        at_end: false,
                    },
                );
            },
        }
    }
    assert(ts@.skip(i as int) =~= Seq::<Token>::empty());
    assert(aliases_view(out@, spans@) + Seq::<AliasView>::empty() =~= aliases_view(out@, spans@));
    Ok((out, spans, lo))
}

/// Parses the input of the type generator (see the module documentation):
/// the type names with their conditions as written, and the aliases.
/// `end_span` is the span reported when the input ends too early.
pub fn parse_input(tokens: &[Token], end_span: usize) -> (r: Result<ParsedInput, InputError>)
    ensures
        match r {
            Ok(p) => p.names@.len() == p.conditions@.len() && p.aliases@.len() == p.alias_spans@.len()
                && input_of(tokens@, end_span) == Ok::<
                InputView,
                InputError,
            >(input_view(p)),
            Err(e) => input_of(tokens@, end_span) == Err::<InputView, InputError>(e),
        },
{
    let inner = match brackets_at_exec(tokens, 0, end_span) {
        Ok(v) => v,
        Err(e) => return Err(e),
    };
    let (names, conditions, lo) = match parse_definitions(inner.as_slice()) {
        Ok(d) => d,
        Err(e) => return Err(e),
    };
    let ghost defs = defs_view(names@, conditions@);
    let mut aliases: Vec<TypeAliasDef> = Vec::new();
    let mut alias_spans: Vec<(usize, usize)> = Vec::new();
    let leftover = if tokens.len() > 1 && is_comma(&tokens[1]) {
        let inner2 = match brackets_at_exec(tokens, 2, end_span) {
            Ok(v) => v,
            Err(e) => return Err(e),
        };
        let (parsed, parsed_spans, lo2) = match parse_aliases(inner2.as_slice()) {
            Ok(a) => a,
            Err(e) => return Err(e),
        };
        aliases = parsed;
        alias_spans = parsed_spans;
        first_of_exec(lo, first_of_exec(lo2, leftover_from_exec(tokens, 3)))
    } else {
        assert(aliases_view(aliases@, alias_spans@) =~= Seq::<AliasView>::empty());
        first_of_exec(lo, leftover_from_exec(tokens, 1))
    };
    let p = ParsedInput { names, conditions, aliases, alias_spans };
    assert(input_view(p).0 =~= defs);
    match leftover {
        Some(s) => Err(InputError { kind: InputErrorKind::UnexpectedToken, span: s, at_end: false }),
        None => Ok(p),
    }
}

} // verus!
