use strict_num_extended::input::{
    parse_input, Delimiter, InputError, InputErrorKind, ParsedInput, Token, TokenTree,
};

const END: usize = 999;

fn word(name: &str, span: usize) -> Token {
    Token { tree: TokenTree::Ident(name.to_string()), span }
}

fn keyword(name: &str, span: usize) -> Token {
    Token { tree: TokenTree::Keyword(name.to_string()), span }
}

fn text(value: &str, span: usize) -> Token {
    Token { tree: TokenTree::Str(value.to_string()), span }
}

fn number(span: usize) -> Token {
    Token { tree: TokenTree::Literal, span }
}

fn comma(span: usize) -> Token {
    Token { tree: TokenTree::Punct(','), span }
}

fn group(delimiter: Delimiter, tokens: Vec<Token>, span: usize, close: usize) -> Token {
    Token { tree: TokenTree::Group(delimiter, tokens, close), span }
}

fn brackets(tokens: Vec<Token>, span: usize) -> Token {
    group(Delimiter::Bracket, tokens, span, span + 500)
}

fn parens(tokens: Vec<Token>, span: usize) -> Token {
    group(Delimiter::Parenthesis, tokens, span, span + 500)
}

/// `(Name, [conds...])` with spans counted from `base`.
fn definition(name: &str, conds: &[&str], base: usize) -> Token {
    let mut list = Vec::new();
    for (k, c) in conds.iter().enumerate() {
        if k > 0 {
            list.push(comma(base + 10 + 2 * k));
        }
        list.push(text(c, base + 11 + 2 * k));
    }
    parens(vec![word(name, base + 1), comma(base + 2), brackets(list, base + 3)], base)
}

fn alias(original: &str, alias_name: &str, base: usize) -> Token {
    parens(vec![word(original, base + 1), comma(base + 2), word(alias_name, base + 3)], base)
}

fn ok(tokens: Vec<Token>) -> ParsedInput {
    parse_input(&tokens, END).unwrap()
}

fn err(tokens: Vec<Token>) -> InputError {
    match parse_input(&tokens, END) {
        Err(e) => e,
        Ok(p) => panic!("parsed {:?}", p),
    }
}

fn at(kind: InputErrorKind, span: usize) -> InputError {
    InputError { kind, span, at_end: false }
}

fn at_end(kind: InputErrorKind, span: usize) -> InputError {
    InputError { kind, span, at_end: true }
}

#[test]
fn parse_input_reads_definitions() {
    let p = ok(vec![brackets(
        vec![
            definition("Fin", &[], 100),
            comma(1),
            definition("NonNegative", &[">= 0.0"], 200),
            comma(2),
            definition("Normalized", &[">= 0.0", "<= 1.0"], 300),
            comma(3),
        ],
        0,
    )]);
    assert_eq!(p.names, vec!["Fin", "NonNegative", "Normalized"]);
    assert_eq!(
        p.conditions,
        vec![vec![], vec![">= 0.0".to_string()], vec![">= 0.0".to_string(), "<= 1.0".to_string()]]
    );
    assert!(p.aliases.is_empty());
    assert!(p.alias_spans.is_empty());
}

#[test]
fn parse_input_reads_aliases_with_spans() {
    let p = ok(vec![
        brackets(vec![definition("Positive", &["> 0.0"], 100)], 0),
        comma(1),
        brackets(vec![alias("Positive", "Pos", 200), comma(2), alias("Fin", "F", 300), comma(3)], 50),
    ]);
    assert_eq!(p.names, vec!["Positive"]);
    assert_eq!(p.aliases.len(), 2);
    assert_eq!(p.aliases[0].original_name, "Positive");
    assert_eq!(p.aliases[0].alias_name, "Pos");
    assert_eq!(p.aliases[1].original_name, "Fin");
    assert_eq!(p.alias_spans, vec![(201, 203), (301, 303)]);
}

#[test]
fn parse_input_definition_commas_are_optional() {
    let p = ok(vec![brackets(vec![definition("A", &[], 100), definition("B", &["!= 0.0"], 200)], 0)]);
    assert_eq!(p.names, vec!["A", "B"]);
}

#[test]
fn parse_input_allows_trailing_condition_comma() {
    let def = parens(
        vec![word("A", 1), comma(2), brackets(vec![text("> 0.0", 4), comma(5)], 3)],
        0,
    );
    let p = ok(vec![brackets(vec![def], 10)]);
    assert_eq!(p.conditions, vec![vec!["> 0.0".to_string()]]);
}

#[test]
fn parse_input_empty_lists() {
    let p = ok(vec![brackets(vec![], 0), comma(1), brackets(vec![], 2)]);
    assert!(p.names.is_empty());
    assert!(p.aliases.is_empty());
}

#[test]
fn parse_input_requires_brackets() {
    assert_eq!(err(vec![]), at_end(InputErrorKind::ExpectedBrackets, END));
    assert_eq!(err(vec![word("Fin", 7)]), at(InputErrorKind::ExpectedBrackets, 7));
    assert_eq!(
        err(vec![parens(vec![], 7)]),
        at(InputErrorKind::ExpectedBrackets, 7)
    );
    // A comma after the definitions announces the aliases.
    assert_eq!(
        err(vec![brackets(vec![], 0), comma(1)]),
        at_end(InputErrorKind::ExpectedBrackets, END)
    );
}

#[test]
fn parse_input_requires_parenthesized_definitions() {
    let e = err(vec![brackets(vec![definition("A", &[], 100), comma(1), comma(2)], 0)]);
    assert_eq!(e, at(InputErrorKind::ExpectedParentheses, 2));
    let e = err(vec![brackets(vec![brackets(vec![], 5)], 0)]);
    assert_eq!(e, at(InputErrorKind::ExpectedParentheses, 5));
}

#[test]
fn parse_input_rejects_keyword_names() {
    let def = parens(vec![keyword("type", 1), comma(2), brackets(vec![], 3)], 0);
    assert_eq!(err(vec![brackets(vec![def], 10)]), at(InputErrorKind::FoundKeyword, 1));
    let def = parens(vec![text("A", 1), comma(2), brackets(vec![], 3)], 0);
    assert_eq!(err(vec![brackets(vec![def], 10)]), at(InputErrorKind::ExpectedIdentifier, 1));
    let def = parens(vec![], 0);
    assert_eq!(err(vec![brackets(vec![def], 10)]), at_end(InputErrorKind::ExpectedIdentifier, 500));
}

#[test]
fn parse_input_definition_needs_comma_and_conditions() {
    let def = parens(vec![word("A", 1)], 0);
    assert_eq!(err(vec![brackets(vec![def], 10)]), at_end(InputErrorKind::ExpectedComma, 500));
    let def = parens(vec![word("A", 1), word("B", 2)], 0);
    assert_eq!(err(vec![brackets(vec![def], 10)]), at(InputErrorKind::ExpectedComma, 2));
    let def = parens(vec![word("A", 1), comma(2)], 0);
    assert_eq!(err(vec![brackets(vec![def], 10)]), at_end(InputErrorKind::ExpectedBrackets, 500));
}

#[test]
fn parse_input_conditions_must_be_string_literals() {
    let def = parens(vec![word("A", 1), comma(2), brackets(vec![number(4)], 3)], 0);
    assert_eq!(err(vec![brackets(vec![def], 10)]), at(InputErrorKind::NotStringLiteral, 4));
    let def = parens(vec![word("A", 1), comma(2), brackets(vec![text("> 0", 4), text("< 1", 5)], 3)], 0);
    assert_eq!(err(vec![brackets(vec![def], 10)]), at(InputErrorKind::ExpectedComma, 5));
}

#[test]
fn parse_input_reports_leftover_tokens() {
    let def = parens(vec![word("A", 1), comma(2), brackets(vec![], 3), word("extra", 4)], 0);
    assert_eq!(err(vec![brackets(vec![def], 10)]), at(InputErrorKind::UnexpectedToken, 4));
    assert_eq!(
        err(vec![brackets(vec![], 0), word("tail", 6)]),
        at(InputErrorKind::UnexpectedToken, 6)
    );
    let extra_alias = parens(vec![word("A", 1), comma(2), word("B", 3), comma(4)], 0);
    assert_eq!(
        err(vec![brackets(vec![], 10), comma(11), brackets(vec![extra_alias], 12)]),
        at(InputErrorKind::UnexpectedToken, 4)
    );
}

#[test]
fn parse_input_later_error_wins_over_leftover() {
    let leftover = parens(vec![word("A", 1), comma(2), brackets(vec![], 3), word("extra", 4)], 0);
    let bad = parens(vec![word("B", 21)], 20);
    assert_eq!(
        err(vec![brackets(vec![leftover, bad], 10)]),
        at_end(InputErrorKind::ExpectedComma, 520)
    );
}

#[test]
fn parse_input_aliases_need_commas_between() {
    let e = err(vec![
        brackets(vec![], 0),
        comma(1),
        brackets(vec![alias("A", "B", 100), alias("C", "D", 200)], 2),
    ]);
    assert_eq!(e, at(InputErrorKind::ExpectedComma, 200));
    let e = err(vec![brackets(vec![], 0), comma(1), brackets(vec![parens(vec![word("A", 11), comma(12)], 10)], 2)]);
    assert_eq!(e, at_end(InputErrorKind::ExpectedIdentifier, 510));
}

#[test]
fn parse_input_reads_back_canonical_input() {
    let p = ok(vec![
        brackets(vec![definition("Normalized", &[">= 0.0", "<= 1.0"], 100), comma(1), definition("Fin", &[], 200)], 0),
        comma(2),
        brackets(vec![alias("Normalized", "Unit", 300)], 3),
    ]);
    assert_eq!(p.names, vec!["Normalized", "Fin"]);
    assert_eq!(p.conditions, vec![vec![">= 0.0".to_string(), "<= 1.0".to_string()], vec![]]);
    assert_eq!(p.aliases.len(), 1);
    assert_eq!((p.aliases[0].original_name.as_str(), p.aliases[0].alias_name.as_str()), ("Normalized", "Unit"));
    assert_eq!(p.alias_spans, vec![(301, 303)]);
}

#[test]
fn parse_input_literal_in_larger_expression_is_not_a_string_literal() {
    let with = |next: Token| {
        let def = parens(vec![word("A", 1), comma(2), brackets(vec![text("a", 4), next, text("b", 6)], 3)], 0);
        err(vec![brackets(vec![def], 10)])
    };
    let punct = |c: char| Token { tree: TokenTree::Punct(c), span: 5 };
    // `"a" + "b"`, `"a".to_string()`, `"a"?`, `"a" as T`, `"a"(x)`: one expression.
    assert_eq!(with(punct('+')), at(InputErrorKind::NotStringLiteral, 4));
    assert_eq!(with(punct('.')), at(InputErrorKind::NotStringLiteral, 4));
    assert_eq!(with(punct('?')), at(InputErrorKind::NotStringLiteral, 4));
    assert_eq!(with(keyword("as", 5)), at(InputErrorKind::NotStringLiteral, 4));
    assert_eq!(with(parens(vec![], 5)), at(InputErrorKind::NotStringLiteral, 4));
    // `"a" b` or `"a"; "b"`: the comma is missing.
    assert_eq!(with(word("b", 5)), at(InputErrorKind::ExpectedComma, 5));
    assert_eq!(with(punct(';')), at(InputErrorKind::ExpectedComma, 5));
}
