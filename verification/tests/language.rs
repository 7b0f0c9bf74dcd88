use std::collections::HashSet;

use pg_access::error::ParseError;
use pg_access::evaluator::{access_evaluate, evaluate};
use pg_access::expression::AccessExpression;
use pg_access::parser::parse_expression;
use pg_access::printer::render;
use pg_access::expression::same_tree;
use pg_access::tokens::{parse_tokens, AccessTokens};

fn token(name: &str) -> AccessExpression {
    AccessExpression::Token(name.to_string())
}

fn not(e: AccessExpression) -> AccessExpression {
    AccessExpression::Not(Box::new(e))
}

fn and(l: AccessExpression, r: AccessExpression) -> AccessExpression {
    AccessExpression::And(Box::new(l), Box::new(r))
}

fn or(l: AccessExpression, r: AccessExpression) -> AccessExpression {
    AccessExpression::Or(Box::new(l), Box::new(r))
}

fn expr(text: &str) -> AccessExpression {
    parse_expression(text).unwrap()
}

fn set(text: &str) -> AccessTokens {
    parse_tokens(text).unwrap()
}

#[test]
fn parses_a_single_token() {
    assert_eq!(parse_expression("a"), Ok(token("a")));
    assert_eq!(parse_expression("  label-1 \t"), Ok(token("label-1")));
}

#[test]
fn parses_operators_with_precedence() {
    assert_eq!(parse_expression("a | b & c"), Ok(or(token("a"), and(token("b"), token("c")))));
    assert_eq!(parse_expression("a & b | c"), Ok(or(and(token("a"), token("b")), token("c"))));
    assert_eq!(parse_expression("!a & b"), Ok(and(not(token("a")), token("b"))));
    assert_eq!(parse_expression("!(a & b)"), Ok(not(and(token("a"), token("b")))));
    assert_eq!(parse_expression("!!a"), Ok(not(not(token("a")))));
}

#[test]
fn operators_group_to_the_left() {
    assert_eq!(parse_expression("a & b & c"), Ok(and(and(token("a"), token("b")), token("c"))));
    assert_eq!(parse_expression("a | b | c"), Ok(or(or(token("a"), token("b")), token("c"))));
    assert_eq!(parse_expression("a & (b & c)"), Ok(and(token("a"), and(token("b"), token("c")))));
}

#[test]
fn whitespace_is_insignificant() {
    assert_eq!(parse_expression("a&b"), parse_expression(" a \n&\t b\r"));
    assert_eq!(parse_expression("(a|b)&!c"), parse_expression("( a | b ) & ! c"));
}

#[test]
fn names_may_hold_any_other_character() {
    assert_eq!(parse_expression("é:x_1.y"), Ok(token("é:x_1.y")));
    assert_eq!(parse_expression("é&ü"), Ok(and(token("é"), token("ü"))));
}

#[test]
fn token_holds_when_presented() {
    assert!(evaluate(&token("a"), &set("a")));
    assert!(!evaluate(&token("a"), &set("")));
    assert!(!evaluate(&token("a"), &set("b,ab,aa")));
}

#[test]
fn negation_inverts() {
    assert!(evaluate(&not(token("a")), &set("")));
    assert!(!evaluate(&not(token("a")), &set("a")));
}

#[test]
fn conjunction_and_disjunction() {
    let both = and(token("a"), token("b"));
    let either = or(token("a"), token("b"));
    assert!(evaluate(&both, &set("a,b")));
    assert!(!evaluate(&both, &set("a")));
    assert!(!evaluate(&both, &set("b")));
    assert!(!evaluate(&both, &set("")));
    assert!(evaluate(&either, &set("a,b")));
    assert!(evaluate(&either, &set("a")));
    assert!(evaluate(&either, &set("b")));
    assert!(!evaluate(&either, &set("")));
}

#[test]
fn precedence_decides_the_result() {
    let plain = expr("a | b & c");
    let grouped_right = expr("a | (b & c)");
    let grouped_left = expr("(a | b) & c");
    assert_eq!(plain, grouped_right);
    for text in ["", "a", "b", "c", "a,b", "a,c", "b,c", "a,b,c"] {
        let tokens = set(text);
        assert_eq!(evaluate(&plain, &tokens), evaluate(&grouped_right, &tokens));
    }
    assert!(evaluate(&plain, &set("a")));
    assert!(!evaluate(&grouped_left, &set("a")));
}

#[test]
fn render_keeps_groups() {
    assert_eq!(render(&expr("(a & b) | c")), "(a & b) | c");
    assert_eq!(render(&expr("a|b&c")), "a | (b & c)");
    assert_eq!(render(&expr("(a|b)&c")), "(a | b) & c");
    assert_eq!(render(&expr("a&b&c")), "(a & b) & c");
    assert_eq!(render(&expr("! ( a | ! b )")), "!(a | !b)");
    assert_eq!(render(&expr("((a))")), "a");
    assert_eq!(render(&token("a")), "a");
}

#[test]
fn render_then_parse_gives_the_same_tree() {
    for text in [
        "a",
        "!a",
        "a & b",
        "a | b & c",
        "(a | b) & c",
        "(a & b) | c",
        "!(a & !b) | (c & (d | !!e))",
        "a & b & c & d | e | f & !g",
    ] {
        let tree = expr(text);
        assert_eq!(parse_expression(&render(&tree)), Ok(tree));
    }
}

#[test]
fn empty_text_is_rejected() {
    assert_eq!(parse_expression(""), Err(ParseError::EmptyInput));
    assert_eq!(parse_expression(" \t\n"), Err(ParseError::EmptyInput));
}

#[test]
fn open_group_is_rejected() {
    assert_eq!(parse_expression("(a"), Err(ParseError::UnterminatedGroup));
    assert_eq!(parse_expression("(a & (b | c)"), Err(ParseError::UnterminatedGroup));
    assert_eq!(parse_expression("("), Err(ParseError::UnterminatedGroup));
    assert_eq!(parse_expression("(a &"), Err(ParseError::UnterminatedGroup));
    assert_eq!(parse_expression("a | (!"), Err(ParseError::UnterminatedGroup));
}

#[test]
fn trailing_text_is_rejected() {
    assert_eq!(parse_expression("a)"), Err(ParseError::TrailingInput(1)));
    assert_eq!(parse_expression("a b"), Err(ParseError::TrailingInput(2)));
    assert_eq!(parse_expression("(a) !b"), Err(ParseError::TrailingInput(4)));
}

#[test]
fn misplaced_characters_are_rejected() {
    assert_eq!(parse_expression("& a"), Err(ParseError::UnexpectedCharacter(0)));
    assert_eq!(parse_expression("a & | b"), Err(ParseError::UnexpectedCharacter(4)));
    assert_eq!(parse_expression("()"), Err(ParseError::UnexpectedCharacter(1)));
    assert_eq!(parse_expression("(a b)"), Err(ParseError::UnexpectedCharacter(3)));
    assert_eq!(parse_expression("é & )"), Err(ParseError::UnexpectedCharacter(4)));
}

#[test]
fn missing_operand_is_rejected() {
    assert_eq!(parse_expression("a &"), Err(ParseError::EmptyTokenName));
    assert_eq!(parse_expression("a | "), Err(ParseError::EmptyTokenName));
    assert_eq!(parse_expression("!"), Err(ParseError::EmptyTokenName));
    assert_eq!(parse_expression("(a) |"), Err(ParseError::EmptyTokenName));
}

#[test]
fn deep_nesting_is_rejected() {
    let mut ok = String::new();
    let mut deep = String::new();
    for _ in 0..64 {
        ok.push('!');
        deep.push('!');
    }
    deep.push('!');
    ok.push('a');
    deep.push('a');
    assert!(parse_expression(&ok).is_ok());
    assert_eq!(parse_expression(&deep), Err(ParseError::NestingTooDeep));

    let mut groups = String::new();
    for _ in 0..65 {
        groups.push('(');
    }
    groups.push('a');
    for _ in 0..65 {
        groups.push(')');
    }
    assert_eq!(parse_expression(&groups), Err(ParseError::NestingTooDeep));

    let mut chain = String::from("a");
    for _ in 0..64 {
        chain.push_str(" & a");
    }
    let tree = parse_expression(&chain).unwrap();
    assert_eq!(parse_expression(&render(&tree)), Ok(tree));
    chain.push_str(" & a");
    assert_eq!(parse_expression(&chain), Err(ParseError::NestingTooDeep));
}

#[test]
fn token_sets_ignore_order_and_repeats() {
    assert_eq!(set("a,b,c"), set("c,a,b"));
    assert_eq!(set("a,b"), set("b,a,b,a,a"));
    assert_ne!(set("a,b"), set("a"));
    assert_ne!(set("a"), set("a,b"));
    assert_ne!(set("a"), set(""));
    assert_eq!(set("a,a,a").len(), 1);
    assert_eq!(set("").len(), 0);
}

#[test]
fn token_set_membership() {
    let tokens = set("admin,ops");
    assert!(tokens.contains(&"admin".to_string()));
    assert!(tokens.contains(&"ops".to_string()));
    assert!(!tokens.contains(&"adm".to_string()));
    assert!(tokens.is_subset(&set("ops,root,admin")));
    assert!(!tokens.is_subset(&set("ops")));
}

#[test]
fn token_set_keeps_names_once_in_first_order() {
    let tokens = set("b,a,b");
    assert_eq!(tokens.len(), 2);
    assert_eq!(tokens.output(), "b,a");
    assert_eq!(tokens.to_names(), vec!["b".to_string(), "a".to_string()]);
    assert_eq!(tokens, set("a,b"));
}

#[test]
fn token_set_text_errors() {
    assert_eq!(parse_tokens(","), Err(ParseError::EmptyTokenName));
    assert_eq!(parse_tokens("a,"), Err(ParseError::EmptyTokenName));
    assert_eq!(parse_tokens(",a"), Err(ParseError::EmptyTokenName));
    assert_eq!(parse_tokens("a,,b"), Err(ParseError::EmptyTokenName));
    assert_eq!(parse_tokens("a, b"), Err(ParseError::UnexpectedCharacter(2)));
    assert_eq!(parse_tokens("a,b&c"), Err(ParseError::UnexpectedCharacter(3)));
    assert_eq!(parse_tokens("a,,b c"), Err(ParseError::EmptyTokenName));
}

#[test]
fn token_set_output_reads_back() {
    let tokens = set("x,y,x,z");
    assert_eq!(tokens.output(), "x,y,z");
    assert_eq!(AccessTokens::input(&tokens.output()), Ok(set("z,y,x")));
    assert_eq!(set("").output(), "");
}

#[test]
fn evaluation_is_repeatable() {
    let policy = expr("(a | b) & !c");
    let tokens = set("b,d");
    let first = evaluate(&policy, &tokens);
    assert!(first);
    for _ in 0..10 {
        assert_eq!(evaluate(&policy, &tokens), first);
    }
}

#[test]
fn unrelated_tokens_change_nothing() {
    let policy = expr("(a | b) & !c");
    for text in ["a", "b", "c", "a,b", "a,c", "b,c", "a,b,c"] {
        let before = evaluate(&policy, &set(text));
        let mut wider = String::from(text);
        wider.push_str(",zz");
        assert_eq!(evaluate(&policy, &set(&wider)), before);
    }
    assert_eq!(evaluate(&policy, &set("zz")), evaluate(&policy, &set("")));
}

#[test]
fn host_entry_points() {
    let policy = AccessExpression::input("a & !b").unwrap();
    assert_eq!(policy.output(), "a & !b");
    assert_eq!(policy.clone(), policy);
    assert!(access_evaluate(policy.clone(), AccessTokens::input("a").unwrap()));
    assert!(!access_evaluate(policy, AccessTokens::input("a,b").unwrap()));
    assert_eq!(AccessExpression::input("a &"), Err(ParseError::EmptyTokenName));
}

#[test]
fn equality_is_structural() {
    assert_eq!(expr("a & b"), expr("(a&b)"));
    assert_ne!(expr("a & b"), expr("b & a"));
    assert_ne!(expr("a & b"), expr("a | b"));
    assert_ne!(expr("!a"), expr("a"));
    assert_ne!(expr("a"), expr("ab"));
    assert!(same_tree(&expr("a | b & c"), &or(token("a"), and(token("b"), token("c")))));
    assert!(!same_tree(&expr("(a | b) & c"), &expr("a | b & c")));
}

#[test]
fn equal_trees_hash_alike() {
    let mut seen: HashSet<AccessExpression> = HashSet::new();
    seen.insert(expr("a & (b | !c)"));
    assert!(seen.contains(&expr("  a&(b|!c)")));
    assert!(!seen.contains(&expr("a & (b | c)")));
}

#[test]
fn equal_token_sets_hash_alike() {
    let mut seen: HashSet<AccessTokens> = HashSet::new();
    seen.insert(set("a,b,c"));
    assert!(seen.contains(&set("c,b,a,c")));
    assert!(!seen.contains(&set("a,b,d")));
    assert!(!seen.contains(&set("a,b")));
}

#[test]
fn blank_text_and_nothing_else_is_empty_input() {
    assert_eq!(parse_expression("\r\n"), Err(ParseError::EmptyInput));
    assert_ne!(parse_expression(" & "), Err(ParseError::EmptyInput));
    assert_ne!(parse_expression(" ) "), Err(ParseError::EmptyInput));
}

#[test]
fn plain_and_grouped_text_read_alike() {
    assert_eq!(parse_expression("x | y & z"), parse_expression("x | (y & z)"));
    assert_eq!(parse_expression("!x | (y | w) & !z"), parse_expression("!x | ((y | w) & !z)"));
    assert_ne!(parse_expression("x | y & z"), parse_expression("(x | y) & z"));
}

#[test]
fn copies_are_equal() {
    let policy = expr("!(a & b) | c");
    let copy = policy.clone();
    assert_eq!(copy, policy);
    assert_eq!(render(&copy), "!(a & b) | c");
}
