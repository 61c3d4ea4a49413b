use almiraj::lexer::{tokenize, Token};
use almiraj::parser::parse;

fn parse_source(source: &str) -> Option<almiraj::parser::Ast> {
    let (tokens, _) = tokenize(source);
    parse(tokens)
}

#[test]
fn plain_declaration() {
    let ast = parse_source("fn foo()").expect("declaration should parse");
    assert_eq!(ast.function_name, "foo");
    assert!(ast.parameters.is_empty());
    assert!(!ast.is_global);
}

#[test]
fn global_declaration_with_parameter() {
    let ast = parse_source("global fn bar(uint8 x)").expect("declaration should parse");
    assert_eq!(ast.function_name, "bar");
    assert_eq!(
        ast.parameters,
        vec![("uint8".to_string(), "x".to_string())]
    );
    assert!(ast.is_global);
}

#[test]
fn comma_separated_parameters_fail_to_parse() {
    // The parameter loop treats a comma as an unexpected token rather
    // than a separator, so multi-parameter headers fail under the
    // current grammar.
    assert!(parse_source("fn baz(uint8 a, uint8 b)").is_none());
}

#[test]
fn missing_fn_keyword_fails() {
    assert!(parse_source("foo()").is_none());
    assert!(parse_source("global foo()").is_none());
    assert!(parse_source("").is_none());
}

#[test]
fn missing_name_or_paren_fails() {
    assert!(parse_source("fn").is_none());
    assert!(parse_source("fn ()").is_none());
    assert!(parse_source("fn foo").is_none());
    assert!(parse_source("fn foo uint8").is_none());
}

#[test]
fn exhausted_tokens_end_the_parameter_list() {
    // The parameter loop also ends, successfully, when the tokens simply
    // run out before a closing parenthesis.
    let ast = parse_source("fn foo(").expect("header should parse");
    assert_eq!(ast.function_name, "foo");
    assert!(ast.parameters.is_empty());
}

#[test]
fn type_without_name_is_leniently_dropped() {
    // `uint8` is followed by `)`, which is consumed in place of the
    // missing parameter name; the parameter is dropped and the list ends
    // when the tokens run out.
    let ast = parse_source("fn foo(uint8)").expect("header should parse");
    assert_eq!(ast.function_name, "foo");
    assert!(ast.parameters.is_empty());
}

#[test]
fn body_braces_fail_the_parameter_loop_after_lenient_skip() {
    // After `uint8` swallows the `)`, the loop meets `{` and fails.
    assert!(parse_source("fn foo(uint8){}").is_none());
}

#[test]
fn two_parameters_without_separator_parse() {
    let ast = parse_source("fn foo(uint8 a uint16 b)").expect("header should parse");
    assert_eq!(
        ast.parameters,
        vec![
            ("uint8".to_string(), "a".to_string()),
            ("uint16".to_string(), "b".to_string()),
        ]
    );
}

#[test]
fn parse_consumes_prebuilt_tokens() {
    let tokens = vec![
        Token::Global,
        Token::Fn,
        Token::Identifier("baz".to_string()),
        Token::LeftParen,
        Token::RightParen,
    ];
    let ast = parse(tokens).expect("declaration should parse");
    assert_eq!(ast.function_name, "baz");
    assert!(ast.is_global);
    assert!(ast.parameters.is_empty());
}
