use almiraj::lexer::{tokenize, Token};

#[test]
fn simple_declaration_tokens() {
    let (tokens, diags) = tokenize("global fn bar(uint8 x)");
    assert_eq!(
        tokens,
        vec![
            Token::Global,
            Token::Fn,
            Token::Identifier("bar".to_string()),
            Token::LeftParen,
            Token::Type("uint8".to_string()),
            Token::Identifier("x".to_string()),
            Token::RightParen,
        ]
    );
    assert!(diags.is_empty());
}

#[test]
fn braces_and_commas_are_single_tokens() {
    let (tokens, diags) = tokenize("( ) { } ,");
    assert_eq!(
        tokens,
        vec![
            Token::LeftParen,
            Token::RightParen,
            Token::LeftBrace,
            Token::RightBrace,
            Token::Comma,
        ]
    );
    assert!(diags.is_empty());
}

#[test]
fn whitespace_is_skipped() {
    let (tokens, diags) = tokenize("  \t\r\n fn \n\t foo ");
    assert_eq!(
        tokens,
        vec![Token::Fn, Token::Identifier("foo".to_string())]
    );
    assert!(diags.is_empty());
}

#[test]
fn empty_input_yields_nothing() {
    let (tokens, diags) = tokenize("");
    assert!(tokens.is_empty());
    assert!(diags.is_empty());
}

#[test]
fn uint_prefix_becomes_type_token() {
    let (tokens, _) = tokenize("uint8 uint64 uintish uint");
    assert_eq!(
        tokens,
        vec![
            Token::Type("uint8".to_string()),
            Token::Type("uint64".to_string()),
            Token::Type("uintish".to_string()),
            Token::Type("uint".to_string()),
        ]
    );
}

#[test]
fn signed_names_stay_identifiers() {
    // Only the `uint` prefix is checked during classification, so signed
    // type names come out as identifiers.
    let (tokens, _) = tokenize("int8 bit bool");
    assert_eq!(
        tokens,
        vec![
            Token::Identifier("int8".to_string()),
            Token::Identifier("bit".to_string()),
            Token::Identifier("bool".to_string()),
        ]
    );
}

#[test]
fn keywords_are_exact_matches() {
    let (tokens, _) = tokenize("global fn globals fnord");
    assert_eq!(
        tokens,
        vec![
            Token::Global,
            Token::Fn,
            Token::Identifier("globals".to_string()),
            Token::Identifier("fnord".to_string()),
        ]
    );
}

#[test]
fn identifiers_continue_with_digits_and_underscores() {
    let (tokens, diags) = tokenize("foo_bar2 baz_");
    assert_eq!(
        tokens,
        vec![
            Token::Identifier("foo_bar2".to_string()),
            Token::Identifier("baz_".to_string()),
        ]
    );
    assert!(diags.is_empty());
}

#[test]
fn relexing_is_deterministic() {
    let source = "global fn bar(uint8 x) { y # }";
    let first = tokenize(source);
    let second = tokenize(source);
    assert_eq!(first.0, second.0);
    assert_eq!(first.1, second.1);
}

#[test]
fn unknown_character_is_reported_and_skipped() {
    let (tokens, diags) = tokenize("fn #foo()");
    assert_eq!(
        tokens,
        vec![
            Token::Fn,
            Token::Identifier("foo".to_string()),
            Token::LeftParen,
            Token::RightParen,
        ]
    );
    assert_eq!(diags, vec!['#']);
}

#[test]
fn every_unknown_character_gets_its_own_diagnostic() {
    let (tokens, diags) = tokenize("#fn $ ? x");
    assert_eq!(
        tokens,
        vec![Token::Fn, Token::Identifier("x".to_string())]
    );
    assert_eq!(diags, vec!['#', '$', '?']);
}
