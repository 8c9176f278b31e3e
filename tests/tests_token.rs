use doc_buildr::token::{Token, TokenValuePair};
use doc_buildr::DocError;

#[test]
fn test_tokenize() {
    let input = r#"
        /**
         * This is a test function.
         * @param x The first parameter
         * @param y The second parameter
         * @return The sum of x and y
         */
        int add(int x, int y);
        "#;

    let tokens = Token::tokenize(input).unwrap();
    assert_eq!(tokens.len(), 2);
    assert!(matches!(tokens[0].token, Token::DocComment));
    assert!(matches!(tokens[1].token, Token::Function));
}

#[test]
fn tokenize_keeps_source_order_and_text() {
    let input = "enum Color { RED, GREEN };\n/** S */\ntypedef struct P { int x; } P;\nvoid f(int a);";
    let tokens = Token::tokenize(input).unwrap();
    let kinds: Vec<Token> = tokens.iter().map(|t| t.token).collect();
    assert_eq!(kinds, vec![Token::Enum, Token::DocComment, Token::Struct, Token::Function]);
    assert_eq!(tokens[0].value, "enum Color { RED, GREEN };");
    assert_eq!(tokens[1].value, "/** S */");
    assert_eq!(tokens[2].value, "struct P { int x; } P;");
    assert_eq!(tokens[3].value, "void f(int a);");
}

#[test]
fn tokenize_empty_input() {
    assert!(Token::tokenize("").unwrap().is_empty());
}

#[test]
fn names_and_patterns() {
    assert_eq!(Token::DocComment.name(), "DocComment");
    assert_eq!(Token::Enum.name(), "Enum");
    assert_eq!(Token::Function.as_str(), r"\w+\s+\w+\s*\([^)]*\)\s*;");
    let re = Token::get_regex();
    assert!(re.starts_with("(?ms)(?<DocComment>/\\*\\*(.*?)\\*/)|(?<Function>"));
    assert!(re.ends_with(r"(?<Enum>(typedef)?enum\s+\w+\s*\{[^}]*\}\s*(\w+)?;)"));
}

#[test]
fn capture_picks_first_present_group() {
    let caps = vec![None, None, Some("struct S {};".to_string()), None];
    assert!(TokenValuePair::has_kind_group(&caps));
    let p = TokenValuePair::from_capture(&caps);
    assert_eq!(p.token, Token::Struct);
    assert_eq!(p.value, "struct S {};");
    let first = vec![Some("/** a */".to_string()), Some("int f();".to_string())];
    assert_eq!(TokenValuePair::from_capture(&first).token, Token::DocComment);
    assert!(!TokenValuePair::has_kind_group(&vec![None, None]));
    assert!(!TokenValuePair::has_kind_group(&vec![None, None, None, None, Some("x".to_string())]));
}

#[test]
fn capture_without_group_is_a_configuration_fault() {
    let caps = vec![vec![Some("/** a */".to_string()), None, None, None], vec![None, None, None, None]];
    assert!(matches!(Token::from_captures(&caps), Err(DocError::ConfigurationFault)));
}
