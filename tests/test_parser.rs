use doc_buildr::entity::{DocComment, Enum, Function, Struct};
use doc_buildr::parser::{
    apply_annotated_line, param_from_groups, parse_tokens, return_from_groups, Parse, ParsedToken,
    Section,
};
use doc_buildr::text::src_split;
use doc_buildr::token::{Token, TokenValuePair};
use doc_buildr::DocError;

#[test]
fn test_parse_doc_comment() {
    let comment = r#"/**
         * This is a test function.
         * @param x The first parameter
         * @param y The second parameter
         * @return The sum of x and y
         */"#;

    let doc_comment = DocComment::parse(comment).unwrap();
    assert_eq!(doc_comment.comment.trim(), "This is a test function.");
    assert_eq!(doc_comment.params.len(), 2);
    assert_eq!(doc_comment.params[0].name, "x");
    assert_eq!(doc_comment.params[0].description, "The first parameter");
    assert!(doc_comment.retval.is_some());
    assert_eq!(doc_comment.retval.unwrap().description, "The sum of x and y");
}

#[test]
fn test_parse_function() {
    let function_str = "int add(int x, int y)";
    let function = Function::parse(function_str).unwrap();
    assert_eq!(function.name, "add");
    assert_eq!(function.return_type, "int");
    assert_eq!(function.params, vec!["int x", "int y"]);
}

#[test]
fn test_parse_struct() {
    let struct_str = "struct Point { int x; int y; }";
    let struct_def = Struct::parse(struct_str).unwrap();
    assert_eq!(struct_def.name, "Point");
    assert_eq!(struct_def.members, vec!["int x", "int y"]);
}

#[test]
fn test_parse_enum() {
    let enum_str = "enum Color { RED, GREEN, BLUE }";
    let enum_def = Enum::parse(enum_str).unwrap();
    assert_eq!(enum_def.name, "Color");
    assert_eq!(enum_def.variants, vec!["RED", "GREEN", "BLUE"]);
}

#[test]
fn doc_comment_continuation_lines() {
    let src = "/**\n * Line one.\n *   indented\n * @param n The\n *   count\n * @return A\n * value\n */";
    let d = DocComment::parse(src).unwrap();
    assert_eq!(d.comment, " Line one.\n   indented\n");
    assert_eq!(d.params.len(), 1);
    assert_eq!(d.params[0].name, "n");
    assert_eq!(d.params[0].description, "The count");
    assert_eq!(d.retval.unwrap().description, "A value");
}

#[test]
fn doc_comment_without_delimiters_is_rejected() {
    assert!(DocComment::parse("/* plain */").is_none());
    assert!(DocComment::parse("/**").is_none());
}

#[test]
fn doc_comment_empty_body() {
    let d = DocComment::parse("/***/").unwrap();
    assert_eq!(d.comment, "");
    assert!(d.params.is_empty());
    assert!(d.retval.is_none());
}

#[test]
fn typedef_struct_and_empty_pieces() {
    let s = Struct::parse("typedef struct Pair { int a;; ; int b; } pair_t;").unwrap();
    assert_eq!(s.name, "Pair");
    assert_eq!(s.members, vec!["int a", "int b"]);
    let e = Enum::parse("enum E { }").unwrap();
    assert!(e.variants.is_empty());
    let f = Function::parse("void run();").unwrap();
    assert!(f.params.is_empty());
}

#[test]
fn declarations_that_do_not_fit_are_rejected() {
    assert!(Struct::parse("int x;").is_none());
    assert!(Enum::parse("struct S { int a; }").is_none());
    assert!(Function::parse("x;").is_none());
}

#[test]
fn split_trims_and_drops_empty_pieces() {
    assert_eq!(src_split("  a ,, b ,", ','), vec!["a", "b"]);
    assert!(src_split("", ';').is_empty());
    assert_eq!(src_split("one", ';'), vec!["one"]);
}

#[test]
fn parse_tokens_in_order() {
    let pairs = vec![
        TokenValuePair { token: Token::DocComment, value: "/** Hi. */".to_string() },
        TokenValuePair { token: Token::Enum, value: "enum Color { RED, GREEN, BLUE };".to_string() },
    ];
    let parsed = parse_tokens(&pairs).unwrap();
    assert_eq!(parsed.len(), 2);
    match &parsed[0] {
        ParsedToken::DocComment(d) => assert_eq!(d.comment, "Hi.\n"),
        _ => panic!("expected a documentation comment"),
    }
    match &parsed[1] {
        ParsedToken::Enum(e) => assert_eq!(e.variants, vec!["RED", "GREEN", "BLUE"]),
        _ => panic!("expected an enum"),
    }
}

#[test]
fn parse_tokens_reports_structural_mismatch() {
    let pairs = vec![TokenValuePair { token: Token::Struct, value: "not a struct".to_string() }];
    assert!(matches!(parse_tokens(&pairs), Err(DocError::StructuralMismatch)));
}

fn groups(g: &[Option<&str>]) -> Vec<Option<String>> {
    g.iter().map(|x| x.map(|s| s.to_string())).collect()
}

#[test]
fn annotation_groups_are_picked_by_index() {
    let g = groups(&[Some("@param x The first"), Some("x"), Some("The first"), Some("The first")]);
    assert_eq!(
        param_from_groups(&g),
        Some(("x".to_string(), "The first".to_string()))
    );
    assert_eq!(param_from_groups(&groups(&[Some("@param"), Some("x")])), None);
    let r = groups(&[Some("@return The sum"), Some("The sum"), Some("m")]);
    assert_eq!(return_from_groups(&r), Some("The sum".to_string()));
    assert_eq!(return_from_groups(&groups(&[Some("@return")])), None);
}

#[test]
fn annotated_lines_drive_the_sections() {
    let mut section = Section::Description;
    let mut doc = DocComment { comment: String::new(), params: vec![], retval: None };
    apply_annotated_line(&mut section, &mut doc, " Intro.", None, None);
    assert!(section == Section::Description);
    assert_eq!(doc.comment, " Intro.\n");
    apply_annotated_line(
        &mut section,
        &mut doc,
        "@param n The",
        Some(("n".to_string(), "The".to_string())),
        Some("ignored".to_string()),
    );
    assert!(section == Section::Param);
    assert!(doc.retval.is_none());
    apply_annotated_line(&mut section, &mut doc, "   count  ", None, None);
    assert_eq!(doc.params[0].description, "The count");
    apply_annotated_line(&mut section, &mut doc, "@return A", None, Some("A".to_string()));
    assert!(section == Section::Return);
    apply_annotated_line(&mut section, &mut doc, " value", None, None);
    assert_eq!(doc.retval.as_ref().unwrap().description, "A value");
    assert_eq!(doc.comment, " Intro.\n");
    assert_eq!(doc.params.len(), 1);
}

#[test]
fn declarations_from_groups() {
    let s = Struct::from_groups(&groups(&[Some("struct P {a; b;}"), Some("P"), Some(" a; ;b; ")])).unwrap();
    assert_eq!(s.name, "P");
    assert_eq!(s.members, vec!["a", "b"]);
    let f = Function::from_groups(&groups(&[Some("int f(a, b)"), Some("int"), Some("f"), Some("a, b")]))
        .unwrap();
    assert_eq!(f.return_type, "int");
    assert_eq!(f.name, "f");
    assert_eq!(f.params, vec!["a", "b"]);
    let e = Enum::from_groups(&groups(&[Some("enum E {A,B}"), Some("E"), Some("A,B,")])).unwrap();
    assert_eq!(e.variants, vec!["A", "B"]);
    assert!(Struct::from_groups(&groups(&[Some("x"), Some("P")])).is_none());
    assert!(Function::from_groups(&groups(&[Some("x"), Some("int"), None, Some("")])).is_none());
    assert!(Enum::from_groups(&groups(&[Some("x"), None, Some("A")])).is_none());
}

#[test]
fn struct_members_are_clean() {
    let s = Struct::parse("struct S {\n  int a ;\n\n ; char  b;;}").unwrap();
    assert_eq!(s.members, vec!["int a", "char  b"]);
    for m in &s.members {
        assert!(!m.is_empty());
        assert_eq!(m.trim(), m);
        assert!(!m.contains(';'));
    }
}
