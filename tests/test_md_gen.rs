use doc_buildr::ast::AST;
use doc_buildr::entity::{DocComment, Enum, Function, Param, Return, Struct};
use doc_buildr::md_gen::{generate_md, md_escape, replace_leading_whitespace};
use doc_buildr::parser::ParsedToken;

#[test]
fn test_generate_md() {
    let tokens = vec![
        ParsedToken::DocComment(DocComment {
            comment: "Test function".to_string(),
            params: vec![Param {
                name: "x".to_string(),
                description: "Input parameter".to_string(),
            }],
            retval: Some(Return { description: "Output value".to_string() }),
        }),
        ParsedToken::Function(Function {
            name: "test".to_string(),
            return_type: "int".to_string(),
            params: vec!["int x".to_string()],
        }),
    ];

    let ast = AST::build_ast(&tokens);
    let md = generate_md(&ast);

    assert!(md.contains("## Function `test`"));
    assert!(md.contains("Test function"));
    assert!(md.contains("**Parameters**:"));
    assert!(md.contains("- `x`: Input parameter"));
    assert!(md.contains("**Returns**:"));
    assert!(md.contains("`int`: Output value"));
}

#[test]
fn function_markdown_is_exact() {
    let tokens = vec![
        ParsedToken::DocComment(DocComment {
            comment: "Adds.\n".to_string(),
            params: vec![Param { name: "y".to_string(), description: "Second".to_string() }],
            retval: None,
        }),
        ParsedToken::Function(Function {
            name: "add".to_string(),
            return_type: "int".to_string(),
            params: vec!["int x".to_string(), "int y".to_string()],
        }),
    ];
    let ast = AST::build_ast(&tokens);
    assert_eq!(
        generate_md(&ast),
        "## Function `add`\n\n```c\nint add(int x, int y)\n```\n\nAdds.\n\n\n\
         **Returns**:\n\n`int`: No description\n\n**Parameters**:\n\
         - `x`: No description\n- `y`: Second\n"
    );
}

#[test]
fn undocumented_function_lists_bare_names() {
    let tokens = vec![ParsedToken::Function(Function {
        name: "f".to_string(),
        return_type: "void".to_string(),
        params: vec!["char *s".to_string()],
    })];
    let ast = AST::build_ast(&tokens);
    assert_eq!(
        generate_md(&ast),
        "## Function `f`\n\n```c\nvoid f(char *s)\n```\n\nNo documentation available\n\n\
         **Parameters**:\n- `*s`\n"
    );
}

#[test]
fn void_function_has_no_returns_even_with_return_doc() {
    let tokens = vec![
        ParsedToken::DocComment(DocComment {
            comment: "Resets.".to_string(),
            params: vec![],
            retval: Some(Return { description: "nothing".to_string() }),
        }),
        ParsedToken::Function(Function {
            name: "reset".to_string(),
            return_type: "void".to_string(),
            params: vec![],
        }),
    ];
    let ast = AST::build_ast(&tokens);
    let md = generate_md(&ast);
    assert!(!md.contains("**Returns**:"));
    assert!(!md.contains("nothing"));
}

#[test]
fn parameter_matched_by_last_token() {
    let tokens = vec![
        ParsedToken::DocComment(DocComment {
            comment: "Counts.".to_string(),
            params: vec![Param { name: "count".to_string(), description: "How many".to_string() }],
            retval: None,
        }),
        ParsedToken::Function(Function {
            name: "tally".to_string(),
            return_type: "void".to_string(),
            params: vec!["const int* count".to_string()],
        }),
    ];
    let ast = AST::build_ast(&tokens);
    assert!(generate_md(&ast).contains("- `count`: How many\n"));
}

#[test]
fn struct_and_enum_markdown_joined_by_blank_line() {
    let tokens = vec![
        ParsedToken::Struct(Struct {
            name: "Point".to_string(),
            members: vec!["int x".to_string(), "int y".to_string()],
        }),
        ParsedToken::Enum(Enum { name: "Color".to_string(), variants: vec!["RED".to_string()] }),
    ];
    let ast = AST::build_ast(&tokens);
    assert_eq!(
        generate_md(&ast),
        "## Struct `Point`\n\nNo documentation available\n\n**Members**:\n- `int x`\n- `int y`\n\
         \n\n## Enum `Color`\n\nNo documentation available\n\n**Variants**:\n- `RED`\n"
    );
}

#[test]
fn empty_document_renders_empty() {
    let tokens: Vec<ParsedToken> = vec![];
    let ast = AST::build_ast(&tokens);
    assert_eq!(generate_md(&ast), "");
}

#[test]
fn leading_whitespace_is_kept_visible() {
    assert_eq!(replace_leading_whitespace("   foo"), " &nbsp;&nbsp;foo");
    assert_eq!(replace_leading_whitespace("\tbar"), " bar");
    assert_eq!(replace_leading_whitespace("baz  "), "baz  ");
    assert_eq!(replace_leading_whitespace(""), "");
}

#[test]
fn escape_applies_to_every_line() {
    assert_eq!(md_escape("a\n  b\n- c"), "a\n &nbsp;b\n- c");
    assert_eq!(md_escape("x\n"), "x\n");
}
