use doc_buildr::ast::{NodeTypes, AST};
use doc_buildr::md_gen::generate_md;
use doc_buildr::parser::parse_tokens;
use doc_buildr::token::Token;
use doc_buildr::{module_docs, render_source};

const ADD_SRC: &str = "/** Adds two numbers.\n * @param x The first parameter\n * @param y The second parameter\n * @return The sum of x and y\n */\nint add(int x, int y);";

#[test]
fn doc_then_function_gives_two_spans() {
    let tokens = Token::tokenize("/** Doc. */\nint f(int a);").unwrap();
    assert_eq!(tokens.len(), 2);
    assert_eq!(tokens[0].token, Token::DocComment);
    assert_eq!(tokens[1].token, Token::Function);
}

#[test]
fn add_parses_and_assembles_into_one_node() {
    let tokens = Token::tokenize(ADD_SRC).unwrap();
    let parsed = parse_tokens(&tokens).unwrap();
    let ast = AST::build_ast(&parsed);
    let nodes: Vec<_> = ast.get_iter().collect();
    assert_eq!(nodes.len(), 1);
    match nodes[0].get_value().as_ref().unwrap() {
        NodeTypes::Function(f) => {
            assert_eq!(f.name, "add");
            assert_eq!(f.return_type, "int");
            assert_eq!(f.params, vec!["int x", "int y"]);
        }
        _ => panic!("expected a function"),
    }
    let d = nodes[0].get_comment().unwrap();
    assert_eq!(d.comment, "Adds two numbers.\n");
    assert_eq!(d.comment.trim(), "Adds two numbers.");
    assert_eq!(d.params.len(), 2);
    assert_eq!(d.params[0].name, "x");
    assert_eq!(d.params[0].description, "The first parameter");
    assert_eq!(d.params[1].name, "y");
    assert_eq!(d.params[1].description, "The second parameter");
    assert_eq!(d.retval.as_ref().unwrap().description, "The sum of x and y");
}

#[test]
fn add_renders_expected_markdown() {
    let tokens = Token::tokenize(ADD_SRC).unwrap();
    let parsed = parse_tokens(&tokens).unwrap();
    let ast = AST::build_ast(&parsed);
    let md = generate_md(&ast);
    assert!(md.contains("## Function `add`"));
    assert!(md.contains("- `x`: The first parameter"));
    assert!(md.contains("**Returns**:\n\n`int`: The sum of x and y"));
    assert_eq!(
        md,
        "## Function `add`\n\n```c\nint add(int x, int y)\n```\n\nAdds two numbers.\n\n\n\
         **Returns**:\n\n`int`: The sum of x and y\n\n**Parameters**:\n\
         - `x`: The first parameter\n- `y`: The second parameter\n"
    );
}

#[test]
fn struct_and_enum_from_source() {
    let md = render_source("struct Point { int x; int y; };\nenum Color { RED, GREEN, BLUE };").unwrap();
    assert!(md.contains("- `int x`\n- `int y`\n"));
    assert!(md.contains("- `RED`\n- `GREEN`\n- `BLUE`\n"));
}

#[test]
fn trailing_doc_comment_is_dropped_and_output_is_stable() {
    let with = render_source("struct S { int a; };\n/** nothing follows */").unwrap();
    let without = render_source("struct S { int a; };").unwrap();
    assert_eq!(with, without);
    assert_eq!(render_source("struct S { int a; };\n/** nothing follows */").unwrap(), with);
    assert_eq!(render_source("/** only a comment */").unwrap(), "");
}

#[test]
fn void_function_from_source_has_no_returns() {
    let md = render_source("/** Does it.\n * @return ignored\n */\nvoid run(int n);").unwrap();
    assert!(!md.contains("**Returns**:"));
    assert!(md.contains("- `n`: No description\n"));
}

#[test]
fn const_pointer_parameter_found_by_name() {
    let md = render_source("/** Sums.\n * @param count How many\n */\nint sum(const int* count);").unwrap();
    assert!(md.contains("- `count`: How many\n"));
}

#[test]
fn module_heading_precedes_markdown() {
    let docs = module_docs("shapes", "struct P { int x; };").unwrap();
    assert!(docs.starts_with("# Module shapes\n\n## Struct `P`"));
    assert_eq!(module_docs("empty", "").unwrap(), "# Module empty\n\n");
}
