use doc_buildr::ast::{NodeTypes, AST};
use doc_buildr::entity::{DocComment, Enum, Function, Struct};
use doc_buildr::parser::ParsedToken;

fn doc(text: &str) -> DocComment {
    DocComment { comment: text.to_string(), params: vec![], retval: None }
}

#[test]
fn test_build_ast() {
    let tokens = vec![
        ParsedToken::DocComment(DocComment {
            comment: "Test function".to_string(),
            params: vec![],
            retval: None,
        }),
        ParsedToken::Function(Function {
            name: "test".to_string(),
            return_type: "void".to_string(),
            params: vec![],
        }),
    ];

    let ast = AST::build_ast(&tokens);
    assert_eq!(ast.get_iter().count(), 1);
    let node = ast.get_iter().next().unwrap();
    assert!(node.get_comment().is_some());
    assert!(matches!(node.get_value().as_ref().unwrap(), NodeTypes::Function(_)));
}

#[test]
fn dangling_doc_comment_adds_no_node() {
    let tokens = vec![
        ParsedToken::Struct(Struct { name: "P".to_string(), members: vec![] }),
        ParsedToken::DocComment(doc("left over")),
    ];
    let ast = AST::build_ast(&tokens);
    assert_eq!(ast.get_iter().count(), 1);
    assert!(ast.get_iter().next().unwrap().get_comment().is_none());
}

#[test]
fn only_the_latest_doc_comment_is_kept() {
    let tokens = vec![
        ParsedToken::DocComment(doc("first")),
        ParsedToken::DocComment(doc("second")),
        ParsedToken::Enum(Enum { name: "E".to_string(), variants: vec!["A".to_string()] }),
        ParsedToken::Struct(Struct { name: "S".to_string(), members: vec![] }),
    ];
    let ast = AST::build_ast(&tokens);
    let nodes: Vec<_> = ast.get_iter().collect();
    assert_eq!(nodes.len(), 2);
    assert_eq!(nodes[0].get_comment().unwrap().comment, "second");
    assert!(matches!(nodes[0].get_value().as_ref().unwrap(), NodeTypes::Enum(_)));
    assert!(nodes[1].get_comment().is_none());
    assert!(matches!(nodes[1].get_value().as_ref().unwrap(), NodeTypes::Struct(_)));
}

#[test]
fn empty_token_list_gives_empty_ast() {
    let tokens: Vec<ParsedToken> = vec![];
    let ast = AST::build_ast(&tokens);
    assert_eq!(ast.get_iter().count(), 0);
    assert_eq!(ast.nodes().len(), 0);
}
