//! Extracts enums, structs and function signatures with the documentation
//! comments before them from C-style source text, and renders them as
//! Markdown.

pub mod ast;
pub mod entity;
pub mod md_gen;
pub mod parser;
pub mod pattern;
pub mod text;
pub mod token;

use vstd::prelude::*;

use crate::ast::{assemble, AST};
use crate::md_gen::{document, generate_md};
use crate::parser::{parse_all, parse_tokens};
use crate::token::{tokenize_spec, Token};

verus! {

/// Errors that stop the processing of one input.
#[derive(Debug, Clone, Copy, PartialEq, Eq, Structural)]
pub enum DocError {
    /// The fixed pattern set could not be used.
    ConfigurationFault,
    /// A span found by the tokenizer does not fit the grammar of its kind.
    StructuralMismatch,
}

/// The Markdown of `code`, or the fault that stopped it.
pub open spec fn source_docs(code: Seq<char>) -> Result<Seq<char>, DocError> {
    match tokenize_spec(code) {
        None => Err(DocError::ConfigurationFault),
        Some(ps) => match parse_all(ps) {
            None => Err(DocError::StructuralMismatch),
            Some(ts) => Ok(document(assemble(ts))),
        },
    }
}

/// Tokenizes, parses, assembles and renders `code`.
pub fn render_source(code: &str) -> (r: Result<String, DocError>)
    ensures
        match source_docs(code@) {
            Ok(md) => r is Ok && r->Ok_0@ == md,
            Err(e) => r == Err::<String, DocError>(e),
        },
{
    let tokens = match Token::tokenize(code) {
        Ok(t) => t,
        Err(e) => return Err(e),
    };
    let parsed = match parse_tokens(&tokens) {
        Ok(p) => p,
        Err(e) => return Err(e),
    };
    let ast = AST::build_ast(&parsed);
    Ok(generate_md(&ast))
}

/// The Markdown of one input: a `# Module <name>` heading, then the
/// Markdown of `code`.
pub fn module_docs(name: &str, code: &str) -> (r: Result<String, DocError>)
    ensures
        match source_docs(code@) {
            Ok(md) => r is Ok && r->Ok_0@ == "# Module "@ + name@ + "\n\n"@ + md,
            Err(e) => r == Err::<String, DocError>(e),
        },
{
    let md = match render_source(code) {
        Ok(md) => md,
        Err(e) => return Err(e),
    };
    let mut docs = String::from_str("# Module ");
    docs.append(name);
    docs.append("\n\n");
    docs.append(md.as_str());
    Ok(docs)
}

} // verus!
