//! The assembly stage: pairs each declaration with the documentation comment
//! that immediately precedes it.

use vstd::prelude::*;
use vstd::std_specs::slice::into_iter_elts;

use crate::entity::{DocComment, DocCommentV, Enum, EnumV, Function, FunctionV, Struct, StructV};
use crate::parser::{parsed_views, ParsedToken, ParsedTokenV};

verus! {

broadcast use vstd::std_specs::slice::group_slice_axioms;

/// A declaration, borrowed from the parsed spans.
pub enum NodeTypes<'a> {
    Enum(&'a Enum),
    Function(&'a Function),
    Struct(&'a Struct),
}

/// The model of a declaration.
pub enum DeclV {
    Enum(EnumV),
    Function(FunctionV),
    Struct(StructV),
}

impl<'a> View for NodeTypes<'a> {
    type V = DeclV;

    open spec fn view(&self) -> DeclV {
        match self {
            NodeTypes::Enum(e) => DeclV::Enum(e@),
            NodeTypes::Function(f) => DeclV::Function(f@),
            NodeTypes::Struct(s) => DeclV::Struct(s@),
        }
    }
}

/// A declaration with the documentation comment that precedes it, if any.
pub struct Node<'a> {
    comment: Option<&'a DocComment>,
    value: Option<NodeTypes<'a>>,
}

/// The model of a [`Node`].
pub struct NodeV {
    pub comment: Option<DocCommentV>,
    pub value: Option<DeclV>,
}

/// The model of an optional borrowed documentation comment.
pub open spec fn doc_view(c: Option<&DocComment>) -> Option<DocCommentV> {
    match c {
        Some(d) => Some(d@),
        None => None,
    }
}

/// The model of an optional declaration.
pub open spec fn decl_view(v: Option<NodeTypes>) -> Option<DeclV> {
    match v {
        Some(t) => Some(t@),
        None => None,
    }
}

impl<'a> View for Node<'a> {
    type V = NodeV;

    closed spec fn view(&self) -> NodeV {
        NodeV { comment: doc_view(self.comment), value: decl_view(self.value) }
    }
}

/// The models of a sequence of nodes.
pub open spec fn node_views(v: Seq<Node>) -> Seq<NodeV> {
    v.map_values(|n: Node| n@)
}

/// The declaration that a parsed span is, if it is one.
pub open spec fn decl_of(t: ParsedTokenV) -> Option<DeclV> {
    match t {
        ParsedTokenV::DocComment(_) => None,
        ParsedTokenV::Struct(s) => Some(DeclV::Struct(s)),
        ParsedTokenV::Function(f) => Some(DeclV::Function(f)),
        ParsedTokenV::Enum(e) => Some(DeclV::Enum(e)),
    }
}

/// The nodes built from `ts` and the documentation comment still waiting
/// for a declaration.
pub open spec fn assemble_state(ts: Seq<ParsedTokenV>) -> (Seq<NodeV>, Option<DocCommentV>)
    decreases ts.len(),
{
    if ts.len() == 0 {
        (Seq::empty(), None)
    } else {
        let (nodes, pending) = assemble_state(ts.drop_last());
        match ts.last() {
            ParsedTokenV::DocComment(d) => (nodes, Some(d)),
            t => (nodes.push(NodeV { comment: pending, value: decl_of(t) }), None),
        }
    }
}

/// The document assembled from a sequence of parsed spans.
pub open spec fn assemble(ts: Seq<ParsedTokenV>) -> Seq<NodeV> {
    assemble_state(ts).0
}

impl<'a> Node<'a> {
    /// The node of a parsed span with the given documentation comment; a
    /// documentation span gives a node without a declaration.
    pub fn from(token: &'a ParsedToken, comment: Option<&'a DocComment>) -> (r: Self)
        ensures
            r@ == (NodeV { comment: doc_view(comment), value: decl_of(token@) }),
    {
        let value = match token {
            ParsedToken::DocComment(_) => None,
            ParsedToken::Struct(x) => Some(NodeTypes::Struct(x)),
            ParsedToken::Function(x) => Some(NodeTypes::Function(x)),
            ParsedToken::Enum(x) => Some(NodeTypes::Enum(x)),
        };
        Node { comment, value }
    }

    /// The documentation comment of this node, if any.
    pub fn get_comment(&self) -> (r: Option<&'a DocComment>)
        ensures
            doc_view(r) == self@.comment,
    {
        self.comment
    }

    /// The declaration of this node, if any.
    pub fn get_value(&self) -> (r: &Option<NodeTypes<'a>>)
        ensures
            decl_view(*r) == self@.value,
    {
        &self.value
    }
}

/// The assembled document.
pub struct AST<'a> {
    ast: Vec<Node<'a>>,
}

impl<'a> View for AST<'a> {
    type V = Seq<NodeV>;

    closed spec fn view(&self) -> Seq<NodeV> {
        node_views(self.ast@)
    }
}

impl<'a> AST<'a> {
    /// Pairs each declaration with the documentation comment immediately
    /// before it; a documentation comment that no declaration follows is
    /// dropped.
    pub fn build_ast(parsed_tokens: &'a Vec<ParsedToken>) -> (r: Self)
        ensures
            r@ == assemble(parsed_views(parsed_tokens@)),
    {
        let ghost ts = parsed_views(parsed_tokens@);
        let mut ast: Vec<Node<'a>> = Vec::new();
        let mut current_doc: Option<&'a DocComment> = None;
        let mut i: usize = 0;
        assert(ts.take(0) == Seq::<ParsedTokenV>::empty());
        assert(node_views(ast@) =~= Seq::<NodeV>::empty());
        while i < parsed_tokens.len()
            invariant
                i <= parsed_tokens@.len(),
                ts == parsed_views(parsed_tokens@),
                assemble_state(ts.take(i as int)) == (node_views(ast@), doc_view(current_doc)),
            decreases parsed_tokens@.len() - i,
        {
            assert(ts.take(i + 1).drop_last() == ts.take(i as int));
            assert(ts.take(i + 1).last() == parsed_tokens@[i as int]@);
            let token = &parsed_tokens[i];
            match token {
                ParsedToken::DocComment(comment) => {
                    current_doc = Some(comment);
                },
                _ => {
                    let node = Node::from(token, current_doc);
                    assert(node_views(ast@.push(node)) =~= node_views(ast@).push(node@));
                    ast.push(node);
                    current_doc = None;
                },
            }
            i = i + 1;
        }
        assert(ts.take(i as int) == ts);
        AST { ast }
    }

    /// The nodes, in document order.
    pub fn nodes(&self) -> (r: &Vec<Node<'a>>)
        ensures
            node_views(r@) == self@,
    {
        &self.ast
    }

    /// An iterator over the nodes, in document order.
    pub fn get_iter(&self) -> (r: std::slice::Iter<'_, Node<'a>>)
        ensures
            node_views(into_iter_elts(r)) == self@,
    {
        self.ast.as_slice().iter()
    }
}

/// A documentation comment at the end of the input adds no node.
pub proof fn lemma_dangling_doc_dropped(ts: Seq<ParsedTokenV>, d: DocCommentV)
    ensures
        assemble(ts.push(ParsedTokenV::DocComment(d))) == assemble(ts),
{
    assert(ts.push(ParsedTokenV::DocComment(d)).drop_last() == ts);
}

/// Every node of an assembled document holds a declaration, and there is one
/// node for each declaration span.
pub proof fn lemma_nodes_are_declarations(ts: Seq<ParsedTokenV>)
    ensures
        forall|i: int| 0 <= i < assemble(ts).len() ==> (#[trigger] assemble(ts)[i]).value is Some,
        assemble(ts).len() == ts.filter(|t: ParsedTokenV| decl_of(t) is Some).len(),
    decreases ts.len(),
{
    if ts.len() > 0 {
        lemma_nodes_are_declarations(ts.drop_last());
        assert(ts.drop_last().push(ts.last()) == ts);
        ts.drop_last().lemma_filter_push(ts.last(), |t: ParsedTokenV| decl_of(t) is Some);
    }
}

} // verus!
