//! The renderer: turns the assembled document into Markdown.

use vstd::prelude::*;

use crate::ast::{
    assemble, doc_view, lemma_dangling_doc_dropped, node_views, DeclV, Node, NodeTypes, NodeV, AST,
};
use crate::parser::ParsedTokenV;
use crate::entity::{param_views, DocComment, DocCommentV, ParamV};
use crate::text::{
    chars_of, is_whitespace, is_ws, push_char, push_chars, split_by, split_ranges, string_of,
    trim_end, views,
};

verus! {

/// `n` copies of the non-breaking-space marker.
pub open spec fn nbsp_run(n: nat) -> Seq<char>
    decreases n,
{
    if n == 0 {
        Seq::empty()
    } else {
        nbsp_run((n - 1) as nat) + "&nbsp;"@
    }
}

/// The number of whitespace characters at the start of `s`.
pub open spec fn leading_ws_len(s: Seq<char>) -> nat
    decreases s.len(),
{
    if s.len() > 0 && is_ws(s[0]) {
        1 + leading_ws_len(s.drop_first())
    } else {
        0
    }
}

/// One line with its indentation kept visible: the first whitespace
/// character of the leading run becomes a space, each further one a
/// non-breaking-space marker.
pub open spec fn escape_line(s: Seq<char>) -> Seq<char> {
    let k = leading_ws_len(s);
    if k == 0 {
        s
    } else {
        seq![' '] + nbsp_run((k - 1) as nat) + s.subrange(k as int, s.len() as int)
    }
}

/// The pieces of `parts` with `sep` between each two.
pub open spec fn join(parts: Seq<Seq<char>>, sep: Seq<char>) -> Seq<char>
    decreases parts.len(),
{
    if parts.len() == 0 {
        Seq::empty()
    } else if parts.len() == 1 {
        parts[0]
    } else {
        join(parts.drop_last(), sep) + sep + parts.last()
    }
}

/// The line break.
pub open spec fn newline() -> Seq<char> {
    seq!['\n']
}

/// `content` with every line escaped.
pub open spec fn md_escaped(content: Seq<char>) -> Seq<char> {
    join(split_by(content, newline()).map_values(|l: Seq<char>| escape_line(l)), newline())
}

/// The description shown for a declaration.
pub open spec fn doc_text(doc: Option<DocCommentV>) -> Seq<char> {
    match doc {
        Some(d) => d.comment,
        None => "No documentation available"@,
    }
}

/// One bullet per item, each item verbatim in code style.
pub open spec fn bullets(items: Seq<Seq<char>>) -> Seq<char>
    decreases items.len(),
{
    if items.len() == 0 {
        Seq::empty()
    } else {
        bullets(items.drop_last()) + "- `"@ + items.last() + "`\n"@
    }
}

/// The Markdown of an enum.
pub open spec fn render_enum(name: Seq<char>, variants: Seq<Seq<char>>, doc: Option<DocCommentV>) -> Seq<char> {
    "## Enum `"@ + name + "`\n\n"@ + md_escaped(doc_text(doc)) + "\n\n"@ + "**Variants**:\n"@
        + bullets(variants)
}

/// The Markdown of a struct.
pub open spec fn render_struct(name: Seq<char>, members: Seq<Seq<char>>, doc: Option<DocCommentV>) -> Seq<char> {
    "## Struct `"@ + name + "`\n\n"@ + md_escaped(doc_text(doc)) + "\n\n"@ + "**Members**:\n"@
        + bullets(members)
}

/// The text after the last whitespace character of `s` (all of `s` if it
/// has none).
pub open spec fn tail_word(s: Seq<char>) -> Seq<char>
    decreases s.len(),
{
    if s.len() == 0 || is_ws(s.last()) {
        Seq::empty()
    } else {
        tail_word(s.drop_last()).push(s.last())
    }
}

/// The last whitespace-separated token of `s`.
pub open spec fn last_token(s: Seq<char>) -> Seq<char> {
    tail_word(trim_end(s))
}

/// The description of the first documented parameter called `name`.
pub open spec fn lookup(ps: Seq<ParamV>, name: Seq<char>) -> Seq<char>
    decreases ps.len(),
{
    if ps.len() == 0 {
        "No description"@
    } else if ps[0].name == name {
        ps[0].description
    } else {
        lookup(ps.drop_first(), name)
    }
}

/// The bullet of one function parameter.
pub open spec fn param_line(p: Seq<char>, doc: Option<DocCommentV>) -> Seq<char> {
    match doc {
        Some(d) => "- `"@ + last_token(p) + "`: "@ + lookup(d.params, last_token(p)) + "\n"@,
        None => "- `"@ + last_token(p) + "`\n"@,
    }
}

/// The bullets of the function parameters `ps`.
pub open spec fn param_lines(ps: Seq<Seq<char>>, doc: Option<DocCommentV>) -> Seq<char>
    decreases ps.len(),
{
    if ps.len() == 0 {
        Seq::empty()
    } else {
        param_lines(ps.drop_last(), doc) + param_line(ps.last(), doc)
    }
}

/// The description of the return value.
pub open spec fn ret_text(doc: Option<DocCommentV>) -> Seq<char> {
    match doc {
        Some(d) => match d.retval {
            Some(r) => r,
            None => "No description"@,
        },
        None => "No description"@,
    }
}

/// The block on the return value; none for `void`.
pub open spec fn returns_section(return_type: Seq<char>, doc: Option<DocCommentV>) -> Seq<char> {
    if return_type == "void"@ {
        Seq::empty()
    } else {
        "**Returns**:\n\n`"@ + return_type + "`: "@ + ret_text(doc) + "\n\n"@
    }
}

/// The Markdown of a function.
pub open spec fn render_function(
    name: Seq<char>,
    return_type: Seq<char>,
    params: Seq<Seq<char>>,
    doc: Option<DocCommentV>,
) -> Seq<char> {
    "## Function `"@ + name + "`\n\n"@ + "```c\n"@ + return_type + " "@ + name + "("@ + join(
        params,
        ", "@,
    ) + ")\n```\n\n"@ + md_escaped(doc_text(doc)) + "\n\n"@ + returns_section(return_type, doc)
        + "**Parameters**:\n"@ + param_lines(params, doc)
}

/// The Markdown of a declaration.
pub open spec fn render_decl(d: DeclV, doc: Option<DocCommentV>) -> Seq<char> {
    match d {
        DeclV::Enum(e) => render_enum(e.name, e.variants, doc),
        DeclV::Function(f) => render_function(f.name, f.return_type, f.params, doc),
        DeclV::Struct(s) => render_struct(s.name, s.members, doc),
    }
}

/// The Markdown of a node; empty for a node without a declaration.
pub open spec fn render_node(n: NodeV) -> Seq<char> {
    match n.value {
        Some(d) => render_decl(d, n.comment),
        None => Seq::empty(),
    }
}

/// The fragments of the nodes that hold a declaration, in order.
pub open spec fn fragments(ns: Seq<NodeV>) -> Seq<Seq<char>>
    decreases ns.len(),
{
    if ns.len() == 0 {
        Seq::empty()
    } else {
        let rest = fragments(ns.drop_last());
        match ns.last().value {
            Some(d) => rest.push(render_decl(d, ns.last().comment)),
            None => rest,
        }
    }
}

/// The Markdown of a document: its fragments separated by a blank line.
pub open spec fn document(ns: Seq<NodeV>) -> Seq<char> {
    join(fragments(ns), "\n\n"@)
}

/// Appending one more part to a join.
proof fn lemma_join_push(parts: Seq<Seq<char>>, sep: Seq<char>, x: Seq<char>)
    ensures
        join(parts.push(x), sep) == if parts.len() == 0 {
            x
        } else {
            join(parts, sep) + sep + x
        },
{
    assert(parts.push(x).drop_last() == parts);
}

/// `s` with the indentation of its first line kept visible.
pub fn replace_leading_whitespace(s: &str) -> (r: String)
    ensures
        r@ == escape_line(s@),
{
    let v = chars_of(s);
    let n = v.len();
    let mut k: usize = 0;
    assert(v@.subrange(0, n as int) == v@);
    while k < n && is_whitespace(v[k])
        invariant
            k <= n == v@.len(),
            v@ == s@,
            leading_ws_len(v@) == k + leading_ws_len(v@.subrange(k as int, n as int)),
        decreases n - k,
    {
        assert(v@.subrange(k as int, n as int).drop_first() == v@.subrange(k + 1, n as int));
        k = k + 1;
    }
    assert(leading_ws_len(v@) == k);
    if k == 0 {
        assert(v@.subrange(0, n as int) == v@);
        return string_of(&v, 0, n);
    }
    let mut out = String::new();
    push_char(&mut out, ' ');
    let mut j: usize = 1;
    assert(out@ =~= seq![' '] + nbsp_run(0));
    while j < k
        invariant
            1 <= j <= k,
            out@ == seq![' '] + nbsp_run((j - 1) as nat),
        decreases k - j,
    {
        out.append("&nbsp;");
        assert(nbsp_run(j as nat) == nbsp_run((j - 1) as nat) + "&nbsp;"@);
        assert(out@ =~= seq![' '] + nbsp_run(j as nat));
        j = j + 1;
    }
    push_chars(&mut out, &v, k, n);
    out
}

/// `content` with every line's indentation kept visible.
pub fn md_escape(content: &str) -> (r: String)
    ensures
        r@ == md_escaped(content@),
{
    let v = chars_of(content);
    let n = v.len();
    let seps = vec!['\n'];
    assert(seps@ == newline());
    let lines = split_ranges(&v, 0, n, &seps);
    assert(v@.subrange(0, n as int) == v@);
    let ghost pieces = split_by(v@, newline());
    let ghost escaped = pieces.map_values(|l: Seq<char>| escape_line(l));
    let mut out = String::new();
    let mut k: usize = 0;
    assert(escaped.take(0) == Seq::<Seq<char>>::empty());
    while k < lines.len()
        invariant
            k <= lines@.len() == pieces.len() == escaped.len(),
            n == v@.len(),
            v@ == content@,
            pieces == split_by(v@, newline()),
            escaped == pieces.map_values(|l: Seq<char>| escape_line(l)),
            forall|j: int|
                0 <= j < lines@.len() ==> {
                    &&& #[trigger] lines@[j].0 <= lines@[j].1 <= n
                    &&& v@.subrange(lines@[j].0 as int, lines@[j].1 as int) == pieces[j]
                },
            out@ == join(escaped.take(k as int), newline()),
        decreases lines@.len() - k,
    {
        let (lo, hi) = lines[k];
        let line = string_of(&v, lo, hi);
        let e = replace_leading_whitespace(line.as_str());
        proof {
            assert(escaped.take(k + 1) == escaped.take(k as int).push(escaped[k as int]));
            lemma_join_push(escaped.take(k as int), newline(), escaped[k as int]);
        }
        if k > 0 {
            push_char(&mut out, '\n');
        }
        out.append(e.as_str());
        assert(out@ =~= join(escaped.take(k + 1), newline()));
        k = k + 1;
    }
    assert(escaped.take(k as int) == escaped);
    out
}

/// Appends one bullet per item, each item verbatim in code style.
fn push_bullets(md: &mut String, items: &Vec<String>)
    ensures
        final(md)@ == old(md)@ + bullets(views(items@)),
{
    let ghost xs = views(items@);
    let mut i: usize = 0;
    assert(xs.take(0) == Seq::<Seq<char>>::empty());
    assert(old(md)@ + bullets(Seq::<Seq<char>>::empty()) == old(md)@);
    while i < items.len()
        invariant
            i <= items@.len(),
            xs == views(items@),
            md@ =~= old(md)@ + bullets(xs.take(i as int)),
        decreases items@.len() - i,
    {
        md.append("- `");
        md.append(items[i].as_str());
        md.append("`\n");
        assert(xs.take(i + 1).drop_last() == xs.take(i as int));
        assert(xs.take(i + 1).last() == items@[i as int]@);
        i = i + 1;
    }
    assert(xs.take(i as int) == xs);
}

/// The comment text or its default.
fn comment_text<'b>(comment: Option<&'b DocComment>) -> (r: &'b str)
    ensures
        r@ == doc_text(doc_view(comment)),
{
    match comment {
        Some(c) => c.comment.as_str(),
        None => "No documentation available",
    }
}

/// The bounds of the last whitespace-separated token of `v`.
fn last_token_bounds(v: &Vec<char>) -> (r: (usize, usize))
    ensures
        r.0 <= r.1 <= v@.len(),
        v@.subrange(r.0 as int, r.1 as int) == last_token(v@),
{
    let n = v.len();
    let mut e = n;
    assert(v@.subrange(0, n as int) == v@);
    while e > 0 && is_whitespace(v[e - 1])
        invariant
            e <= n == v@.len(),
            trim_end(v@.subrange(0, e as int)) == trim_end(v@),
        decreases e,
    {
        assert(v@.subrange(0, e as int).drop_last() == v@.subrange(0, e - 1));
        e = e - 1;
    }
    assert(trim_end(v@.subrange(0, e as int)) == v@.subrange(0, e as int));
    let mut b = e;
    while b > 0 && !is_whitespace(v[b - 1])
        invariant
            b <= e <= n == v@.len(),
            tail_word(v@.subrange(0, e as int)) == tail_word(v@.subrange(0, b as int)) + v@.subrange(
                b as int,
                e as int,
            ),
        decreases b,
    {
        assert(v@.subrange(0, b as int).drop_last() == v@.subrange(0, b - 1));
        assert(v@.subrange(b - 1, e as int) == seq![v@[b - 1]] + v@.subrange(b as int, e as int));
        assert(tail_word(v@.subrange(0, b as int)) == tail_word(v@.subrange(0, b - 1)).push(v@[b - 1]));
        assert(tail_word(v@.subrange(0, e as int)) =~= tail_word(v@.subrange(0, b - 1)) + v@.subrange(
            b - 1,
            e as int,
        ));
        b = b - 1;
    }
    assert(tail_word(v@.subrange(0, b as int)) == Seq::<char>::empty());
    assert(v@.subrange(b as int, e as int) =~= Seq::<char>::empty() + v@.subrange(b as int, e as int));
    (b, e)
}

/// The description of the first documented parameter called `name`, or
/// the default.
fn lookup_desc<'b>(c: &'b DocComment, name: &String) -> (r: &'b str)
    ensures
        r@ == lookup(param_views(c.params@), name@),
{
    let ghost ps = param_views(c.params@);
    let n = c.params.len();
    let mut i: usize = 0;
    assert(ps.subrange(0, n as int) == ps);
    while i < n
        invariant
            i <= n == c.params@.len() == ps.len(),
            ps == param_views(c.params@),
            lookup(ps, name@) == lookup(ps.subrange(i as int, n as int), name@),
        decreases n - i,
    {
        assert(ps.subrange(i as int, n as int).drop_first() == ps.subrange(i + 1, n as int));
        assert(ps.subrange(i as int, n as int)[0] == c.params@[i as int]@);
        if c.params[i].name == *name {
            return c.params[i].description.as_str();
        }
        i = i + 1;
    }
    "No description"
}

/// Appends the bullet of each function parameter.
fn push_param_lines(md: &mut String, params: &Vec<String>, comment: Option<&DocComment>)
    ensures
        final(md)@ == old(md)@ + param_lines(views(params@), doc_view(comment)),
{
    let ghost xs = views(params@);
    let mut i: usize = 0;
    assert(xs.take(0) == Seq::<Seq<char>>::empty());
    while i < params.len()
        invariant
            i <= params@.len(),
            xs == views(params@),
            md@ =~= old(md)@ + param_lines(xs.take(i as int), doc_view(comment)),
        decreases params@.len() - i,
    {
        let v = chars_of(params[i].as_str());
        let (a, b) = last_token_bounds(&v);
        let name = string_of(&v, a, b);
        md.append("- `");
        md.append(name.as_str());
        match comment {
            Some(c) => {
                md.append("`: ");
                md.append(lookup_desc(c, &name));
                md.append("\n");
            },
            None => {
                md.append("`\n");
            },
        }
        assert(xs.take(i + 1).drop_last() == xs.take(i as int));
        assert(xs.take(i + 1).last() == params@[i as int]@);
        i = i + 1;
    }
    assert(xs.take(i as int) == xs);
}

/// Appends `parts` separated by `sep`.
fn push_joined(md: &mut String, parts: &Vec<String>, sep: &str)
    ensures
        final(md)@ == old(md)@ + join(views(parts@), sep@),
{
    let ghost xs = views(parts@);
    let mut i: usize = 0;
    assert(xs.take(0) == Seq::<Seq<char>>::empty());
    while i < parts.len()
        invariant
            i <= parts@.len(),
            xs == views(parts@),
            md@ =~= old(md)@ + join(xs.take(i as int), sep@),
        decreases parts@.len() - i,
    {
        proof {
            assert(xs.take(i + 1) == xs.take(i as int).push(xs[i as int]));
            lemma_join_push(xs.take(i as int), sep@, xs[i as int]);
        }
        if i > 0 {
            md.append(sep);
        }
        md.append(parts[i].as_str());
        i = i + 1;
    }
    assert(xs.take(i as int) == xs);
}

/// The return description or its default.
fn ret_desc<'b>(comment: Option<&'b DocComment>) -> (r: &'b str)
    ensures
        r@ == ret_text(doc_view(comment)),
{
    match comment {
        Some(c) => match &c.retval {
            Some(r) => r.description.as_str(),
            None => "No description",
        },
        None => "No description",
    }
}

impl<'a> Node<'a> {
    /// The Markdown of this node.
    pub fn md_gen_visit(&self) -> (r: String)
        ensures
            r@ == render_node(self@),
    {
        match self.get_value() {
            Some(node_type) => node_type.md_gen_visit(self.get_comment()),
            None => String::new(),
        }
    }
}

impl<'a> NodeTypes<'a> {
    /// The Markdown of this declaration with the given documentation.
    pub fn md_gen_visit(&self, comment: Option<&'a DocComment>) -> (r: String)
        ensures
            r@ == render_decl(self@, doc_view(comment)),
    {
        match self {
            NodeTypes::Enum(_) => self.md_gen_visit_enum(comment),
            NodeTypes::Function(_) => self.md_gen_visit_function(comment),
            NodeTypes::Struct(_) => self.md_gen_visit_struct(comment),
        }
    }

    /// The Markdown of an enum.
    pub fn md_gen_visit_enum(&self, comment: Option<&'a DocComment>) -> (r: String)
        requires
            self is Enum,
        ensures
            r@ == render_decl(self@, doc_view(comment)),
    {
        let NodeTypes::Enum(node) = self else { return String::new() };
        let mut md = String::new();
        md.append("## Enum `");
        md.append(node.name.as_str());
        md.append("`\n\n");
        let esc = md_escape(comment_text(comment));
        md.append(esc.as_str());
        md.append("\n\n");
        md.append("**Variants**:\n");
        push_bullets(&mut md, &node.variants);
        assert(md@ =~= render_enum(node.name@, views(node.variants@), doc_view(comment)));
        md
    }

    /// The Markdown of a function.
    pub fn md_gen_visit_function(&self, comment: Option<&'a DocComment>) -> (r: String)
        requires
            self is Function,
        ensures
            r@ == render_decl(self@, doc_view(comment)),
    {
        let NodeTypes::Function(node) = self else { return String::new() };
        let ghost doc = doc_view(comment);
        let mut md = String::new();
        md.append("## Function `");
        md.append(node.name.as_str());
        md.append("`\n\n");
        md.append("```c\n");
        md.append(node.return_type.as_str());
        md.append(" ");
        md.append(node.name.as_str());
        md.append("(");
        push_joined(&mut md, &node.params, ", ");
        md.append(")\n```\n\n");
        let esc = md_escape(comment_text(comment));
        md.append(esc.as_str());
        md.append("\n\n");
        let ghost before_returns = md@;
        let void = String::from_str("void");
        if node.return_type != void {
            md.append("**Returns**:\n\n`");
            md.append(node.return_type.as_str());
            md.append("`: ");
            md.append(ret_desc(comment));
            md.append("\n\n");
        }
        assert(md@ =~= before_returns + returns_section(node.return_type@, doc));
        md.append("**Parameters**:\n");
        push_param_lines(&mut md, &node.params, comment);
        assert(md@ =~= render_function(node.name@, node.return_type@, views(node.params@), doc));
        md
    }

    /// The Markdown of a struct.
    pub fn md_gen_visit_struct(&self, comment: Option<&'a DocComment>) -> (r: String)
        requires
            self is Struct,
        ensures
            r@ == render_decl(self@, doc_view(comment)),
    {
        let NodeTypes::Struct(node) = self else { return String::new() };
        let mut md = String::new();
        md.append("## Struct `");
        md.append(node.name.as_str());
        md.append("`\n\n");
        let esc = md_escape(comment_text(comment));
        md.append(esc.as_str());
        md.append("\n\n");
        md.append("**Members**:\n");
        push_bullets(&mut md, &node.members);
        assert(md@ =~= render_struct(node.name@, views(node.members@), doc_view(comment)));
        md
    }
}

/// The Markdown of the whole document: one fragment per node that holds a
/// declaration, separated by a blank line.
pub fn generate_md(ast: &AST) -> (r: String)
    ensures
        r@ == document(ast@),
{
    let nodes = ast.nodes();
    let ghost ns = node_views(nodes@);
    let mut md = String::new();
    let mut count: usize = 0;
    let mut i: usize = 0;
    assert(ns.take(0) == Seq::<NodeV>::empty());
    while i < nodes.len()
        invariant
            i <= nodes@.len(),
            ns == node_views(nodes@),
            ns == ast@,
            count == fragments(ns.take(i as int)).len(),
            count <= i,
            md@ == join(fragments(ns.take(i as int)), "\n\n"@),
        decreases nodes@.len() - i,
    {
        assert(ns.take(i + 1).drop_last() == ns.take(i as int));
        assert(ns.take(i + 1).last() == nodes@[i as int]@);
        let node = &nodes[i];
        if node.get_value().is_some() {
            let frag = node.md_gen_visit();
            proof {
                lemma_join_push(fragments(ns.take(i as int)), "\n\n"@, frag@);
            }
            if count > 0 {
                md.append("\n\n");
            }
            md.append(frag.as_str());
            assert(md@ =~= join(fragments(ns.take(i + 1)), "\n\n"@));
            count = count + 1;
        }
        i = i + 1;
    }
    assert(ns.take(i as int) == ns);
    md
}

/// The first `@param` entry called `name` is the one whose description is
/// looked up.
proof fn lemma_lookup_first(ps: Seq<ParamV>, name: Seq<char>, i: int)
    requires
        0 <= i < ps.len(),
        ps[i].name == name,
        forall|j: int| 0 <= j < i ==> ps[j].name != name,
    ensures
        lookup(ps, name) == ps[i].description,
    decreases i,
{
    if i > 0 {
        assert forall|j: int| 0 <= j < i - 1 implies ps.drop_first()[j].name != name by {
            assert(ps.drop_first()[j] == ps[j + 1]);
        }
        lemma_lookup_first(ps.drop_first(), name, i - 1);
    }
}

/// A documented function parameter's bullet shows the description of the
/// first `@param` entry named like the last whitespace-separated token of
/// the parameter's text.
pub proof fn lemma_param_line_uses_last_token(p: Seq<char>, d: DocCommentV, i: int)
    requires
        0 <= i < d.params.len(),
        d.params[i].name == last_token(p),
        forall|j: int| 0 <= j < i ==> d.params[j].name != last_token(p),
    ensures
        param_line(p, Some(d)) == "- `"@ + last_token(p) + "`: "@ + d.params[i].description + "\n"@,
{
    lemma_lookup_first(d.params, last_token(p), i);
}

proof fn lemma_tail_word_after_space(q: Seq<char>, c: char, name: Seq<char>)
    requires
        is_ws(c),
        forall|i: int| 0 <= i < name.len() ==> !is_ws(#[trigger] name[i]),
    ensures
        tail_word(q + seq![c] + name) == name,
    decreases name.len(),
{
    let s = q + seq![c] + name;
    if name.len() == 0 {
        assert(s.last() == c);
    } else {
        assert(s.drop_last() == q + seq![c] + name.drop_last());
        assert(s.last() == name.last());
        lemma_tail_word_after_space(q, c, name.drop_last());
        assert(name.drop_last().push(name.last()) == name);
    }
}

/// The last whitespace-separated token of `q`, a whitespace character and a
/// name without whitespace is that name: the name of `const int* count` is
/// `count`.
pub proof fn lemma_last_token_of_declared_name(q: Seq<char>, c: char, name: Seq<char>)
    requires
        is_ws(c),
        name.len() > 0,
        forall|i: int| 0 <= i < name.len() ==> !is_ws(#[trigger] name[i]),
    ensures
        last_token(q + seq![c] + name) == name,
{
    let s = q + seq![c] + name;
    assert(s.last() == name.last());
    assert(!is_ws(name[name.len() - 1]));
    assert(trim_end(s) == s);
    lemma_tail_word_after_space(q, c, name);
}

proof fn lemma_param_lines_ignore_retval(ps: Seq<Seq<char>>, d: DocCommentV)
    ensures
        param_lines(ps, Some(d)) == param_lines(ps, Some(DocCommentV { retval: None, ..d })),
    decreases ps.len(),
{
    if ps.len() > 0 {
        lemma_param_lines_ignore_retval(ps.drop_last(), d);
    }
}

/// A function declared `void` renders no Returns block, and its Markdown is
/// the same whether or not its documentation describes a return value.
pub proof fn lemma_void_has_no_returns(
    name: Seq<char>,
    params: Seq<Seq<char>>,
    doc: Option<DocCommentV>,
)
    ensures
        returns_section("void"@, doc) == Seq::<char>::empty(),
        doc is Some ==> render_function(name, "void"@, params, doc) == render_function(
            name,
            "void"@,
            params,
            Some(DocCommentV { retval: None, ..doc->0 }),
        ),
{
    if doc is Some {
        lemma_param_lines_ignore_retval(params, doc->0);
    }
}

/// A documentation comment at the end of the input changes nothing in the
/// Markdown.
pub proof fn lemma_dangling_doc_renders_nothing(ts: Seq<ParsedTokenV>, d: DocCommentV)
    ensures
        document(assemble(ts.push(ParsedTokenV::DocComment(d)))) == document(assemble(ts)),
{
    lemma_dangling_doc_dropped(ts, d);
}

} // verus!
