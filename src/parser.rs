//! The declaration parser: turns each span into a documentation comment or
//! a declaration record.

use vstd::prelude::*;

use crate::entity::{
    param_views, DocComment, DocCommentV, Enum, EnumV, Function, FunctionV, Param, ParamV,
    Return, Struct, StructV,
};
use crate::pattern::{captures_of, first_match_groups};
use crate::text::{
    chars_of, clean_bounds, push_char, push_chars, split_by, split_ranges, split_trimmed,
    src_split, string_of, trim, trim_bounds, trim_end, trim_stars, lemma_split_trimmed_pieces,
};
use crate::token::{pair_views, Token, TokenValuePair};
use crate::DocError;

verus! {

/// A `@param <name> <text>` line.
pub const PARAM_PATTERN: &'static str = r"[^\S\r\n]*@param[^\S\r\n]+(?<name>\w+)[^\S\r\n]+(?<desc>([^\r\n]+))";

/// A `@return <text>` line.
pub const RETVAL_PATTERN: &'static str = r"[^\S\r\n]*@return[^\S\r\n]+(?<desc>([^\r\n])+)";

/// `struct <name> { <body> }`.
pub const STRUCT_PATTERN: &'static str = r"(?s)struct\s+(\w+)\s*\{(.*?)\}";

/// `<return type> <name> ( <params> )`.
pub const FUNCTION_PATTERN: &'static str = r"(?s)(\w+)\s+(\w+)\s*\((.*?)\)";

/// `enum <name> { <body> }`.
pub const ENUM_PATTERN: &'static str = r"(?s)enum\s+(\w+)\s*\{(.*?)\}";

/// A parsed span.
pub enum ParsedToken {
    DocComment(DocComment),
    Struct(Struct),
    Function(Function),
    Enum(Enum),
}

/// The model of a [`ParsedToken`].
pub enum ParsedTokenV {
    DocComment(DocCommentV),
    Struct(StructV),
    Function(FunctionV),
    Enum(EnumV),
}

impl View for ParsedToken {
    type V = ParsedTokenV;

    open spec fn view(&self) -> ParsedTokenV {
        match self {
            ParsedToken::DocComment(d) => ParsedTokenV::DocComment(d@),
            ParsedToken::Struct(s) => ParsedTokenV::Struct(s@),
            ParsedToken::Function(f) => ParsedTokenV::Function(f@),
            ParsedToken::Enum(e) => ParsedTokenV::Enum(e@),
        }
    }
}

/// The models of a sequence of parsed spans.
pub open spec fn parsed_views(v: Seq<ParsedToken>) -> Seq<ParsedTokenV> {
    v.map_values(|t: ParsedToken| t@)
}

/// Types that can be parsed from the text of one span.
pub trait Parse: Sized {
    /// Whether `r` is what parsing `src` gives.
    spec fn parses_to(src: Seq<char>, r: Option<Self>) -> bool;

    /// Parses one span; `None` where it does not fit the grammar.
    fn parse(src: &str) -> (r: Option<Self>)
        ensures
            Self::parses_to(src@, r),
    ;
}

/// The section of a documentation comment that a line continues.
#[derive(Clone, Copy, PartialEq, Eq, Structural)]
pub enum Section {
    Description,
    Param,
    Return,
}

/// The name and text of a `@param` line, from the groups of its match.
pub open spec fn param_groups(g: Seq<Option<Seq<char>>>) -> Option<(Seq<char>, Seq<char>)> {
    if g.len() > 2 && g[1] is Some && g[2] is Some {
        Some((g[1]->0, g[2]->0))
    } else {
        None
    }
}

/// The name and text of a `@param` line.
pub open spec fn param_of(line: Seq<char>) -> Option<(Seq<char>, Seq<char>)> {
    match first_match_groups(PARAM_PATTERN@, line) {
        Some(g) => param_groups(g),
        None => None,
    }
}

/// The text of a `@return` line, from the groups of its match.
pub open spec fn return_groups(g: Seq<Option<Seq<char>>>) -> Option<Seq<char>> {
    if g.len() > 1 && g[1] is Some {
        Some(g[1]->0)
    } else {
        None
    }
}

/// The text of a `@return` line.
pub open spec fn return_of(line: Seq<char>) -> Option<Seq<char>> {
    match first_match_groups(RETVAL_PATTERN@, line) {
        Some(g) => return_groups(g),
        None => None,
    }
}

/// The comment before any line.
pub open spec fn empty_doc() -> DocCommentV {
    DocCommentV { comment: Seq::empty(), params: Seq::empty(), retval: None }
}


/// One line of a documentation comment applied to the section and record
/// built so far, given the line's `@param` annotation and `@return`
/// annotation, if it has them.
pub open spec fn doc_step_with(
    s: (Section, DocCommentV),
    line: Seq<char>,
    param: Option<(Seq<char>, Seq<char>)>,
    ret: Option<Seq<char>>,
) -> (Section, DocCommentV) {
    let d = s.1;
    match param {
        Some((n, t)) => (
            Section::Param,
            DocCommentV { params: d.params.push(ParamV { name: n, description: t }), ..d },
        ),
        None => match ret {
            Some(t) => (Section::Return, DocCommentV { retval: Some(t), ..d }),
            None => match s.0 {
                Section::Description => (
                    Section::Description,
                    DocCommentV { comment: d.comment + line + seq!['\n'], ..d },
                ),
                Section::Param => if d.params.len() > 0 {
                    let p = d.params.last();
                    let q = ParamV { name: p.name, description: p.description + seq![' '] + trim(line) };
                    (Section::Param, DocCommentV { params: d.params.update(d.params.len() - 1, q), ..d })
                } else {
                    s
                },
                Section::Return => match d.retval {
                    Some(t) => (
                        Section::Return,
                        DocCommentV { retval: Some(t + seq![' '] + trim(line)), ..d },
                    ),
                    None => s,
                },
            },
        },
    }
}

/// One line of a documentation comment applied to the section and record
/// built so far.
pub open spec fn doc_step(s: (Section, DocCommentV), line: Seq<char>) -> (Section, DocCommentV) {
    doc_step_with(s, line, param_of(line), return_of(line))
}

/// The lines of a documentation comment applied in order.
pub open spec fn doc_fold(lines: Seq<Seq<char>>) -> (Section, DocCommentV)
    decreases lines.len(),
{
    if lines.len() == 0 {
        (Section::Description, empty_doc())
    } else {
        doc_step(doc_fold(lines.drop_last()), lines.last())
    }
}

/// A physical line with its indentation and leading `*` taken off.
pub open spec fn clean_line(l: Seq<char>) -> Seq<char> {
    trim_end(trim_stars(trim(l)))
}

/// The cleaned physical lines that are not empty, in order.
pub open spec fn doc_lines(pieces: Seq<Seq<char>>) -> Seq<Seq<char>>
    decreases pieces.len(),
{
    if pieces.len() == 0 {
        Seq::empty()
    } else {
        let rest = doc_lines(pieces.drop_last());
        let c = clean_line(pieces.last());
        if c.len() == 0 {
            rest
        } else {
            rest.push(c)
        }
    }
}

/// The text between `/**` and `*/`.
pub open spec fn strip_delims(s: Seq<char>) -> Option<Seq<char>> {
    if s.len() >= 5 && s.take(3) == seq!['/', '*', '*'] && s.subrange(s.len() - 2, s.len() as int)
        == seq!['*', '/'] {
        Some(s.subrange(3, s.len() - 2))
    } else {
        None
    }
}

/// The characters that end a physical line.
pub open spec fn line_breaks() -> Seq<char> {
    seq!['\n', '\r']
}

/// The record of a documentation comment.
pub open spec fn doc_comment_of(src: Seq<char>) -> Option<DocCommentV> {
    match strip_delims(src) {
        Some(body) => Some(doc_fold(doc_lines(split_by(body, line_breaks()))).1),
        None => None,
    }
}

/// The record of a struct declaration, from the groups of its match.
pub open spec fn struct_groups(g: Seq<Option<Seq<char>>>) -> Option<StructV> {
    if g.len() > 2 && g[1] is Some && g[2] is Some {
        Some(StructV { name: g[1]->0, members: split_trimmed(g[2]->0, ';') })
    } else {
        None
    }
}

/// The record of a struct declaration.
pub open spec fn struct_of(src: Seq<char>) -> Option<StructV> {
    match first_match_groups(STRUCT_PATTERN@, src) {
        Some(g) => struct_groups(g),
        None => None,
    }
}

/// The record of a function declaration, from the groups of its match.
pub open spec fn function_groups(g: Seq<Option<Seq<char>>>) -> Option<FunctionV> {
    if g.len() > 3 && g[1] is Some && g[2] is Some && g[3] is Some {
        Some(FunctionV { name: g[2]->0, return_type: g[1]->0, params: split_trimmed(g[3]->0, ',') })
    } else {
        None
    }
}

/// The record of a function declaration.
pub open spec fn function_of(src: Seq<char>) -> Option<FunctionV> {
    match first_match_groups(FUNCTION_PATTERN@, src) {
        Some(g) => function_groups(g),
        None => None,
    }
}

/// The record of an enum declaration, from the groups of its match.
pub open spec fn enum_groups(g: Seq<Option<Seq<char>>>) -> Option<EnumV> {
    if g.len() > 2 && g[1] is Some && g[2] is Some {
        Some(EnumV { name: g[1]->0, variants: split_trimmed(g[2]->0, ',') })
    } else {
        None
    }
}

/// The record of an enum declaration.
pub open spec fn enum_of(src: Seq<char>) -> Option<EnumV> {
    match first_match_groups(ENUM_PATTERN@, src) {
        Some(g) => enum_groups(g),
        None => None,
    }
}

/// The text of group `i`, if the match has it.
fn group(g: &Vec<Option<String>>, i: usize) -> (r: Option<String>)
    ensures
        i < g@.len() ==> r.deep_view() == g.deep_view()[i as int],
        i >= g@.len() ==> r is None,
{
    if i < g.len() {
        assert(g.deep_view()[i as int] == g@[i as int].deep_view());
        match &g[i] {
            Some(s) => Some(s.clone()),
            None => None,
        }
    } else {
        None
    }
}

/// The name and text of a `@param` line, from the groups of its match.
pub fn param_from_groups(g: &Vec<Option<String>>) -> (r: Option<(String, String)>)
    ensures
        r.deep_view() == param_groups(g.deep_view()),
{
    let name = group(g, 1)?;
    let desc = group(g, 2)?;
    Some((name, desc))
}

/// The text of a `@return` line, from the groups of its match.
pub fn return_from_groups(g: &Vec<Option<String>>) -> (r: Option<String>)
    ensures
        r.deep_view() == return_groups(g.deep_view()),
{
    group(g, 1)
}

/// Applies one line of a documentation comment to the section and record
/// built so far, given the line's `@param` annotation and `@return`
/// annotation, if it has them.
pub fn apply_annotated_line(
    section: &mut Section,
    doc: &mut DocComment,
    line: &str,
    param: Option<(String, String)>,
    ret: Option<String>,
)
    ensures
        (*final(section), final(doc)@) == doc_step_with(
            (*old(section), old(doc)@),
            line@,
            param.deep_view(),
            ret.deep_view(),
        ),
{
    if let Some((name, description)) = param {
        let ghost ps = param_views(doc.params@);
        let p = Param { name, description };
        doc.params.push(p);
        assert(param_views(doc.params@) =~= ps.push(p@));
        *section = Section::Param;
        return;
    }
    if let Some(description) = ret {
        doc.retval = Some(Return { description });
        *section = Section::Return;
        return;
    }
    let v = chars_of(line);
    let n = v.len();
    assert(v@.subrange(0, n as int) == line@);
    match *section {
        Section::Description => {
            push_chars(&mut doc.comment, &v, 0, n);
            push_char(&mut doc.comment, '\n');
            assert(doc.comment@ =~= old(doc).comment@ + line@ + seq!['\n']);
        },
        Section::Param => {
            let ghost old_params = doc.params@;
            let ghost ps = param_views(doc.params@);
            if let Some(mut p) = doc.params.pop() {
                assert(p == old_params.last());
                assert(ps.last() == p@);
                let ghost rest = doc.params@;
                let (c, e) = trim_bounds(&v, 0, n);
                push_char(&mut p.description, ' ');
                push_chars(&mut p.description, &v, c, e);
                let ghost q = ParamV { name: ps.last().name, description: ps.last().description + seq![' '] + trim(line@) };
                assert(p.description@ =~= q.description);
                assert(p@ == q);
                doc.params.push(p);
                assert(doc.params@ == rest.push(p));
                assert(rest == old_params.drop_last());
                assert(param_views(doc.params@) =~= ps.update(ps.len() - 1, q));
            }
        },
        Section::Return => {
            if let Some(mut r) = doc.retval.take() {
                let ghost t = r.description@;
                let (c, e) = trim_bounds(&v, 0, n);
                push_char(&mut r.description, ' ');
                push_chars(&mut r.description, &v, c, e);
                assert(r.description@ =~= t + seq![' '] + trim(line@));
                doc.retval = Some(r);
            }
        },
    }
}

/// One line of a documentation comment applied to the section and record
/// built so far.
fn apply_line(section: &mut Section, doc: &mut DocComment, line: &str)
    ensures
        (*final(section), final(doc)@) == doc_step((*old(section), old(doc)@), line@),
{
    let param = match captures_of(PARAM_PATTERN, line) {
        Some(g) => param_from_groups(&g),
        None => None,
    };
    let ret = if param.is_some() {
        None
    } else {
        match captures_of(RETVAL_PATTERN, line) {
            Some(g) => return_from_groups(&g),
            None => None,
        }
    };
    apply_annotated_line(section, doc, line, param, ret);
}

impl Parse for DocComment {
    open spec fn parses_to(src: Seq<char>, r: Option<Self>) -> bool {
        match doc_comment_of(src) {
            Some(d) => r is Some && r->0@ == d,
            None => r is None,
        }
    }

    fn parse(src: &str) -> (r: Option<Self>) {
        let v = chars_of(src);
        let n = v.len();
        if !(n >= 5 && v[0] == '/' && v[1] == '*' && v[2] == '*' && v[n - 2] == '*' && v[n - 1]
            == '/') {
            proof {
                if strip_delims(src@) is Some {
                    assert(v@.take(3)[0] == v@[0] && v@.take(3)[1] == v@[1] && v@.take(3)[2] == v@[2]);
                    assert(v@.subrange(n - 2, n as int)[0] == v@[n - 2]);
                    assert(v@.subrange(n - 2, n as int)[1] == v@[n - 1]);
                }
            }
            return None;
        }
        assert(v@.take(3) == seq!['/', '*', '*']);
        assert(v@.subrange(n - 2, n as int) == seq!['*', '/']);
        let ghost body = v@.subrange(3, n - 2);
        let seps = vec!['\n', '\r'];
        assert(seps@ == line_breaks());
        let lines = split_ranges(&v, 3, n - 2, &seps);
        let ghost pieces = split_by(body, line_breaks());
        assert(pieces == split_by(v@.subrange(3, n - 2), seps@));
        let mut section = Section::Description;
        let mut doc = DocComment { comment: String::new(), params: Vec::new(), retval: None };
        let mut k: usize = 0;
        assert(pieces.take(0) == Seq::<Seq<char>>::empty());
        assert(param_views(doc.params@) =~= Seq::<ParamV>::empty());
        while k < lines.len()
            invariant
                k <= lines@.len() == pieces.len(),
                n == v@.len(),
                n >= 5,
                body == v@.subrange(3, n - 2),
                pieces == split_by(body, line_breaks()),
                forall|j: int|
                    0 <= j < lines@.len() ==> {
                        &&& 3 <= #[trigger] lines@[j].0 <= lines@[j].1 <= n - 2
                        &&& v@.subrange(lines@[j].0 as int, lines@[j].1 as int) == pieces[j]
                    },
                (section, doc@) == doc_fold(doc_lines(pieces.take(k as int))),
            decreases lines@.len() - k,
        {
            assert(pieces.take(k + 1).drop_last() == pieces.take(k as int));
            assert(pieces.take(k + 1).last() == pieces[k as int]);
            let (lo, hi) = lines[k];
            let (a, b) = clean_bounds(&v, lo, hi);
            assert(v@.subrange(a as int, b as int) == clean_line(pieces[k as int]));
            let ghost dl = doc_lines(pieces.take(k as int));
            if a < b {
                let text = string_of(&v, a, b);
                apply_line(&mut section, &mut doc, text.as_str());
                assert(doc_lines(pieces.take(k + 1)) == dl.push(clean_line(pieces[k as int])));
                assert(dl.push(clean_line(pieces[k as int])).drop_last() == dl);
            } else {
                assert(doc_lines(pieces.take(k + 1)) == dl);
            }
            k = k + 1;
        }
        assert(pieces.take(k as int) == pieces);
        Some(doc)
    }
}

impl Struct {
    /// The struct declared by a match, from the groups of the match.
    pub fn from_groups(g: &Vec<Option<String>>) -> (r: Option<Struct>)
        ensures
            match struct_groups(g.deep_view()) {
                Some(s) => r is Some && r->0@ == s,
                None => r is None,
            },
    {
        let name = group(g, 1)?;
        let body = group(g, 2)?;
        let members = src_split(body.as_str(), ';');
        Some(Struct { name, members })
    }
}

impl Function {
    /// The function declared by a match, from the groups of the match.
    pub fn from_groups(g: &Vec<Option<String>>) -> (r: Option<Function>)
        ensures
            match function_groups(g.deep_view()) {
                Some(f) => r is Some && r->0@ == f,
                None => r is None,
            },
    {
        let return_type = group(g, 1)?;
        let name = group(g, 2)?;
        let list = group(g, 3)?;
        let params = src_split(list.as_str(), ',');
        Some(Function { name, return_type, params })
    }
}

impl Enum {
    /// The enum declared by a match, from the groups of the match.
    pub fn from_groups(g: &Vec<Option<String>>) -> (r: Option<Enum>)
        ensures
            match enum_groups(g.deep_view()) {
                Some(e) => r is Some && r->0@ == e,
                None => r is None,
            },
    {
        let name = group(g, 1)?;
        let body = group(g, 2)?;
        let variants = src_split(body.as_str(), ',');
        Some(Enum { name, variants })
    }
}

impl Parse for Struct {
    open spec fn parses_to(src: Seq<char>, r: Option<Self>) -> bool {
        match struct_of(src) {
            Some(s) => r is Some && r->0@ == s,
            None => r is None,
        }
    }

    fn parse(src: &str) -> (r: Option<Self>) {
        let g = captures_of(STRUCT_PATTERN, src)?;
        Struct::from_groups(&g)
    }
}

impl Parse for Function {
    open spec fn parses_to(src: Seq<char>, r: Option<Self>) -> bool {
        match function_of(src) {
            Some(f) => r is Some && r->0@ == f,
            None => r is None,
        }
    }

    fn parse(src: &str) -> (r: Option<Self>) {
        let g = captures_of(FUNCTION_PATTERN, src)?;
        Function::from_groups(&g)
    }
}

impl Parse for Enum {
    open spec fn parses_to(src: Seq<char>, r: Option<Self>) -> bool {
        match enum_of(src) {
            Some(e) => r is Some && r->0@ == e,
            None => r is None,
        }
    }

    fn parse(src: &str) -> (r: Option<Self>) {
        let g = captures_of(ENUM_PATTERN, src)?;
        Enum::from_groups(&g)
    }
}

/// While a comment is read, a line that continues a parameter always has a
/// parameter to continue, and one that continues the return description
/// always has a return description.
pub proof fn lemma_doc_sections_consistent(lines: Seq<Seq<char>>)
    ensures
        doc_fold(lines).0 == Section::Param ==> doc_fold(lines).1.params.len() > 0,
        doc_fold(lines).0 == Section::Return ==> doc_fold(lines).1.retval is Some,
    decreases lines.len(),
{
    if lines.len() > 0 {
        lemma_doc_sections_consistent(lines.drop_last());
    }
}

/// Every member of a parsed struct is non-empty, trimmed and free of `;`;
/// every variant of a parsed enum and every parameter of a parsed function
/// is non-empty, trimmed and free of `,`.
pub proof fn lemma_declaration_pieces_clean(src: Seq<char>)
    ensures
        struct_of(src) is Some ==> forall|i: int|
            0 <= i < struct_of(src)->0.members.len() ==> {
                let m = #[trigger] struct_of(src)->0.members[i];
                &&& m.len() > 0
                &&& trim(m) == m
                &&& !m.contains(';')
            },
        enum_of(src) is Some ==> forall|i: int|
            0 <= i < enum_of(src)->0.variants.len() ==> {
                let m = #[trigger] enum_of(src)->0.variants[i];
                &&& m.len() > 0
                &&& trim(m) == m
                &&& !m.contains(',')
            },
        function_of(src) is Some ==> forall|i: int|
            0 <= i < function_of(src)->0.params.len() ==> {
                let m = #[trigger] function_of(src)->0.params[i];
                &&& m.len() > 0
                &&& trim(m) == m
                &&& !m.contains(',')
            },
{
    if let Some(g) = first_match_groups(STRUCT_PATTERN@, src) {
        if g.len() > 2 && g[1] is Some && g[2] is Some {
            lemma_split_trimmed_pieces(g[2]->0, ';');
        }
    }
    if let Some(g) = first_match_groups(ENUM_PATTERN@, src) {
        if g.len() > 2 && g[1] is Some && g[2] is Some {
            lemma_split_trimmed_pieces(g[2]->0, ',');
        }
    }
    if let Some(g) = first_match_groups(FUNCTION_PATTERN@, src) {
        if g.len() > 3 && g[1] is Some && g[2] is Some && g[3] is Some {
            lemma_split_trimmed_pieces(g[3]->0, ',');
        }
    }
}

/// The parsed form of one span, or `None` where its text does not fit the
/// grammar of its kind.
pub open spec fn parse_pair(p: (Token, Seq<char>)) -> Option<ParsedTokenV> {
    match p.0 {
        Token::DocComment => match doc_comment_of(p.1) {
            Some(d) => Some(ParsedTokenV::DocComment(d)),
            None => None,
        },
        Token::Struct => match struct_of(p.1) {
            Some(x) => Some(ParsedTokenV::Struct(x)),
            None => None,
        },
        Token::Function => match function_of(p.1) {
            Some(x) => Some(ParsedTokenV::Function(x)),
            None => None,
        },
        Token::Enum => match enum_of(p.1) {
            Some(x) => Some(ParsedTokenV::Enum(x)),
            None => None,
        },
    }
}

/// The parsed forms of a sequence of spans, or `None` where one of them does
/// not fit its grammar.
pub open spec fn parse_all(ps: Seq<(Token, Seq<char>)>) -> Option<Seq<ParsedTokenV>>
    decreases ps.len(),
{
    if ps.len() == 0 {
        Some(Seq::empty())
    } else {
        match (parse_all(ps.drop_last()), parse_pair(ps.last())) {
            (Some(ts), Some(t)) => Some(ts.push(t)),
            _ => None,
        }
    }
}

/// A prefix that does not parse leaves the whole unparsed.
proof fn lemma_parse_all_prefix_none(ps: Seq<(Token, Seq<char>)>, k: int)
    requires
        0 <= k <= ps.len(),
        parse_all(ps.take(k)) is None,
    ensures
        parse_all(ps) is None,
    decreases ps.len() - k,
{
    if k < ps.len() {
        assert(ps.take(k + 1).drop_last() == ps.take(k));
        lemma_parse_all_prefix_none(ps, k + 1);
    } else {
        assert(ps.take(k) == ps);
    }
}

/// Parses one span according to its kind.
fn parse_one(pair: &TokenValuePair) -> (r: Option<ParsedToken>)
    ensures
        match parse_pair(pair@) {
            Some(t) => r is Some && r->0@ == t,
            None => r is None,
        },
{
    let src = pair.value.as_str();
    match pair.token {
        Token::DocComment => match DocComment::parse(src) {
            Some(d) => Some(ParsedToken::DocComment(d)),
            None => None,
        },
        Token::Struct => match Struct::parse(src) {
            Some(x) => Some(ParsedToken::Struct(x)),
            None => None,
        },
        Token::Function => match Function::parse(src) {
            Some(x) => Some(ParsedToken::Function(x)),
            None => None,
        },
        Token::Enum => match Enum::parse(src) {
            Some(x) => Some(ParsedToken::Enum(x)),
            None => None,
        },
    }
}

/// Parses every span, in order; `StructuralMismatch` where one of them does
/// not fit the grammar of its kind.
pub fn parse_tokens(pairs: &Vec<TokenValuePair>) -> (r: Result<Vec<ParsedToken>, DocError>)
    ensures
        match parse_all(pair_views(pairs@)) {
            Some(ts) => r is Ok && parsed_views(r->Ok_0@) == ts,
            None => r matches Err(DocError::StructuralMismatch),
        },
{
    let ghost ps = pair_views(pairs@);
    let mut out: Vec<ParsedToken> = Vec::new();
    let mut i: usize = 0;
    assert(ps.take(0) == Seq::<(Token, Seq<char>)>::empty());
    assert(parsed_views(out@) =~= Seq::<ParsedTokenV>::empty());
    while i < pairs.len()
        invariant
            i <= pairs@.len(),
            ps == pair_views(pairs@),
            parse_all(ps.take(i as int)) == Some(parsed_views(out@)),
        decreases pairs@.len() - i,
    {
        assert(ps.take(i + 1).drop_last() == ps.take(i as int));
        assert(ps.take(i + 1).last() == pairs@[i as int]@);
        match parse_one(&pairs[i]) {
            Some(t) => {
                assert(parsed_views(out@.push(t)) =~= parsed_views(out@).push(t@));
                out.push(t);
            },
            None => {
                proof {
                    lemma_parse_all_prefix_none(ps, i as int + 1);
                }
                return Err(DocError::StructuralMismatch);
            },
        }
        i = i + 1;
    }
    assert(ps.take(i as int) == ps);
    Ok(out)
}

} // verus!
