//! The tokenizer: slices source text into typed spans of documentation
//! comments and declarations.

use vstd::prelude::*;

use crate::pattern::{all_named_groups, named_captures_all};
use crate::DocError;

verus! {

/// The kinds of span that the tokenizer finds.
#[derive(Debug, Clone, Copy, PartialEq, Eq, Structural)]
pub enum Token {
    /// A documentation comment.
    DocComment,
    /// A function declaration.
    Function,
    /// A struct declaration.
    Struct,
    /// An enum declaration.
    Enum,
}

/// A span found by the tokenizer: its kind and its exact text.
pub struct TokenValuePair {
    /// The kind of the span.
    pub token: Token,
    /// The matched text.
    pub value: String,
}

impl View for TokenValuePair {
    type V = (Token, Seq<char>);

    open spec fn view(&self) -> (Token, Seq<char>) {
        (self.token, self.value@)
    }
}

/// The kinds, in the order in which the combined pattern tries them.
pub open spec fn kinds() -> Seq<Token> {
    seq![Token::DocComment, Token::Function, Token::Struct, Token::Enum]
}

/// The name of the capture group of each kind.
pub open spec fn kind_name(t: Token) -> Seq<char> {
    match t {
        Token::DocComment => "DocComment"@,
        Token::Function => "Function"@,
        Token::Struct => "Struct"@,
        Token::Enum => "Enum"@,
    }
}

/// The pattern of each kind, in the `regex` crate's syntax.
pub open spec fn kind_pattern(t: Token) -> Seq<char> {
    match t {
        Token::DocComment => r"/\*\*(.*?)\*/"@,
        Token::Function => r"\w+\s+\w+\s*\([^)]*\)\s*;"@,
        Token::Struct => r"(typedef)?struct\s+\w+\s*\{[^}]*\}\s*(\w+)?;"@,
        Token::Enum => r"(typedef)?enum\s+\w+\s*\{[^}]*\}\s*(\w+)?;"@,
    }
}

/// The group names of the kinds, in order.
pub open spec fn kind_names() -> Seq<Seq<char>> {
    kinds().map_values(|t: Token| kind_name(t))
}

/// One kind's pattern as a named group.
pub open spec fn named_group(t: Token) -> Seq<char> {
    "(?<"@ + kind_name(t) + ">"@ + kind_pattern(t) + ")"@
}

/// The named groups of `ks`, separated by `|`.
pub open spec fn alternation(ks: Seq<Token>) -> Seq<char>
    decreases ks.len(),
{
    if ks.len() == 0 {
        Seq::empty()
    } else if ks.len() == 1 {
        named_group(ks[0])
    } else {
        alternation(ks.drop_last()) + "|"@ + named_group(ks.last())
    }
}

/// The combined pattern: multi-line, `.` matching newlines, one named group
/// per kind, tried in the order of [`kinds`].
pub open spec fn combined_pattern() -> Seq<char> {
    "(?ms)"@ + alternation(kinds())
}

/// The span that one match stands for: the first kind whose group took part.
pub open spec fn pair_of(g: Seq<Option<Seq<char>>>) -> Option<(Token, Seq<char>)> {
    if g.len() > 0 && g[0] is Some {
        Some((Token::DocComment, g[0]->0))
    } else if g.len() > 1 && g[1] is Some {
        Some((Token::Function, g[1]->0))
    } else if g.len() > 2 && g[2] is Some {
        Some((Token::Struct, g[2]->0))
    } else if g.len() > 3 && g[3] is Some {
        Some((Token::Enum, g[3]->0))
    } else {
        None
    }
}

/// The spans of a sequence of matches, or `None` if one of them took part
/// in no kind's group.
pub open spec fn pairs_of(caps: Seq<Seq<Option<Seq<char>>>>) -> Option<Seq<(Token, Seq<char>)>>
    decreases caps.len(),
{
    if caps.len() == 0 {
        Some(Seq::empty())
    } else {
        match (pairs_of(caps.drop_last()), pair_of(caps.last())) {
            (Some(ps), Some(p)) => Some(ps.push(p)),
            _ => None,
        }
    }
}

/// The spans of a sequence of token pairs.
pub open spec fn pair_views(v: Seq<TokenValuePair>) -> Seq<(Token, Seq<char>)> {
    v.map_values(|p: TokenValuePair| p@)
}

/// What tokenizing `code` gives, in terms of what the pattern engine reports.
pub open spec fn tokenize_spec(code: Seq<char>) -> Option<Seq<(Token, Seq<char>)>> {
    match all_named_groups(combined_pattern(), kind_names(), code) {
        Some(caps) => pairs_of(caps),
        None => None,
    }
}

/// Clones a `String` with its contents.
fn copy_string(s: &String) -> (r: String)
    ensures
        r@ == s@,
{
    s.clone()
}

impl TokenValuePair {
    /// Whether one match took part in some kind's group, given the text of
    /// each kind's group in the order of [`kinds`].
    pub fn has_kind_group(capture: &Vec<Option<String>>) -> (r: bool)
        ensures
            r == (pair_of(capture.deep_view()) is Some),
    {
        let ghost g = capture.deep_view();
        let mut i: usize = 0;
        while i < 4 && i < capture.len()
            invariant
                i <= 4,
                g == capture.deep_view(),
                forall|j: int| 0 <= j < i ==> g[j] is None,
            decreases 4 - i,
        {
            assert(g[i as int] == capture@[i as int].deep_view());
            if capture[i].is_some() {
                return true;
            }
            i = i + 1;
        }
        false
    }

    /// The span of one match, given the text of each kind's group in the
    /// order of [`kinds`]: the first kind whose group took part.
    pub fn from_capture(capture: &Vec<Option<String>>) -> (r: Self)
        requires
            pair_of(capture.deep_view()) is Some,
        ensures
            r@ == pair_of(capture.deep_view())->0,
    {
        let ghost g = capture.deep_view();
        let mut i: usize = 0;
        while i < 4 && i < capture.len()
            invariant
                i <= 4,
                g == capture.deep_view(),
                pair_of(g) is Some,
                forall|j: int| 0 <= j < i ==> g[j] is None,
            decreases 4 - i,
        {
            assert(g[i as int] == capture@[i as int].deep_view());
            if let Some(s) = &capture[i] {
                let token = if i == 0 {
                    Token::DocComment
                } else if i == 1 {
                    Token::Function
                } else if i == 2 {
                    Token::Struct
                } else {
                    Token::Enum
                };
                return TokenValuePair { token, value: copy_string(s) };
            }
            i = i + 1;
        }
        proof {
            assert(false);
        }
        TokenValuePair { token: Token::Enum, value: String::new() }
    }
}

impl Token {
    /// The kinds, in the order in which the combined pattern tries them.
    fn get_pairs() -> (r: Vec<Token>)
        ensures
            r@ == kinds(),
    {
        let r = vec![Token::DocComment, Token::Function, Token::Struct, Token::Enum];
        assert(r@ == kinds());
        r
    }

    /// The name of this kind's capture group.
    pub fn name(&self) -> (r: &'static str)
        ensures
            r@ == kind_name(*self),
    {
        match self {
            Token::DocComment => "DocComment",
            Token::Function => "Function",
            Token::Struct => "Struct",
            Token::Enum => "Enum",
        }
    }

    /// This kind's pattern, in the `regex` crate's syntax.
    pub fn as_str(&self) -> (r: &'static str)
        ensures
            r@ == kind_pattern(*self),
    {
        match self {
            Token::DocComment => r"/\*\*(.*?)\*/",
            Token::Function => r"\w+\s+\w+\s*\([^)]*\)\s*;",
            Token::Struct => r"(typedef)?struct\s+\w+\s*\{[^}]*\}\s*(\w+)?;",
            Token::Enum => r"(typedef)?enum\s+\w+\s*\{[^}]*\}\s*(\w+)?;",
        }
    }

    /// The combined pattern that matches every kind, in the `regex` crate's
    /// syntax.
    pub fn get_regex() -> (r: String)
        ensures
            r@ == combined_pattern(),
    {
        let ks = Token::get_pairs();
        let mut r = String::from_str("(?ms)");
        let mut i: usize = 0;
        while i < ks.len()
            invariant
                i <= ks@.len(),
                ks@ == kinds(),
                r@ == "(?ms)"@ + alternation(ks@.take(i as int)),
            decreases ks@.len() - i,
        {
            let ghost before = r@;
            if i > 0 {
                r.append("|");
            }
            r.append("(?<");
            r.append(ks[i].name());
            r.append(">");
            r.append(ks[i].as_str());
            r.append(")");
            proof {
                let t = ks@.take(i + 1);
                assert(t.drop_last() == ks@.take(i as int));
                assert(t.last() == ks@[i as int]);
                if i == 0 {
                    assert(ks@.take(0) == Seq::<Token>::empty());
                    assert(alternation(t) == named_group(ks@[0]));
                    assert(r@ == "(?ms)"@ + alternation(t));
                } else {
                    assert(r@ == "(?ms)"@ + alternation(t));
                }
            }
            i = i + 1;
        }
        assert(ks@.take(4) == ks@);
        r
    }

    /// The group names of the kinds, in order.
    fn group_names() -> (r: Vec<String>)
        ensures
            r.deep_view() == kind_names(),
    {
        let ks = Token::get_pairs();
        let mut r: Vec<String> = Vec::new();
        let mut i: usize = 0;
        while i < ks.len()
            invariant
                i <= ks@.len(),
                ks@ == kinds(),
                r.deep_view() == kind_names().take(i as int),
            decreases ks@.len() - i,
        {
            let s = String::from_str(ks[i].name());
            let ghost prev = r.deep_view();
            r.push(s);
            assert(r.deep_view() =~= prev.push(kind_name(ks@[i as int])));
            assert(kind_names().take(i + 1) =~= kind_names().take(i as int).push(
                kind_name(ks@[i as int]),
            ));
            i = i + 1;
        }
        assert(kind_names().take(4) == kind_names());
        r
    }

    /// The spans of a sequence of matches, each given as in
    /// [`TokenValuePair::from_capture`]; `ConfigurationFault` where a match
    /// took part in no kind's group.
    pub fn from_captures(caps: &Vec<Vec<Option<String>>>) -> (r: Result<Vec<TokenValuePair>, DocError>)
        ensures
            match pairs_of(caps.deep_view()) {
                Some(ps) => r is Ok && pair_views(r->Ok_0@) == ps,
                None => r matches Err(DocError::ConfigurationFault),
            },
    {
        let ghost cs = caps.deep_view();
        let mut out: Vec<TokenValuePair> = Vec::new();
        let mut i: usize = 0;
        assert(cs.take(0) == Seq::<Seq<Option<Seq<char>>>>::empty());
        while i < caps.len()
            invariant
                i <= caps@.len(),
                cs == caps.deep_view(),
                pairs_of(cs.take(i as int)) == Some(pair_views(out@)),
            decreases caps@.len() - i,
        {
            assert(cs.take(i + 1).drop_last() == cs.take(i as int));
            assert(cs.take(i + 1).last() == caps@[i as int].deep_view());
            if !TokenValuePair::has_kind_group(&caps[i]) {
                proof {
                    lemma_pairs_of_prefix_none(cs, i as int + 1);
                }
                return Err(DocError::ConfigurationFault);
            }
            let p = TokenValuePair::from_capture(&caps[i]);
            assert(pair_views(out@.push(p)) == pair_views(out@).push(p@));
            out.push(p);
            i = i + 1;
        }
        assert(cs.take(i as int) == cs);
        Ok(out)
    }

    /// The spans of `code`, in source order.
    pub fn tokenize(code: &str) -> (r: Result<Vec<TokenValuePair>, DocError>)
        ensures
            match tokenize_spec(code@) {
                Some(ps) => r is Ok && pair_views(r->Ok_0@) == ps,
                None => r matches Err(DocError::ConfigurationFault),
            },
    {
        let pat = Token::get_regex();
        let names = Token::group_names();
        match named_captures_all(pat.as_str(), &names, code) {
            Some(caps) => Token::from_captures(&caps),
            None => Err(DocError::ConfigurationFault),
        }
    }
}

/// A match of a documentation comment followed by a match of a function
/// declaration gives exactly two spans: the comment, then the function,
/// each with its matched text.
pub proof fn lemma_doc_then_function_spans(d: Seq<char>, f: Seq<char>)
    ensures
        pairs_of(
            seq![
                seq![Some(d), None, None, None],
                seq![None, Some(f), None, None],
            ],
        ) == Some(seq![(Token::DocComment, d), (Token::Function, f)]),
{
    let caps: Seq<Seq<Option<Seq<char>>>> = seq![
        seq![Some(d), None, None, None],
        seq![None, Some(f), None, None],
    ];
    let c0: Seq<Option<Seq<char>>> = seq![Some(d), None, None, None];
    let c1: Seq<Option<Seq<char>>> = seq![None, Some(f), None, None];
    assert(c0[0] == Some(d));
    assert(c1[0] is None && c1[1] == Some(f));
    assert(pair_of(c0) == Some((Token::DocComment, d)));
    assert(pair_of(c1) == Some((Token::Function, f)));
    assert(caps.drop_last() == seq![c0]);
    assert(caps.last() == c1);
    assert(seq![c0].drop_last() == Seq::<Seq<Option<Seq<char>>>>::empty());
    assert(seq![c0].last() == c0);
    assert(pairs_of(Seq::<Seq<Option<Seq<char>>>>::empty()) == Some(Seq::<(Token, Seq<char>)>::empty()));
    assert(pairs_of(seq![c0]) == Some(Seq::<(Token, Seq<char>)>::empty().push((Token::DocComment, d))));
    assert(Seq::<(Token, Seq<char>)>::empty().push((Token::DocComment, d)).push((Token::Function, f))
        == seq![(Token::DocComment, d), (Token::Function, f)]);
}

/// A prefix of matches without a span leaves the whole without one.
proof fn lemma_pairs_of_prefix_none(cs: Seq<Seq<Option<Seq<char>>>>, k: int)
    requires
        0 <= k <= cs.len(),
        pairs_of(cs.take(k)) is None,
    ensures
        pairs_of(cs) is None,
    decreases cs.len() - k,
{
    if k < cs.len() {
        assert(cs.take(k + 1).drop_last() == cs.take(k));
        lemma_pairs_of_prefix_none(cs, k + 1);
    } else {
        assert(cs.take(k) == cs);
    }
}

} // verus!
