//! The pieces of grammar that both declarations share: names, integer
//! literals, paths, outer attributes and visibility.
//!
//! Each piece is stated twice: as the tokens that a value of the piece prints
//! to, and as a parser over the remaining input that returns the value and the
//! input after it. The lemmas tie the two together.

use vstd::prelude::*;
use crate::keyword::is_ident_reserved;
use crate::keyword::ident_reserved;
use crate::literal::{int_literal_value, literal_value};
use crate::names::strs;
use crate::token::{clone_tokens, lemma_models, models, Delimiter, Token, TokenModel};

verus! {

/// The identifier token spelled `w`.
pub open spec fn word(w: &str) -> TokenModel {
    TokenModel::Ident(w@)
}

/// Whether `t` is an identifier that the identifier parser accepts.
pub open spec fn is_name(t: TokenModel) -> bool {
    &&& t matches TokenModel::Ident(w) && !is_ident_reserved(w)
}

/// The identifier tokens spelled by `ws`, in order.
pub open spec fn names(ws: Seq<Seq<char>>) -> Seq<TokenModel> {
    Seq::new(ws.len(), |i: int| TokenModel::Ident(ws[i]))
}

/// Whether every word of `ws` is accepted by the identifier parser.
pub open spec fn all_names(ws: Seq<Seq<char>>) -> bool {
    forall|i: int| 0 <= i < ws.len() ==> !is_ident_reserved(#[trigger] ws[i])
}

/// Whether `t` is a literal that parses as an integer literal.
pub open spec fn is_int_literal(t: TokenModel) -> bool {
    &&& t matches TokenModel::Literal(text) && int_literal_value(text) is Some
}

pub open spec fn starts_with_path_sep(ts: Seq<TokenModel>) -> bool {
    ts.len() >= 2 && ts[0] == TokenModel::Punct(':') && ts[1] == TokenModel::Punct(':')
}

/// The tokens of a path separator `::`.
pub open spec fn path_sep() -> Seq<TokenModel> {
    seq![TokenModel::Punct(':'), TokenModel::Punct(':')]
}

/// Whether `w` may stand as a segment of a module path.
pub open spec fn is_path_word(w: Seq<char>) -> bool {
    !is_ident_reserved(w) || w == "super"@ || w == "self"@ || w == "Self"@ || w == "crate"@
        || w == "extern"@
}

/// A module path: an optional leading `::` and its segments.
#[verifier::ext_equal]
pub struct PathModel {
    pub leading_colon: bool,
    pub segments: Seq<Seq<char>>,
}

impl PathModel {
    pub open spec fn wf(self) -> bool {
        &&& self.segments.len() > 0
        &&& forall|i: int| 0 <= i < self.segments.len() ==> is_path_word(#[trigger] self.segments[i])
    }
}

pub open spec fn print_segments(segs: Seq<Seq<char>>) -> Seq<TokenModel>
    decreases segs.len(),
{
    if segs.len() == 0 {
        Seq::empty()
    } else if segs.len() == 1 {
        seq![TokenModel::Ident(segs[0])]
    } else {
        seq![TokenModel::Ident(segs[0])] + path_sep() + print_segments(segs.drop_first())
    }
}

pub open spec fn print_path(p: PathModel) -> Seq<TokenModel> {
    (if p.leading_colon { path_sep() } else { Seq::empty() }) + print_segments(p.segments)
}

pub open spec fn parse_segments(ts: Seq<TokenModel>) -> Option<(Seq<Seq<char>>, Seq<TokenModel>)>
    decreases ts.len(),
{
    if ts.len() == 0 {
        None
    } else {
        match ts[0] {
            TokenModel::Ident(w) => if !is_path_word(w) {
                None
            } else if starts_with_path_sep(ts.skip(1)) {
                match parse_segments(ts.skip(3)) {
                    Some((segs, r)) => Some((seq![w] + segs, r)),
                    None => None,
                }
            } else {
                Some((seq![w], ts.skip(1)))
            },
            _ => None,
        }
    }
}

/// Parses a module path at the start of `ts`.
pub open spec fn parse_path(ts: Seq<TokenModel>) -> Option<(PathModel, Seq<TokenModel>)> {
    let leading = starts_with_path_sep(ts);
    let body = if leading { ts.skip(2) } else { ts };
    match parse_segments(body) {
        Some((segs, r)) => Some((PathModel { leading_colon: leading, segments: segs }, r)),
        None => None,
    }
}

pub proof fn lemma_parse_segments_sound(ts: Seq<TokenModel>)
    requires
        parse_segments(ts) is Some,
    ensures
        ({
            let (segs, r) = parse_segments(ts).unwrap();
            &&& segs.len() > 0
            &&& forall|i: int| 0 <= i < segs.len() ==> is_path_word(#[trigger] segs[i])
            &&& ts == print_segments(segs) + r
            &&& !starts_with_path_sep(r)
        }),
    decreases ts.len(),
{
    let (segs, r) = parse_segments(ts).unwrap();
    let w = ts[0]->Ident_0;
    if starts_with_path_sep(ts.skip(1)) {
        lemma_parse_segments_sound(ts.skip(3));
        let (s2, r2) = parse_segments(ts.skip(3)).unwrap();
        assert(segs == seq![w] + s2);
        assert(segs.drop_first() =~= s2);
        assert forall|i: int| 0 <= i < segs.len() implies is_path_word(#[trigger] segs[i]) by {
            if i > 0 {
                assert(segs[i] == s2[i - 1]);
            }
        }
        assert(ts =~= seq![TokenModel::Ident(w)] + path_sep() + ts.skip(3));
        assert(print_segments(segs) + r =~= seq![TokenModel::Ident(w)] + path_sep() + (
        print_segments(s2) + r2));
    } else {
        assert(ts =~= seq![TokenModel::Ident(w)] + ts.skip(1));
    }
}

pub proof fn lemma_parse_segments_complete(segs: Seq<Seq<char>>, r: Seq<TokenModel>)
    requires
        segs.len() > 0,
        forall|i: int| 0 <= i < segs.len() ==> is_path_word(#[trigger] segs[i]),
        !starts_with_path_sep(r),
    ensures
        parse_segments(print_segments(segs) + r) == Some((segs, r)),
    decreases segs.len(),
{
    let ts = print_segments(segs) + r;
    assert(is_path_word(segs[0]));
    if segs.len() == 1 {
        assert(ts.skip(1) =~= r);
        assert(segs =~= seq![segs[0]]);
    } else {
        let tail = segs.drop_first();
        assert forall|i: int| 0 <= i < tail.len() implies is_path_word(#[trigger] tail[i]) by {
            assert(tail[i] == segs[i + 1]);
        }
        lemma_parse_segments_complete(tail, r);
        assert(ts =~= seq![TokenModel::Ident(segs[0])] + path_sep() + (print_segments(tail) + r));
        assert(ts.skip(3) =~= print_segments(tail) + r);
        assert(seq![segs[0]] + tail =~= segs);
    }
}

pub proof fn lemma_parse_path_sound(ts: Seq<TokenModel>)
    requires
        parse_path(ts) is Some,
    ensures
        ({
            let (p, r) = parse_path(ts).unwrap();
            &&& p.wf()
            &&& ts == print_path(p) + r
            &&& !starts_with_path_sep(r)
        }),
{
    let leading = starts_with_path_sep(ts);
    let body = if leading { ts.skip(2) } else { ts };
    lemma_parse_segments_sound(body);
    let (p, r) = parse_path(ts).unwrap();
    if leading {
        assert(ts =~= path_sep() + body);
        assert(print_path(p) + r =~= path_sep() + (print_segments(p.segments) + r));
    } else {
        assert(print_path(p) + r =~= print_segments(p.segments) + r);
    }
}

pub proof fn lemma_parse_path_complete(p: PathModel, r: Seq<TokenModel>)
    requires
        p.wf(),
        !starts_with_path_sep(r),
    ensures
        parse_path(print_path(p) + r) == Some((p, r)),
{
    let ts = print_path(p) + r;
    lemma_parse_segments_complete(p.segments, r);
    let first = print_segments(p.segments)[0];
    assert(print_segments(p.segments).len() > 0 && first == TokenModel::Ident(p.segments[0]));
    if p.leading_colon {
        assert(ts =~= path_sep() + (print_segments(p.segments) + r));
        assert(ts.skip(2) =~= print_segments(p.segments) + r);
    } else {
        assert(ts =~= print_segments(p.segments) + r);
        assert(ts[0] == first);
    }
}

/// The tokens of an outer attribute whose bracketed content is `content`.
pub open spec fn print_attr(content: Seq<TokenModel>) -> Seq<TokenModel> {
    seq![TokenModel::Punct('#'), TokenModel::Group(Delimiter::Bracket, content)]
}

/// An attribute's content starts with a module path.
pub open spec fn attr_ok(content: Seq<TokenModel>) -> bool {
    parse_path(content) is Some
}

pub open spec fn print_attrs(attrs: Seq<Seq<TokenModel>>) -> Seq<TokenModel>
    decreases attrs.len(),
{
    if attrs.len() == 0 {
        Seq::empty()
    } else {
        print_attr(attrs[0]) + print_attrs(attrs.drop_first())
    }
}

pub open spec fn all_attrs_ok(attrs: Seq<Seq<TokenModel>>) -> bool {
    forall|i: int| 0 <= i < attrs.len() ==> attr_ok(#[trigger] attrs[i])
}

pub open spec fn starts_with_pound(ts: Seq<TokenModel>) -> bool {
    ts.len() > 0 && ts[0] == TokenModel::Punct('#')
}

/// Parses the outer attributes at the start of `ts`, as many as there are.
pub open spec fn parse_attrs(ts: Seq<TokenModel>) -> Option<(Seq<Seq<TokenModel>>, Seq<TokenModel>)>
    decreases ts.len(),
{
    if !starts_with_pound(ts) {
        Some((Seq::empty(), ts))
    } else if ts.len() < 2 {
        None
    } else {
        match ts[1] {
            TokenModel::Group(Delimiter::Bracket, c) => if attr_ok(c) {
                match parse_attrs(ts.skip(2)) {
                    Some((attrs, r)) => Some((seq![c] + attrs, r)),
                    None => None,
                }
            } else {
                None
            },
            _ => None,
        }
    }
}

pub proof fn lemma_parse_attrs_sound(ts: Seq<TokenModel>)
    requires
        parse_attrs(ts) is Some,
    ensures
        ({
            let (attrs, r) = parse_attrs(ts).unwrap();
            &&& all_attrs_ok(attrs)
            &&& ts == print_attrs(attrs) + r
            &&& !starts_with_pound(r)
            &&& r.len() <= ts.len()
        }),
    decreases ts.len(),
{
    if starts_with_pound(ts) {
        let c = ts[1]->Group_1;
        lemma_parse_attrs_sound(ts.skip(2));
        let (a2, r2) = parse_attrs(ts.skip(2)).unwrap();
        let attrs = seq![c] + a2;
        assert(attrs.drop_first() =~= a2);
        assert forall|i: int| 0 <= i < attrs.len() implies attr_ok(#[trigger] attrs[i]) by {
            if i > 0 {
                assert(attrs[i] == a2[i - 1]);
            }
        }
        assert(ts =~= print_attr(c) + ts.skip(2));
        assert(print_attrs(attrs) + r2 =~= print_attr(c) + (print_attrs(a2) + r2));
    } else {
        assert(print_attrs(Seq::empty()) + ts =~= ts);
    }
}

pub proof fn lemma_parse_attrs_complete(attrs: Seq<Seq<TokenModel>>, r: Seq<TokenModel>)
    requires
        all_attrs_ok(attrs),
        !starts_with_pound(r),
    ensures
        parse_attrs(print_attrs(attrs) + r) == Some((attrs, r)),
    decreases attrs.len(),
{
    let ts = print_attrs(attrs) + r;
    if attrs.len() == 0 {
        assert(ts =~= r);
    } else {
        let tail = attrs.drop_first();
        assert forall|i: int| 0 <= i < tail.len() implies attr_ok(#[trigger] tail[i]) by {
            assert(tail[i] == attrs[i + 1]);
        }
        assert(attr_ok(attrs[0]));
        lemma_parse_attrs_complete(tail, r);
        assert(ts =~= print_attr(attrs[0]) + (print_attrs(tail) + r));
        assert(ts.skip(2) =~= print_attrs(tail) + r);
        assert(seq![attrs[0]] + tail =~= attrs);
    }
}

/// Who may see an item.
pub enum VisModel {
    Inherited,
    Public,
    Crate,
    /// `pub` with the given parenthesized content.
    Restricted(Seq<TokenModel>),
}

/// The content of a restricted visibility: `crate`, `self`, `super`, or `in`
/// and a module path.
pub open spec fn restriction_ok(c: Seq<TokenModel>) -> bool {
    ||| c == seq![word("crate")]
    ||| c == seq![word("self")]
    ||| c == seq![word("super")]
    ||| (c.len() >= 1 && c[0] == word("in") && in_path_ok(c))
}

/// After `in`, the content is exactly one module path.
pub open spec fn in_path_ok(c: Seq<TokenModel>) -> bool {
    match parse_path(c.skip(1)) {
        Some((_, r)) => r.len() == 0,
        None => false,
    }
}

impl VisModel {
    pub open spec fn wf(self) -> bool {
        self matches VisModel::Restricted(c) ==> restriction_ok(c)
    }
}

pub open spec fn print_vis(v: VisModel) -> Seq<TokenModel> {
    match v {
        VisModel::Inherited => Seq::empty(),
        VisModel::Public => seq![word("pub")],
        VisModel::Crate => seq![word("crate")],
        VisModel::Restricted(c) => seq![word("pub"), TokenModel::Group(Delimiter::Parenthesis, c)],
    }
}

/// Parses a visibility at the start of `ts`.
pub open spec fn parse_vis(ts: Seq<TokenModel>) -> Option<(VisModel, Seq<TokenModel>)> {
    if ts.len() > 0 && ts[0] == word("pub") {
        let paren = if ts.len() > 1 {
            match ts[1] {
                TokenModel::Group(Delimiter::Parenthesis, c) => Some(c),
                _ => None,
            }
        } else {
            None
        };
        match paren {
            Some(c) => if c.len() > 0 && (c[0] == word("crate") || c[0] == word("self") || c[0]
                == word("super")) {
                if c.len() == 1 {
                    Some((VisModel::Restricted(c), ts.skip(2)))
                } else {
                    None
                }
            } else if c.len() > 0 && c[0] == word("in") {
                if in_path_ok(c) {
                    Some((VisModel::Restricted(c), ts.skip(2)))
                } else {
                    None
                }
            } else {
                Some((VisModel::Public, ts.skip(1)))
            },
            None => Some((VisModel::Public, ts.skip(1))),
        }
    } else if ts.len() > 0 && ts[0] == word("crate") {
        if starts_with_path_sep(ts.skip(1)) {
            Some((VisModel::Inherited, ts))
        } else {
            Some((VisModel::Crate, ts.skip(1)))
        }
    } else {
        Some((VisModel::Inherited, ts))
    }
}

/// What may follow a visibility: an identifier other than `pub` and `crate`.
pub open spec fn vis_follow(r: Seq<TokenModel>) -> bool {
    &&& r.len() > 0
    &&& r[0] matches TokenModel::Ident(w) && w != "pub"@ && w != "crate"@
}

pub proof fn lemma_distinct_words()
    ensures
        "pub"@ != "crate"@,
        "crate"@ != "in"@,
        "self"@ != "in"@,
        "super"@ != "in"@,
        "mod"@ != "pub"@,
        "mod"@ != "crate"@,
        "macro"@ != "pub"@,
        "macro"@ != "crate"@,
        "use"@ != "crate"@,
        "use"@ != "super"@,
        "use"@ != "self"@,
        "use"@ != "Self"@,
        "use"@ != "extern"@,
{
    reveal_strlit("pub");
    reveal_strlit("crate");
    reveal_strlit("in");
    reveal_strlit("self");
    reveal_strlit("super");
    reveal_strlit("mod");
    reveal_strlit("macro");
    reveal_strlit("use");
    reveal_strlit("Self");
    reveal_strlit("extern");
    assert("pub"@[0] != "crate"@[0]);
    assert("crate"@[0] != "in"@[0]);
    assert("self"@[0] != "in"@[0]);
    assert("super"@[0] != "in"@[0]);
    assert("mod"@[0] != "pub"@[0]);
    assert("mod"@[0] != "crate"@[0]);
    assert("macro"@[0] != "pub"@[0]);
    assert("macro"@[0] != "crate"@[0]);
    assert("use"@[0] != "crate"@[0]);
    assert("use"@[0] != "super"@[0]);
    assert("use"@[0] != "self"@[0]);
    assert("use"@[0] != "Self"@[0]);
    assert("use"@[0] != "extern"@[0]);
}

pub proof fn lemma_parse_vis_sound(ts: Seq<TokenModel>)
    requires
        parse_vis(ts) is Some,
    ensures
        ({
            let (v, r) = parse_vis(ts).unwrap();
            &&& v.wf()
            &&& ts == print_vis(v) + r
        }),
{
    let (v, r) = parse_vis(ts).unwrap();
    assert(v.wf() && ts == print_vis(v) + r) by {
        if ts.len() > 0 && ts[0] == word("pub") {
            if r.len() + 2 == ts.len() {
                assert(ts =~= seq![ts[0], ts[1]] + ts.skip(2));
                let c = ts[1]->Group_1;
                if c.len() == 1 {
                    assert(c =~= seq![c[0]]);
                }
            } else {
                assert(ts =~= seq![ts[0]] + ts.skip(1));
            }
        } else if ts.len() > 0 && ts[0] == word("crate") && !starts_with_path_sep(ts.skip(1)) {
            assert(ts =~= seq![ts[0]] + ts.skip(1));
        } else {
            assert(ts =~= Seq::empty() + ts);
        }
    }
}

pub proof fn lemma_parse_vis_complete(v: VisModel, r: Seq<TokenModel>)
    requires
        v.wf(),
        vis_follow(r),
    ensures
        parse_vis(print_vis(v) + r) == Some((v, r)),
{
    lemma_distinct_words();
    let ts = print_vis(v) + r;
    match v {
        VisModel::Inherited => {
            assert(ts =~= r);
        },
        VisModel::Public => {
            assert(ts[1] == r[0]);
            assert(ts.skip(1) =~= r);
        },
        VisModel::Crate => {
            assert(ts[1] == r[0]);
            assert(ts.skip(1) =~= r);
        },
        VisModel::Restricted(c) => {
            assert(ts.skip(2) =~= r);
            assert(ts[1] == TokenModel::Group(Delimiter::Parenthesis, c));
        },
    }
}

/// The model of the input from position `pos` on.
pub open spec fn rest(ts: Seq<Token>, pos: int) -> Seq<TokenModel> {
    models(ts).skip(pos)
}

pub proof fn lemma_rest(ts: Seq<Token>, pos: int)
    requires
        0 <= pos <= ts.len(),
    ensures
        rest(ts, pos).len() == ts.len() - pos,
        forall|k: int| 0 <= k < ts.len() - pos ==> #[trigger] rest(ts, pos)[k] == ts[pos + k]@,
        forall|k: int| 0 <= k <= ts.len() - pos ==> #[trigger] rest(ts, pos).skip(k) == rest(ts, pos + k),
{
    lemma_models(ts);
    assert forall|k: int| 0 <= k <= ts.len() - pos implies #[trigger] rest(ts, pos).skip(k) == rest(ts, pos + k) by {
        assert(rest(ts, pos).skip(k) =~= rest(ts, pos + k));
    }
}

/// Whether `t` is the identifier `w`.
pub fn is_word(t: &Token, w: &str) -> (b: bool)
    ensures
        b == (t@ == word(w)),
{
    match t {
        Token::Ident(s) => {
            let target = w.to_owned();
            *s == target
        },
        _ => false,
    }
}

/// Whether `t` is the punctuation character `c`.
pub fn is_punct(t: &Token, c: char) -> (b: bool)
    ensures
        b == (t@ == TokenModel::Punct(c)),
{
    match t {
        Token::Punct(d) => *d == c,
        _ => false,
    }
}

/// The identifier that `t` holds, where the identifier parser accepts it.
pub fn name_of(t: &Token) -> (r: Option<String>)
    ensures
        r is Some <==> is_name(t@),
        r matches Some(s) ==> t@ == TokenModel::Ident(s@),
{
    match t {
        Token::Ident(s) => if ident_reserved(s.as_str()) {
            None
        } else {
            Some(s.clone())
        },
        _ => None,
    }
}

/// The text of the integer literal that `t` holds, if it holds one.
pub fn int_literal_of(t: &Token) -> (r: Option<String>)
    ensures
        r is Some <==> is_int_literal(t@),
        r matches Some(s) ==> t@ == TokenModel::Literal(s@),
{
    match t {
        Token::Literal(s) => match literal_value(s.as_str()) {
            Some(_) => Some(s.clone()),
            None => None,
        },
        _ => None,
    }
}

fn path_word_of(t: &Token) -> (r: Option<String>)
    ensures
        r is Some <==> (t@ matches TokenModel::Ident(w) && is_path_word(w)),
        r matches Some(s) ==> t@ == TokenModel::Ident(s@),
{
    match t {
        Token::Ident(s) => {
            let ok = !ident_reserved(s.as_str()) || is_word(t, "super") || is_word(t, "self")
                || is_word(t, "Self") || is_word(t, "crate") || is_word(t, "extern");
            if ok {
                Some(s.clone())
            } else {
                None
            }
        },
        _ => None,
    }
}

/// Whether the input at `pos` starts with `::`.
pub fn path_sep_at(ts: &Vec<Token>, pos: usize) -> (b: bool)
    requires
        pos <= ts.len(),
    ensures
        b == starts_with_path_sep(rest(ts@, pos as int)),
{
    proof {
        lemma_rest(ts@, pos as int);
    }
    ts.len() - pos >= 2 && is_punct(&ts[pos], ':') && is_punct(&ts[pos + 1], ':')
}

/// A module path.
pub struct Path {
    pub leading_colon: bool,
    pub segments: Vec<String>,
}

impl View for Path {
    type V = PathModel;

    open spec fn view(&self) -> PathModel {
        PathModel { leading_colon: self.leading_colon, segments: strs(self.segments@) }
    }
}

fn parse_segments_at(ts: &Vec<Token>, pos: usize) -> (r: Option<(Vec<String>, usize)>)
    requires
        pos <= ts.len(),
    ensures
        match r {
            Some((segs, p)) => pos <= p <= ts.len() && parse_segments(rest(ts@, pos as int)) == Some(
                (strs(segs@), rest(ts@, p as int)),
            ),
            None => parse_segments(rest(ts@, pos as int)) is None,
        },
    decreases ts.len() - pos,
{
    proof {
        lemma_rest(ts@, pos as int);
    }
    if pos == ts.len() {
        return None;
    }
    match path_word_of(&ts[pos]) {
        None => None,
        Some(w) => {
            proof {
                lemma_rest(ts@, pos + 1);
            }
            if path_sep_at(ts, pos + 1) {
                match parse_segments_at(ts, pos + 3) {
                    Some((segs, p)) => {
                        let mut all = segs;
                        let ghost tail = all@;
                        all.insert(0, w);
                        proof {
                            assert(strs(all@) =~= seq![w@] + strs(tail));
                        }
                        Some((all, p))
                    },
                    None => None,
                }
            } else {
                let mut all: Vec<String> = Vec::new();
                all.push(w);
                proof {
                    assert(strs(all@) =~= seq![w@]);
                }
                Some((all, pos + 1))
            }
        },
    }
}

/// Parses a module path at position `pos`.
pub fn parse_path_at(ts: &Vec<Token>, pos: usize) -> (r: Option<(Path, usize)>)
    requires
        pos <= ts.len(),
    ensures
        match r {
            Some((p, q)) => pos <= q <= ts.len() && parse_path(rest(ts@, pos as int)) == Some(
                (p@, rest(ts@, q as int)),
            ),
            None => parse_path(rest(ts@, pos as int)) is None,
        },
{
    proof {
        lemma_rest(ts@, pos as int);
    }
    let leading = path_sep_at(ts, pos);
    let start: usize = if leading {
        pos + 2
    } else {
        pos
    };
    match parse_segments_at(ts, start) {
        Some((segs, q)) => Some((Path { leading_colon: leading, segments: segs }, q)),
        None => None,
    }
}

/// An outer attribute: the tokens between its brackets.
pub struct Attribute {
    pub tokens: Vec<Token>,
}

impl View for Attribute {
    type V = Seq<TokenModel>;

    open spec fn view(&self) -> Seq<TokenModel> {
        models(self.tokens@)
    }
}

/// The models of a sequence of attributes.
pub open spec fn attrs_model(v: Seq<Attribute>) -> Seq<Seq<TokenModel>> {
    v.map_values(|a: Attribute| a@)
}

/// Parses the outer attributes at position `pos`, as many as there are.
pub fn parse_attrs_at(ts: &Vec<Token>, pos: usize) -> (r: Option<(Vec<Attribute>, usize)>)
    requires
        pos <= ts.len(),
    ensures
        match r {
            Some((attrs, p)) => pos <= p <= ts.len() && parse_attrs(rest(ts@, pos as int)) == Some(
                (attrs_model(attrs@), rest(ts@, p as int)),
            ),
            None => parse_attrs(rest(ts@, pos as int)) is None,
        },
    decreases ts.len() - pos,
{
    proof {
        lemma_rest(ts@, pos as int);
    }
    if pos == ts.len() || !is_punct(&ts[pos], '#') {
        let v: Vec<Attribute> = Vec::new();
        proof {
            assert(attrs_model(v@) =~= Seq::empty());
        }
        return Some((v, pos));
    }
    if ts.len() - pos < 2 {
        return None;
    }
    match &ts[pos + 1] {
        Token::Group(Delimiter::Bracket, content) => {
            proof {
                lemma_rest(content@, 0);
                assert(rest(content@, 0) =~= models(content@));
            }
            match parse_path_at(content, 0) {
                None => None,
                Some(_) => match parse_attrs_at(ts, pos + 2) {
                    None => None,
                    Some((attrs, p)) => {
                        let mut all = attrs;
                        let ghost tail = all@;
                        all.insert(0, Attribute { tokens: clone_tokens(content) });
                        proof {
                            assert(attrs_model(all@) =~= seq![models(content@)] + attrs_model(
                                tail,
                            ));
                        }
                        Some((all, p))
                    },
                },
            }
        },
        _ => None,
    }
}

/// A copy of a sequence of attributes.
pub fn clone_attrs(v: &Vec<Attribute>) -> (r: Vec<Attribute>)
    ensures
        attrs_model(r@) == attrs_model(v@),
{
    let mut r: Vec<Attribute> = Vec::new();
    let mut i: usize = 0;
    while i < v.len()
        invariant
            i <= v.len(),
            r@.len() == i,
            forall|j: int| 0 <= j < i ==> (#[trigger] r@[j])@ == v@[j]@,
        decreases v.len() - i,
    {
        r.push(Attribute { tokens: clone_tokens(&v[i].tokens) });
        i = i + 1;
    }
    proof {
        assert(attrs_model(r@) =~= attrs_model(v@));
    }
    r
}

/// Who may see an item.
pub enum Visibility {
    Inherited,
    Public,
    Crate,
    Restricted(Vec<Token>),
}

impl View for Visibility {
    type V = VisModel;

    open spec fn view(&self) -> VisModel {
        match self {
            Visibility::Inherited => VisModel::Inherited,
            Visibility::Public => VisModel::Public,
            Visibility::Crate => VisModel::Crate,
            Visibility::Restricted(c) => VisModel::Restricted(models(c@)),
        }
    }
}

/// A copy of a visibility.
pub fn clone_vis(v: &Visibility) -> (r: Visibility)
    ensures
        r@ == v@,
{
    match v {
        Visibility::Inherited => Visibility::Inherited,
        Visibility::Public => Visibility::Public,
        Visibility::Crate => Visibility::Crate,
        Visibility::Restricted(c) => Visibility::Restricted(clone_tokens(c)),
    }
}

/// Parses a visibility at position `pos`.
pub fn parse_vis_at(ts: &Vec<Token>, pos: usize) -> (r: Option<(Visibility, usize)>)
    requires
        pos <= ts.len(),
    ensures
        match r {
            Some((v, p)) => pos <= p <= ts.len() && parse_vis(rest(ts@, pos as int)) == Some(
                (v@, rest(ts@, p as int)),
            ),
            None => parse_vis(rest(ts@, pos as int)) is None,
        },
{
    proof {
        lemma_rest(ts@, pos as int);
    }
    if pos < ts.len() && is_word(&ts[pos], "pub") {
        if ts.len() - pos > 1 {
            match &ts[pos + 1] {
                Token::Group(Delimiter::Parenthesis, c) => {
                    proof {
                        lemma_rest(c@, 0);
                        assert(rest(c@, 0) =~= models(c@));
                    }
                    if c.len() > 0 && (is_word(&c[0], "crate") || is_word(&c[0], "self") || is_word(
                        &c[0],
                        "super",
                    )) {
                        if c.len() == 1 {
                            return Some((Visibility::Restricted(clone_tokens(c)), pos + 2));
                        } else {
                            return None;
                        }
                    } else if c.len() > 0 && is_word(&c[0], "in") {
                        proof {
                            lemma_rest(c@, 1);
                        }
                        match parse_path_at(c, 1) {
                            Some((_, q)) => {
                                if q == c.len() {
                                    return Some((Visibility::Restricted(clone_tokens(c)), pos + 2));
                                } else {
                                    return None;
                                }
                            },
                            None => {
                                return None;
                            },
                        }
                    } else {
                        return Some((Visibility::Public, pos + 1));
                    }
                },
                _ => {
                    return Some((Visibility::Public, pos + 1));
                },
            }
        } else {
            return Some((Visibility::Public, pos + 1));
        }
    } else if pos < ts.len() && is_word(&ts[pos], "crate") {
        proof {
            lemma_rest(ts@, pos + 1);
        }
        if path_sep_at(ts, pos + 1) {
            Some((Visibility::Inherited, pos))
        } else {
            Some((Visibility::Crate, pos + 1))
        }
    } else {
        Some((Visibility::Inherited, pos))
    }
}

/// The tokens do not form a declaration of the grammar.
#[derive(Debug, Clone, Copy, PartialEq, Eq)]
pub struct ParseError;

} // verus!
