//! Writing token trees: each function appends to a sequence of tokens, and
//! says what it appended in terms of the models of `token` and `syntax`.

use vstd::prelude::*;
use crate::syntax::{
    attrs_model, path_sep, print_attr, print_attrs, print_path, print_segments, print_vis, word,
    Attribute, Path, Visibility,
};
use crate::token::{clone_tokens, models, Delimiter, Token, TokenModel};

verus! {

pub proof fn lemma_models_push(s: Seq<Token>, t: Token)
    ensures
        models(s.push(t)) == models(s).push(t@),
{
    assert(s.push(t).subrange(0, s.len() as int) =~= s);
}

pub proof fn lemma_models_add(a: Seq<Token>, b: Seq<Token>)
    ensures
        models(a + b) == models(a) + models(b),
    decreases b.len(),
{
    if b.len() == 0 {
        assert(a + b =~= a);
        assert(models(a) + models(b) =~= models(a));
    } else {
        let b0 = b.subrange(0, b.len() - 1);
        lemma_models_add(a, b0);
        assert(a + b =~= (a + b0).push(b[b.len() - 1]));
        lemma_models_push(a + b0, b[b.len() - 1]);
        assert(models(a) + models(b) =~= (models(a) + models(b0)).push(b[b.len() - 1]@));
    }
}

/// Appends one token.
pub fn push_token(out: &mut Vec<Token>, t: Token)
    ensures
        models(final(out)@) == models(old(out)@).push(t@),
{
    let ghost before = out@;
    out.push(t);
    proof {
        assert(out@ =~= before.push(out@[before.len() as int]));
        lemma_models_push(before, out@[before.len() as int]);
    }
}

/// Appends the tokens of `ts`.
pub fn append_tokens(out: &mut Vec<Token>, ts: Vec<Token>)
    ensures
        models(final(out)@) == models(old(out)@) + models(ts@),
{
    let ghost before = out@;
    let ghost added = ts@;
    let mut ts = ts;
    out.append(&mut ts);
    proof {
        lemma_models_add(before, added);
    }
}

/// Appends the punctuation character `c`.
pub fn push_punct(out: &mut Vec<Token>, c: char)
    ensures
        models(final(out)@) == models(old(out)@).push(TokenModel::Punct(c)),
{
    push_token(out, Token::Punct(c));
}

/// Appends the identifier `w`.
pub fn push_word(out: &mut Vec<Token>, w: &str)
    ensures
        models(final(out)@) == models(old(out)@).push(word(w)),
{
    push_token(out, Token::Ident(w.to_owned()));
}

/// Appends the identifier `s`.
pub fn push_name(out: &mut Vec<Token>, s: &String)
    ensures
        models(final(out)@) == models(old(out)@).push(TokenModel::Ident(s@)),
{
    push_token(out, Token::Ident(s.clone()));
}

/// Appends a path separator `::`.
pub fn push_path_sep(out: &mut Vec<Token>)
    ensures
        models(final(out)@) == models(old(out)@) + path_sep(),
{
    push_punct(out, ':');
    push_punct(out, ':');
    assert(models(out@) =~= models(old(out)@) + path_sep());
}

/// Appends a group of `inner` enclosed by `d`.
pub fn push_group(out: &mut Vec<Token>, d: Delimiter, inner: Vec<Token>)
    ensures
        models(final(out)@) == models(old(out)@).push(TokenModel::Group(d, models(inner@))),
{
    push_token(out, Token::Group(d, inner));
}

/// Appends the tokens of a module path.
pub fn push_path(out: &mut Vec<Token>, p: &Path)
    ensures
        models(final(out)@) == models(old(out)@) + print_path(p@),
{
    let ghost start = models(out@);
    if p.leading_colon {
        push_path_sep(out);
    }
    let ghost lead = if p.leading_colon { path_sep() } else { Seq::<TokenModel>::empty() };
    assert(models(out@) =~= start + lead);
    let n = p.segments.len();
    let mut i: usize = 0;
    while i < n
        invariant
            n == p.segments.len(),
            i <= n,
            models(out@) == start + lead + print_segments(p@.segments.take(i as int)),
        decreases n - i,
    {
        if i > 0 {
            push_path_sep(out);
        }
        push_name(out, &p.segments[i]);
        proof {
            lemma_print_segments_push(p@.segments.take(i as int), p@.segments[i as int]);
            assert(p@.segments.take(i + 1) =~= p@.segments.take(i as int).push(p@.segments[i as int]));
            assert(models(out@) =~= start + lead + print_segments(p@.segments.take(i + 1)));
        }
        i = i + 1;
    }
    proof {
        assert(p@.segments.take(n as int) =~= p@.segments);
        assert(models(out@) =~= models(old(out)@) + print_path(p@));
    }
}

/// Printing one more segment adds a separator, where there are segments
/// before it, and the segment.
pub proof fn lemma_print_segments_push(segs: Seq<Seq<char>>, s: Seq<char>)
    ensures
        print_segments(segs.push(s)) == print_segments(segs) + (if segs.len() == 0 {
            Seq::empty()
        } else {
            path_sep()
        }) + seq![TokenModel::Ident(s)],
    decreases segs.len(),
{
    if segs.len() == 0 {
        assert(print_segments(segs.push(s)) =~= seq![TokenModel::Ident(s)]);
        assert(print_segments(segs) =~= Seq::<TokenModel>::empty());
    } else {
        let t = segs.drop_first();
        assert(segs.push(s).drop_first() =~= t.push(s));
        lemma_print_segments_push(t, s);
        if t.len() == 0 {
            assert(print_segments(segs) =~= seq![TokenModel::Ident(segs[0])]);
        }
    }
}

/// Appends `#[..]` for each attribute.
pub fn push_attrs(out: &mut Vec<Token>, attrs: &Vec<Attribute>)
    ensures
        models(final(out)@) == models(old(out)@) + print_attrs(attrs_model(attrs@)),
{
    let ghost start = models(out@);
    let n = attrs.len();
    let mut i: usize = 0;
    while i < n
        invariant
            n == attrs.len(),
            i <= n,
            models(out@) == start + print_attrs(attrs_model(attrs@).take(i as int)),
        decreases n - i,
    {
        push_punct(out, '#');
        push_group(out, Delimiter::Bracket, clone_tokens(&attrs[i].tokens));
        proof {
            let a = attrs_model(attrs@);
            lemma_print_attrs_push(a.take(i as int), a[i as int]);
            assert(a.take(i + 1) =~= a.take(i as int).push(a[i as int]));
            assert(models(out@) =~= start + print_attrs(a.take(i + 1)));
        }
        i = i + 1;
    }
    proof {
        assert(attrs_model(attrs@).take(n as int) =~= attrs_model(attrs@));
    }
}

pub proof fn lemma_print_attrs_push(attrs: Seq<Seq<TokenModel>>, a: Seq<TokenModel>)
    ensures
        print_attrs(attrs.push(a)) == print_attrs(attrs) + print_attr(a),
    decreases attrs.len(),
{
    if attrs.len() == 0 {
        let one = attrs.push(a);
        assert(one.drop_first() =~= Seq::<Seq<TokenModel>>::empty());
        assert(one[0] == a);
        assert(print_attrs(one.drop_first()) =~= Seq::<TokenModel>::empty());
        assert(print_attrs(one) =~= print_attr(a));
        assert(print_attrs(attrs) =~= Seq::<TokenModel>::empty());
    } else {
        assert(attrs.push(a).drop_first() =~= attrs.drop_first().push(a));
        lemma_print_attrs_push(attrs.drop_first(), a);
    }
}

/// Appends the tokens of a visibility.
pub fn push_vis(out: &mut Vec<Token>, v: &Visibility)
    ensures
        models(final(out)@) == models(old(out)@) + print_vis(v@),
{
    match v {
        Visibility::Inherited => {
            assert(models(out@) =~= models(out@) + print_vis(v@));
        },
        Visibility::Public => {
            push_word(out, "pub");
            assert(models(out@) =~= models(old(out)@) + print_vis(v@));
        },
        Visibility::Crate => {
            push_word(out, "crate");
            assert(models(out@) =~= models(old(out)@) + print_vis(v@));
        },
        Visibility::Restricted(c) => {
            push_word(out, "pub");
            push_group(out, Delimiter::Parenthesis, clone_tokens(c));
            assert(models(out@) =~= models(old(out)@) + print_vis(v@));
        },
    }
}

pub open spec fn punct(c: char) -> TokenModel {
    TokenModel::Punct(c)
}

pub open spec fn name(s: Seq<char>) -> TokenModel {
    TokenModel::Ident(s)
}

pub open spec fn group(d: Delimiter, inner: Seq<TokenModel>) -> TokenModel {
    TokenModel::Group(d, inner)
}

/// The tokens of `f(x)` for each `x` of `s`, one after the other.
pub open spec fn concat_map<A>(s: Seq<A>, f: spec_fn(A) -> Seq<TokenModel>) -> Seq<TokenModel>
    decreases s.len(),
{
    if s.len() == 0 {
        Seq::empty()
    } else {
        concat_map(s.drop_last(), f) + f(s.last())
    }
}

pub proof fn lemma_concat_map_step<A>(s: Seq<A>, i: int, f: spec_fn(A) -> Seq<TokenModel>)
    requires
        0 <= i < s.len(),
    ensures
        concat_map(s.take(i + 1), f) == concat_map(s.take(i), f) + f(s[i]),
{
    assert(s.take(i + 1).drop_last() =~= s.take(i));
}

/// `::w`
pub open spec fn sep_word(w: &str) -> Seq<TokenModel> {
    path_sep() + seq![word(w)]
}

/// Appends `::w`.
pub fn push_sep_word(out: &mut Vec<Token>, w: &str)
    ensures
        models(final(out)@) == models(old(out)@) + sep_word(w),
{
    push_path_sep(out);
    push_word(out, w);
    assert(models(out@) =~= models(old(out)@) + sep_word(w));
}

/// The parts one after the other, with a `,` between two of them.
pub open spec fn comma_joined(parts: Seq<Seq<TokenModel>>) -> Seq<TokenModel>
    decreases parts.len(),
{
    if parts.len() == 0 {
        Seq::empty()
    } else if parts.len() == 1 {
        parts[0]
    } else {
        comma_joined(parts.drop_last()) + seq![punct(',')] + parts.last()
    }
}

pub proof fn lemma_comma_joined_push(parts: Seq<Seq<TokenModel>>, x: Seq<TokenModel>)
    ensures
        comma_joined(parts.push(x)) == comma_joined(parts) + (if parts.len() == 0 {
            Seq::empty()
        } else {
            seq![punct(',')]
        }) + x,
{
    assert(parts.push(x).drop_last() =~= parts);
    if parts.len() == 0 {
        assert(comma_joined(parts) =~= Seq::<TokenModel>::empty());
        assert(comma_joined(parts.push(x)) =~= x);
    }
}

pub proof fn lemma_concat_map_add<A>(a: Seq<A>, b: Seq<A>, f: spec_fn(A) -> Seq<TokenModel>)
    ensures
        concat_map(a + b, f) == concat_map(a, f) + concat_map(b, f),
    decreases b.len(),
{
    if b.len() == 0 {
        assert(a + b =~= a);
        assert(concat_map(b, f) =~= Seq::<TokenModel>::empty());
        assert(concat_map(a, f) + concat_map(b, f) =~= concat_map(a, f));
    } else {
        assert((a + b).drop_last() =~= a + b.drop_last());
        assert((a + b).last() == b.last());
        lemma_concat_map_add(a, b.drop_last(), f);
        assert(concat_map(a + b, f) =~= concat_map(a, f) + (concat_map(b.drop_last(), f) + f(
            b.last(),
        )));
    }
}

/// What `f` gives for the element at `j` stands in `concat_map(s, f)` right
/// after what it gives for the elements before it.
pub proof fn lemma_concat_map_at<A>(s: Seq<A>, j: int, f: spec_fn(A) -> Seq<TokenModel>)
    requires
        0 <= j < s.len(),
    ensures
        ({
            let k = concat_map(s.take(j), f).len();
            &&& k + f(s[j]).len() <= concat_map(s, f).len()
            &&& concat_map(s, f).subrange(k as int, (k + f(s[j]).len()) as int) == f(s[j])
        }),
{
    lemma_concat_map_step(s, j, f);
    assert(s =~= s.take(j + 1) + s.skip(j + 1));
    lemma_concat_map_add(s.take(j + 1), s.skip(j + 1), f);
    let k = concat_map(s.take(j), f).len();
    assert(concat_map(s, f).subrange(k as int, (k + f(s[j]).len()) as int) =~= f(s[j]));
}

/// Whether `pat` stands in `ts` from position `k` on.
pub open spec fn occurs_at(ts: Seq<TokenModel>, pat: Seq<TokenModel>, k: int) -> bool {
    0 <= k && k + pat.len() <= ts.len() && ts.subrange(k, k + pat.len()) == pat
}

/// The tokens found by following `path` into nested groups: each entry picks
/// the group at that position and goes inside it.
pub open spec fn descend(ts: Seq<TokenModel>, path: Seq<int>) -> Seq<TokenModel>
    decreases path.len(),
{
    if path.len() == 0 {
        ts
    } else if 0 <= path[0] < ts.len() {
        match ts[path[0]] {
            TokenModel::Group(_, inner) => descend(inner, path.drop_first()),
            _ => Seq::empty(),
        }
    } else {
        Seq::empty()
    }
}

/// Whether `pat` stands somewhere in `ts`, at its top level or inside groups.
pub open spec fn occurs_within(ts: Seq<TokenModel>, pat: Seq<TokenModel>) -> bool {
    exists|path: Seq<int>, k: int| #[trigger] occurs_at(descend(ts, path), pat, k)
}

pub proof fn lemma_occurs_at_trans(x: Seq<TokenModel>, y: Seq<TokenModel>, pat: Seq<TokenModel>, k1: int, k2: int)
    requires
        occurs_at(x, pat, k1),
        occurs_at(y, x, k2),
    ensures
        occurs_at(y, pat, k1 + k2),
{
    assert(y.subrange(k1 + k2, k1 + k2 + pat.len()) =~= x.subrange(k1, k1 + pat.len()));
}

pub proof fn lemma_occurs_in_concat(a: Seq<TokenModel>, x: Seq<TokenModel>, b: Seq<TokenModel>)
    ensures
        occurs_at(a + x + b, x, a.len() as int),
{
    assert((a + x + b).subrange(a.len() as int, (a.len() + x.len()) as int) =~= x);
}

pub proof fn lemma_occurs_within_at(ts: Seq<TokenModel>, pat: Seq<TokenModel>, k: int)
    requires
        occurs_at(ts, pat, k),
    ensures
        occurs_within(ts, pat),
{
    let path = Seq::<int>::empty();
    assert(descend(ts, path) == ts);
    assert(occurs_at(descend(ts, path), pat, k));
}

/// What stands inside a group of `ts` stands within `ts`.
pub proof fn lemma_occurs_within_group(ts: Seq<TokenModel>, i: int, pat: Seq<TokenModel>)
    requires
        0 <= i < ts.len(),
        ts[i] matches TokenModel::Group(_, inner) && occurs_within(inner, pat),
    ensures
        occurs_within(ts, pat),
{
    let inner = ts[i]->Group_1;
    let (path, k) = choose|path: Seq<int>, k: int| #[trigger] occurs_at(descend(inner, path), pat, k);
    let p2 = seq![i] + path;
    assert(p2.drop_first() =~= path);
    assert(descend(ts, p2) == descend(inner, path));
    assert(occurs_at(descend(ts, p2), pat, k));
}

/// What stands within `x` stands within any sequence that holds `x`.
pub proof fn lemma_occurs_within_concat(
    a: Seq<TokenModel>,
    x: Seq<TokenModel>,
    b: Seq<TokenModel>,
    pat: Seq<TokenModel>,
)
    requires
        occurs_within(x, pat),
    ensures
        occurs_within(a + x + b, pat),
{
    let y = a + x + b;
    let (path, k) = choose|path: Seq<int>, k: int| #[trigger] occurs_at(descend(x, path), pat, k);
    lemma_occurs_in_concat(a, x, b);
    if path.len() == 0 {
        lemma_occurs_at_trans(x, y, pat, k, a.len() as int);
        lemma_occurs_within_at(y, pat, k + a.len());
    } else if 0 <= path[0] < x.len() {
        assert(y[path[0] + a.len()] == x[path[0]]);
        match x[path[0]] {
            TokenModel::Group(_, inner) => {
                assert(descend(x, path) == descend(inner, path.drop_first()));
                let p3 = path.drop_first();
                assert(occurs_at(descend(inner, p3), pat, k));
                assert(occurs_within(inner, pat));
                lemma_occurs_within_group(y, path[0] + a.len(), pat);
            },
            _ => {
                assert(descend(x, path) =~= Seq::<TokenModel>::empty());
                assert(pat.len() == 0);
                assert(occurs_at(y, pat, 0)) by {
                    assert(y.subrange(0, 0) =~= pat);
                }
                lemma_occurs_within_at(y, pat, 0);
            },
        }
    } else {
        assert(descend(x, path) =~= Seq::<TokenModel>::empty());
        assert(occurs_at(y, pat, 0)) by {
            assert(y.subrange(0, 0) =~= pat);
        }
        lemma_occurs_within_at(y, pat, 0);
    }
}

/// What stands within a part of `y` stands within `y`.
pub proof fn lemma_occurs_within_part(x: Seq<TokenModel>, y: Seq<TokenModel>, k: int, pat: Seq<TokenModel>)
    requires
        occurs_at(y, x, k),
        occurs_within(x, pat),
    ensures
        occurs_within(y, pat),
{
    assert(y =~= y.subrange(0, k) + x + y.subrange(k + x.len(), y.len() as int));
    lemma_occurs_within_concat(y.subrange(0, k), x, y.subrange(k + x.len(), y.len() as int), pat);
}

} // verus!
