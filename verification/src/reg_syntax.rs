//! The grammar of a register declaration.
//!
//! A declaration reads
//!
//! ```text
//! #[attrs] vis mod BLOCK REG;
//! ADDRESS SIZE RESET Trait...;
//! #[attrs] FIELD { OFFSET WIDTH Trait... }
//! ...
//! ```

use vstd::prelude::*;
use crate::keyword::is_ident_reserved;
use crate::literal::int_literal_value;
use crate::names::strs;
use crate::syntax::{
    all_attrs_ok, all_names, attrs_model, int_literal_of, is_int_literal,
    is_name, is_punct, is_word, lemma_distinct_words, lemma_parse_attrs_complete,
    lemma_parse_attrs_sound, lemma_parse_vis_complete, lemma_parse_vis_sound, lemma_rest, name_of,
    names, parse_attrs, parse_attrs_at, parse_vis, parse_vis_at, print_attrs, print_vis, rest,
    starts_with_pound, vis_follow, word, Attribute, ParseError, Visibility, VisModel,
};
use crate::token::{models, Delimiter, Token, TokenModel};

verus! {

/// A field of a register, as declared.
#[verifier::ext_equal]
pub struct FieldModel {
    pub attrs: Seq<Seq<TokenModel>>,
    pub ident: Seq<char>,
    pub offset: Seq<char>,
    pub width: Seq<char>,
    pub traits: Seq<Seq<char>>,
}

/// A register, as declared.
#[verifier::ext_equal]
pub struct RegModel {
    pub attrs: Seq<Seq<TokenModel>>,
    pub vis: VisModel,
    pub block: Seq<char>,
    pub ident: Seq<char>,
    pub address: Seq<char>,
    pub size: Seq<char>,
    pub reset: Seq<char>,
    pub traits: Seq<Seq<char>>,
    pub fields: Seq<FieldModel>,
}

impl FieldModel {
    pub open spec fn wf(self) -> bool {
        &&& all_attrs_ok(self.attrs)
        &&& !is_ident_reserved(self.ident)
        &&& int_literal_value(self.offset) is Some
        &&& int_literal_value(self.width) is Some
        &&& all_names(self.traits)
    }
}

impl RegModel {
    pub open spec fn wf(self) -> bool {
        &&& all_attrs_ok(self.attrs)
        &&& self.vis.wf()
        &&& !is_ident_reserved(self.block)
        &&& !is_ident_reserved(self.ident)
        &&& int_literal_value(self.address) is Some
        &&& int_literal_value(self.size) is Some
        &&& int_literal_value(self.reset) is Some
        &&& all_names(self.traits)
        &&& forall|i: int| 0 <= i < self.fields.len() ==> (#[trigger] self.fields[i]).wf()
    }
}

/// The tokens between the braces of a field.
pub open spec fn print_field_body(f: FieldModel) -> Seq<TokenModel> {
    seq![TokenModel::Literal(f.offset), TokenModel::Literal(f.width)] + names(f.traits)
}

pub open spec fn print_field(f: FieldModel) -> Seq<TokenModel> {
    print_attrs(f.attrs) + seq![
        TokenModel::Ident(f.ident),
        TokenModel::Group(Delimiter::Brace, print_field_body(f)),
    ]
}

pub open spec fn print_fields(fs: Seq<FieldModel>) -> Seq<TokenModel>
    decreases fs.len(),
{
    if fs.len() == 0 {
        Seq::empty()
    } else {
        print_field(fs[0]) + print_fields(fs.drop_first())
    }
}

/// The tokens from `mod` to the literal of the reset value.
pub open spec fn print_head(d: RegModel) -> Seq<TokenModel> {
    seq![
        word("mod"),
        TokenModel::Ident(d.block),
        TokenModel::Ident(d.ident),
        TokenModel::Punct(';'),
        TokenModel::Literal(d.address),
        TokenModel::Literal(d.size),
        TokenModel::Literal(d.reset),
    ]
}

/// The tokens of a register declaration.
pub open spec fn print_reg(d: RegModel) -> Seq<TokenModel> {
    print_attrs(d.attrs) + print_vis(d.vis) + print_head(d) + names(d.traits) + seq![
        TokenModel::Punct(';'),
    ] + print_fields(d.fields)
}

/// Identifiers up to and including a `;`.
pub open spec fn parse_names_until_semi(ts: Seq<TokenModel>) -> Option<
    (Seq<Seq<char>>, Seq<TokenModel>),
>
    decreases ts.len(),
{
    if ts.len() == 0 {
        None
    } else if ts[0] == TokenModel::Punct(';') {
        Some((Seq::empty(), ts.skip(1)))
    } else {
        match ts[0] {
            TokenModel::Ident(w) => if is_ident_reserved(w) {
                None
            } else {
                match parse_names_until_semi(ts.skip(1)) {
                    Some((ws, r)) => Some((seq![w] + ws, r)),
                    None => None,
                }
            },
            _ => None,
        }
    }
}

/// Identifiers up to the end of the input.
pub open spec fn parse_names_to_end(ts: Seq<TokenModel>) -> Option<Seq<Seq<char>>>
    decreases ts.len(),
{
    if ts.len() == 0 {
        Some(Seq::empty())
    } else {
        match ts[0] {
            TokenModel::Ident(w) => if is_ident_reserved(w) {
                None
            } else {
                match parse_names_to_end(ts.skip(1)) {
                    Some(ws) => Some(seq![w] + ws),
                    None => None,
                }
            },
            _ => None,
        }
    }
}

/// The content of a field's braces: offset, width and traits.
pub open spec fn parse_field_body(c: Seq<TokenModel>) -> Option<
    (Seq<char>, Seq<char>, Seq<Seq<char>>),
> {
    if c.len() >= 2 && is_int_literal(c[0]) && is_int_literal(c[1]) {
        match parse_names_to_end(c.skip(2)) {
            Some(ws) => Some((c[0]->Literal_0, c[1]->Literal_0, ws)),
            None => None,
        }
    } else {
        None
    }
}

/// Parses one field at the start of `ts`.
pub open spec fn parse_field(ts: Seq<TokenModel>) -> Option<(FieldModel, Seq<TokenModel>)> {
    match parse_attrs(ts) {
        Some((attrs, r)) => if r.len() >= 2 && is_name(r[0]) {
            match r[1] {
                TokenModel::Group(Delimiter::Brace, c) => match parse_field_body(c) {
                    Some((offset, width, traits)) => Some(
                        (
                            FieldModel {
                                attrs,
                                ident: r[0]->Ident_0,
                                offset,
                                width,
                                traits,
                            },
                            r.skip(2),
                        ),
                    ),
                    None => None,
                },
                _ => None,
            }
        } else {
            None
        },
        None => None,
    }
}

pub proof fn lemma_parse_field_shrinks(ts: Seq<TokenModel>)
    requires
        parse_field(ts) is Some,
    ensures
        parse_field(ts).unwrap().1.len() < ts.len(),
{
    lemma_parse_attrs_sound(ts);
}

/// Parses fields up to the end of the input.
pub open spec fn parse_fields(ts: Seq<TokenModel>) -> Option<Seq<FieldModel>>
    decreases ts.len(),
{
    if ts.len() == 0 {
        Some(Seq::empty())
    } else {
        match parse_field(ts) {
            Some((f, r)) => {
                proof {
                    lemma_parse_field_shrinks(ts);
                }
                match parse_fields(r) {
                    Some(fs) => Some(seq![f] + fs),
                    None => None,
                }
            },
            None => None,
        }
    }
}

/// Parses a whole register declaration.
pub open spec fn parse_reg(ts: Seq<TokenModel>) -> Option<RegModel> {
    match parse_attrs(ts) {
        None => None,
        Some((attrs, r1)) => match parse_vis(r1) {
            None => None,
            Some((vis, r2)) => if r2.len() >= 7 && r2[0] == word("mod") && is_name(r2[1])
                && is_name(r2[2]) && r2[3] == TokenModel::Punct(';') && is_int_literal(r2[4])
                && is_int_literal(r2[5]) && is_int_literal(r2[6]) {
                match parse_names_until_semi(r2.skip(7)) {
                    None => None,
                    Some((traits, r3)) => match parse_fields(r3) {
                        None => None,
                        Some(fields) => Some(
                            RegModel {
                                attrs,
                                vis,
                                block: r2[1]->Ident_0,
                                ident: r2[2]->Ident_0,
                                address: r2[4]->Literal_0,
                                size: r2[5]->Literal_0,
                                reset: r2[6]->Literal_0,
                                traits,
                                fields,
                            },
                        ),
                    },
                }
            } else {
                None
            },
        },
    }
}

proof fn lemma_names_cons(w: Seq<char>, ws: Seq<Seq<char>>)
    ensures
        names(seq![w] + ws) == seq![TokenModel::Ident(w)] + names(ws),
{
    assert(names(seq![w] + ws) =~= seq![TokenModel::Ident(w)] + names(ws));
}

proof fn lemma_all_names_cons(w: Seq<char>, ws: Seq<Seq<char>>)
    ensures
        all_names(seq![w] + ws) <==> !is_ident_reserved(w) && all_names(ws),
{
    let all = seq![w] + ws;
    if !is_ident_reserved(w) && all_names(ws) {
        assert forall|i: int| 0 <= i < all.len() implies !is_ident_reserved(#[trigger] all[i]) by {
            if i > 0 {
                assert(all[i] == ws[i - 1]);
            }
        }
    }
    if all_names(all) {
        assert(all[0] == w);
        assert forall|i: int| 0 <= i < ws.len() implies !is_ident_reserved(#[trigger] ws[i]) by {
            assert(all[i + 1] == ws[i]);
        }
    }
}

proof fn lemma_names_until_semi_sound(ts: Seq<TokenModel>)
    requires
        parse_names_until_semi(ts) is Some,
    ensures
        ({
            let (ws, r) = parse_names_until_semi(ts).unwrap();
            all_names(ws) && ts == names(ws) + seq![TokenModel::Punct(';')] + r
        }),
    decreases ts.len(),
{
    let (ws, r) = parse_names_until_semi(ts).unwrap();
    if ts[0] == TokenModel::Punct(';') {
        assert(ts =~= names(ws) + seq![TokenModel::Punct(';')] + r);
    } else {
        let w = ts[0]->Ident_0;
        lemma_names_until_semi_sound(ts.skip(1));
        let (ws2, r2) = parse_names_until_semi(ts.skip(1)).unwrap();
        lemma_names_cons(w, ws2);
        lemma_all_names_cons(w, ws2);
        assert(ts =~= seq![ts[0]] + ts.skip(1));
        assert(names(ws) + seq![TokenModel::Punct(';')] + r =~= seq![TokenModel::Ident(w)] + (names(
            ws2,
        ) + seq![TokenModel::Punct(';')] + r2));
    }
}

proof fn lemma_names_until_semi_complete(ws: Seq<Seq<char>>, r: Seq<TokenModel>)
    requires
        all_names(ws),
    ensures
        parse_names_until_semi(names(ws) + seq![TokenModel::Punct(';')] + r) == Some((ws, r)),
    decreases ws.len(),
{
    let ts = names(ws) + seq![TokenModel::Punct(';')] + r;
    if ws.len() == 0 {
        assert(ts.skip(1) =~= r);
        assert(ts[0] == TokenModel::Punct(';'));
    } else {
        let tail = ws.drop_first();
        assert(ws =~= seq![ws[0]] + tail);
        lemma_all_names_cons(ws[0], tail);
        lemma_names_cons(ws[0], tail);
        lemma_names_until_semi_complete(tail, r);
        assert(ts.skip(1) =~= names(tail) + seq![TokenModel::Punct(';')] + r);
        assert(ts[0] == TokenModel::Ident(ws[0]));
    }
}

proof fn lemma_names_to_end_sound(ts: Seq<TokenModel>)
    requires
        parse_names_to_end(ts) is Some,
    ensures
        all_names(parse_names_to_end(ts).unwrap()) && ts == names(parse_names_to_end(ts).unwrap()),
    decreases ts.len(),
{
    let ws = parse_names_to_end(ts).unwrap();
    if ts.len() == 0 {
        assert(ts =~= names(ws));
    } else {
        let w = ts[0]->Ident_0;
        lemma_names_to_end_sound(ts.skip(1));
        let ws2 = parse_names_to_end(ts.skip(1)).unwrap();
        lemma_names_cons(w, ws2);
        lemma_all_names_cons(w, ws2);
        assert(ts =~= seq![ts[0]] + ts.skip(1));
    }
}

proof fn lemma_names_to_end_complete(ws: Seq<Seq<char>>)
    requires
        all_names(ws),
    ensures
        parse_names_to_end(names(ws)) == Some(ws),
    decreases ws.len(),
{
    if ws.len() == 0 {
        assert(ws =~= Seq::empty());
    } else {
        let tail = ws.drop_first();
        assert(ws =~= seq![ws[0]] + tail);
        lemma_all_names_cons(ws[0], tail);
        lemma_names_cons(ws[0], tail);
        lemma_names_to_end_complete(tail);
        assert(names(ws).skip(1) =~= names(tail));
    }
}

proof fn lemma_parse_field_sound(ts: Seq<TokenModel>)
    requires
        parse_field(ts) is Some,
    ensures
        ({
            let (f, r) = parse_field(ts).unwrap();
            f.wf() && ts == print_field(f) + r
        }),
{
    lemma_parse_attrs_sound(ts);
    let (attrs, r1) = parse_attrs(ts).unwrap();
    let c = r1[1]->Group_1;
    lemma_names_to_end_sound(c.skip(2));
    let (f, r) = parse_field(ts).unwrap();
    assert(c =~= print_field_body(f));
    assert(r1 =~= seq![r1[0], r1[1]] + r1.skip(2));
    assert(ts =~= print_field(f) + r);
}

proof fn lemma_parse_field_complete(f: FieldModel, r: Seq<TokenModel>)
    requires
        f.wf(),
    ensures
        parse_field(print_field(f) + r) == Some((f, r)),
{
    let after = seq![
        TokenModel::Ident(f.ident),
        TokenModel::Group(Delimiter::Brace, print_field_body(f)),
    ] + r;
    assert(print_field(f) + r =~= print_attrs(f.attrs) + after);
    assert(!starts_with_pound(after));
    lemma_parse_attrs_complete(f.attrs, after);
    let c = print_field_body(f);
    assert(c.skip(2) =~= names(f.traits));
    lemma_names_to_end_complete(f.traits);
    assert(after.skip(2) =~= r);
}

proof fn lemma_parse_fields_sound(ts: Seq<TokenModel>)
    requires
        parse_fields(ts) is Some,
    ensures
        ({
            let fs = parse_fields(ts).unwrap();
            &&& forall|i: int| 0 <= i < fs.len() ==> (#[trigger] fs[i]).wf()
            &&& ts == print_fields(fs)
        }),
    decreases ts.len(),
{
    let fs = parse_fields(ts).unwrap();
    if ts.len() == 0 {
        assert(ts =~= print_fields(fs));
    } else {
        lemma_parse_field_sound(ts);
        lemma_parse_field_shrinks(ts);
        let (f, r) = parse_field(ts).unwrap();
        lemma_parse_fields_sound(r);
        let fs2 = parse_fields(r).unwrap();
        assert(fs.drop_first() =~= fs2);
        assert forall|i: int| 0 <= i < fs.len() implies (#[trigger] fs[i]).wf() by {
            if i > 0 {
                assert(fs[i] == fs2[i - 1]);
            }
        }
    }
}

proof fn lemma_parse_fields_complete(fs: Seq<FieldModel>)
    requires
        forall|i: int| 0 <= i < fs.len() ==> (#[trigger] fs[i]).wf(),
    ensures
        parse_fields(print_fields(fs)) == Some(fs),
    decreases fs.len(),
{
    if fs.len() == 0 {
        assert(fs =~= Seq::empty());
    } else {
        let tail = fs.drop_first();
        assert(fs[0].wf());
        assert forall|i: int| 0 <= i < tail.len() implies (#[trigger] tail[i]).wf() by {
            assert(tail[i] == fs[i + 1]);
        }
        lemma_parse_field_complete(fs[0], print_fields(tail));
        lemma_parse_fields_complete(tail);
        let ts = print_fields(fs);
        assert(ts.len() > 0) by {
            assert(print_field(fs[0]).len() >= 2);
        }
        assert(seq![fs[0]] + tail =~= fs);
    }
}

/// Every declaration that `parse_reg` accepts is well formed and prints back to
/// the tokens it was read from.
#[verifier::rlimit(40)]
pub proof fn lemma_parse_reg_sound(ts: Seq<TokenModel>)
    requires
        parse_reg(ts) is Some,
    ensures
        parse_reg(ts).unwrap().wf(),
        print_reg(parse_reg(ts).unwrap()) == ts,
{
    lemma_parse_attrs_sound(ts);
    let (attrs, r1) = parse_attrs(ts).unwrap();
    lemma_parse_vis_sound(r1);
    let (vis, r2) = parse_vis(r1).unwrap();
    lemma_names_until_semi_sound(r2.skip(7));
    let (traits, r3) = parse_names_until_semi(r2.skip(7)).unwrap();
    lemma_parse_fields_sound(r3);
    let d = parse_reg(ts).unwrap();
    assert(r2 =~= print_head(d) + r2.skip(7));
    assert(ts =~= print_reg(d));
}

/// Every well-formed declaration is read back from its tokens.
pub proof fn lemma_parse_reg_complete(d: RegModel)
    requires
        d.wf(),
    ensures
        parse_reg(print_reg(d)) == Some(d),
{
    lemma_distinct_words();
    let ts = print_reg(d);
    let tail = names(d.traits) + seq![TokenModel::Punct(';')] + print_fields(d.fields);
    let after_vis = print_head(d) + tail;
    let after_attrs = print_vis(d.vis) + after_vis;
    assert(ts =~= print_attrs(d.attrs) + after_attrs);
    assert(vis_follow(after_vis));
    lemma_parse_vis_complete(d.vis, after_vis);
    assert(!starts_with_pound(after_attrs)) by {
        match d.vis {
            VisModel::Inherited => {},
            _ => {},
        }
    }
    lemma_parse_attrs_complete(d.attrs, after_attrs);
    assert(after_vis.skip(7) =~= tail);
    lemma_names_until_semi_complete(d.traits, print_fields(d.fields));
    lemma_parse_fields_complete(d.fields);
}

/// A field of a register, as declared.
pub struct Field {
    pub attrs: Vec<Attribute>,
    pub ident: String,
    /// The literal of the field's offset, as written.
    pub offset: String,
    /// The literal of the field's width, as written.
    pub width: String,
    pub traits: Vec<String>,
}

impl View for Field {
    type V = FieldModel;

    open spec fn view(&self) -> FieldModel {
        FieldModel {
            attrs: attrs_model(self.attrs@),
            ident: self.ident@,
            offset: self.offset@,
            width: self.width@,
            traits: strs(self.traits@),
        }
    }
}

/// The models of a sequence of fields.
pub open spec fn fields_model(v: Seq<Field>) -> Seq<FieldModel> {
    v.map_values(|f: Field| f@)
}

/// A register, as declared.
pub struct Reg {
    pub attrs: Vec<Attribute>,
    pub vis: Visibility,
    pub block: String,
    pub ident: String,
    /// The literal of the register's address, as written.
    pub address: String,
    /// The literal of the register's size in bits, as written.
    pub size: String,
    /// The literal of the register's reset value, as written.
    pub reset: String,
    pub traits: Vec<String>,
    pub fields: Vec<Field>,
}

impl View for Reg {
    type V = RegModel;

    open spec fn view(&self) -> RegModel {
        RegModel {
            attrs: attrs_model(self.attrs@),
            vis: self.vis@,
            block: self.block@,
            ident: self.ident@,
            address: self.address@,
            size: self.size@,
            reset: self.reset@,
            traits: strs(self.traits@),
            fields: fields_model(self.fields@),
        }
    }
}

fn names_until_semi_at(ts: &Vec<Token>, pos: usize) -> (r: Option<(Vec<String>, usize)>)
    requires
        pos <= ts.len(),
    ensures
        match r {
            Some((ws, p)) => pos <= p <= ts.len() && parse_names_until_semi(rest(ts@, pos as int))
                == Some((strs(ws@), rest(ts@, p as int))),
            None => parse_names_until_semi(rest(ts@, pos as int)) is None,
        },
    decreases ts.len() - pos,
{
    proof {
        lemma_rest(ts@, pos as int);
    }
    if pos == ts.len() {
        return None;
    }
    if is_punct(&ts[pos], ';') {
        let v: Vec<String> = Vec::new();
        proof {
            assert(strs(v@) =~= Seq::empty());
        }
        return Some((v, pos + 1));
    }
    match name_of(&ts[pos]) {
        None => None,
        Some(w) => match names_until_semi_at(ts, pos + 1) {
            None => None,
            Some((ws, p)) => {
                let mut all = ws;
                let ghost tail = all@;
                all.insert(0, w);
                proof {
                    assert(strs(all@) =~= seq![w@] + strs(tail));
                }
                Some((all, p))
            },
        },
    }
}

fn names_to_end_at(ts: &Vec<Token>, pos: usize) -> (r: Option<Vec<String>>)
    requires
        pos <= ts.len(),
    ensures
        match r {
            Some(ws) => parse_names_to_end(rest(ts@, pos as int)) == Some(strs(ws@)),
            None => parse_names_to_end(rest(ts@, pos as int)) is None,
        },
    decreases ts.len() - pos,
{
    proof {
        lemma_rest(ts@, pos as int);
    }
    if pos == ts.len() {
        let v: Vec<String> = Vec::new();
        proof {
            assert(strs(v@) =~= Seq::empty());
        }
        return Some(v);
    }
    match name_of(&ts[pos]) {
        None => None,
        Some(w) => match names_to_end_at(ts, pos + 1) {
            None => None,
            Some(ws) => {
                let mut all = ws;
                let ghost tail = all@;
                all.insert(0, w);
                proof {
                    assert(strs(all@) =~= seq![w@] + strs(tail));
                }
                Some(all)
            },
        },
    }
}

fn field_at(ts: &Vec<Token>, pos: usize) -> (r: Option<(Field, usize)>)
    requires
        pos <= ts.len(),
    ensures
        match r {
            Some((f, p)) => pos <= p <= ts.len() && parse_field(rest(ts@, pos as int)) == Some(
                (f@, rest(ts@, p as int)),
            ),
            None => parse_field(rest(ts@, pos as int)) is None,
        },
{
    proof {
        lemma_rest(ts@, pos as int);
    }
    let (attrs, p) = match parse_attrs_at(ts, pos) {
        Some(x) => x,
        None => {
            return None;
        },
    };
    proof {
        lemma_rest(ts@, p as int);
    }
    if ts.len() - p < 2 {
        return None;
    }
    let ident = match name_of(&ts[p]) {
        Some(w) => w,
        None => {
            return None;
        },
    };
    match &ts[p + 1] {
        Token::Group(Delimiter::Brace, c) => {
            proof {
                lemma_rest(c@, 0);
                assert(rest(c@, 0) =~= models(c@));
            }
            if c.len() < 2 {
                return None;
            }
            let offset = match int_literal_of(&c[0]) {
                Some(t) => t,
                None => {
                    return None;
                },
            };
            let width = match int_literal_of(&c[1]) {
                Some(t) => t,
                None => {
                    return None;
                },
            };
            proof {
                lemma_rest(c@, 2);
            }
            match names_to_end_at(c, 2) {
                Some(traits) => Some((Field { attrs, ident, offset, width, traits }, p + 2)),
                None => None,
            }
        },
        _ => None,
    }
}

fn fields_at(ts: &Vec<Token>, pos: usize) -> (r: Option<Vec<Field>>)
    requires
        pos <= ts.len(),
    ensures
        match r {
            Some(fs) => parse_fields(rest(ts@, pos as int)) == Some(fields_model(fs@)),
            None => parse_fields(rest(ts@, pos as int)) is None,
        },
    decreases ts.len() - pos,
{
    proof {
        lemma_rest(ts@, pos as int);
    }
    if pos == ts.len() {
        let v: Vec<Field> = Vec::new();
        proof {
            assert(fields_model(v@) =~= Seq::empty());
        }
        return Some(v);
    }
    match field_at(ts, pos) {
        None => None,
        Some((f, p)) => {
            proof {
                lemma_parse_field_shrinks(rest(ts@, pos as int));
                lemma_rest(ts@, p as int);
            }
            match fields_at(ts, p) {
                None => None,
                Some(fs) => {
                    let mut all = fs;
                    let ghost tail = all@;
                    all.insert(0, f);
                    proof {
                        assert(fields_model(all@) =~= seq![f@] + fields_model(tail));
                    }
                    Some(all)
                },
            }
        },
    }
}

/// Reads a register declaration.
///
/// The declaration is returned exactly when the tokens are the printing of a
/// well-formed declaration, and it is that declaration.
pub fn parse(ts: &Vec<Token>) -> (r: Result<Reg, ParseError>)
    ensures
        match r {
            Ok(d) => d@.wf() && print_reg(d@) == models(ts@),
            Err(_) => forall|d: RegModel| d.wf() ==> print_reg(d) != models(ts@),
        },
        r is Ok <==> parse_reg(models(ts@)) is Some,
        r matches Ok(d) ==> parse_reg(models(ts@)) == Some(d@),
{
    proof {
        lemma_rest(ts@, 0);
        assert(rest(ts@, 0) =~= models(ts@));
    }
    let ghost input = models(ts@);
    let r = parse_at(ts);
    proof {
        if r is Ok {
            lemma_parse_reg_sound(input);
        } else {
            assert forall|d: RegModel| d.wf() implies print_reg(d) != input by {
                if print_reg(d) == input {
                    lemma_parse_reg_complete(d);
                }
            }
        }
    }
    r
}

fn parse_at(ts: &Vec<Token>) -> (r: Result<Reg, ParseError>)
    requires
        rest(ts@, 0) == models(ts@),
    ensures
        match r {
            Ok(d) => parse_reg(models(ts@)) == Some(d@),
            Err(_) => parse_reg(models(ts@)) is None,
        },
{
    let (attrs, p1) = match parse_attrs_at(ts, 0) {
        Some(x) => x,
        None => {
            return Err(ParseError);
        },
    };
    let (vis, p2) = match parse_vis_at(ts, p1) {
        Some(x) => x,
        None => {
            return Err(ParseError);
        },
    };
    proof {
        lemma_rest(ts@, p2 as int);
    }
    if ts.len() - p2 < 7 || !is_word(&ts[p2], "mod") {
        return Err(ParseError);
    }
    let block = match name_of(&ts[p2 + 1]) {
        Some(w) => w,
        None => {
            return Err(ParseError);
        },
    };
    let ident = match name_of(&ts[p2 + 2]) {
        Some(w) => w,
        None => {
            return Err(ParseError);
        },
    };
    if !is_punct(&ts[p2 + 3], ';') {
        return Err(ParseError);
    }
    let address = match int_literal_of(&ts[p2 + 4]) {
        Some(t) => t,
        None => {
            return Err(ParseError);
        },
    };
    let size = match int_literal_of(&ts[p2 + 5]) {
        Some(t) => t,
        None => {
            return Err(ParseError);
        },
    };
    let reset = match int_literal_of(&ts[p2 + 6]) {
        Some(t) => t,
        None => {
            return Err(ParseError);
        },
    };
    let (traits, p3) = match names_until_semi_at(ts, p2 + 7) {
        Some(x) => x,
        None => {
            return Err(ParseError);
        },
    };
    match fields_at(ts, p3) {
        Some(fields) => Ok(Reg { attrs, vis, block, ident, address, size, reset, traits, fields }),
        None => Err(ParseError),
    }
}

} // verus!
