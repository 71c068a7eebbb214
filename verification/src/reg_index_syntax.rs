//! The grammar of a register index declaration.
//!
//! A declaration reads
//!
//! ```text
//! #[attrs] vis macro NEXT_MACRO;
//! use macro PREV_MACRO;            (optional)
//! ROOT_PATH;
//! MACRO_ROOT_PATH;                 (or an empty `;`)
//! #[attrs] vis mod BLOCK {
//!     #[attrs] REG;
//!     ...
//! }
//! ...
//! ```

use vstd::prelude::*;
use crate::keyword::{is_ident_reserved, IDENT_RESERVED};
use crate::syntax::{
    all_attrs_ok, attrs_model, is_name, is_punct, is_word, lemma_distinct_words,
    lemma_parse_attrs_complete, lemma_parse_attrs_sound, lemma_parse_path_complete,
    lemma_parse_path_sound, lemma_parse_vis_complete, lemma_parse_vis_sound, lemma_rest, name_of,
    parse_attrs, parse_attrs_at, parse_path, parse_path_at, parse_vis, parse_vis_at, print_attrs,
    print_path, print_vis, rest, is_path_word, word,
    Attribute, ParseError, Path, PathModel, Visibility, VisModel,
};
use crate::token::{models, Delimiter, Token, TokenModel};

verus! {

/// A register of a block, as declared.
#[verifier::ext_equal]
pub struct RegEntryModel {
    pub attrs: Seq<Seq<TokenModel>>,
    pub ident: Seq<char>,
}

/// A block of registers, as declared.
#[verifier::ext_equal]
pub struct BlockModel {
    pub attrs: Seq<Seq<TokenModel>>,
    pub vis: VisModel,
    pub ident: Seq<char>,
    pub regs: Seq<RegEntryModel>,
}

/// A register index, as declared.
#[verifier::ext_equal]
pub struct RegIndexModel {
    pub next_macro_attrs: Seq<Seq<TokenModel>>,
    pub next_macro_vis: VisModel,
    pub next_macro: Seq<char>,
    pub prev_macro: Option<Seq<char>>,
    pub root_path: PathModel,
    pub macro_root_path: Option<PathModel>,
    pub blocks: Seq<BlockModel>,
}

impl RegEntryModel {
    pub open spec fn wf(self) -> bool {
        all_attrs_ok(self.attrs) && !is_ident_reserved(self.ident)
    }
}

impl BlockModel {
    pub open spec fn wf(self) -> bool {
        &&& all_attrs_ok(self.attrs)
        &&& self.vis.wf()
        &&& !is_ident_reserved(self.ident)
        &&& forall|i: int| 0 <= i < self.regs.len() ==> (#[trigger] self.regs[i]).wf()
    }
}

impl RegIndexModel {
    pub open spec fn wf(self) -> bool {
        &&& all_attrs_ok(self.next_macro_attrs)
        &&& self.next_macro_vis.wf()
        &&& !is_ident_reserved(self.next_macro)
        &&& (self.prev_macro matches Some(p) ==> !is_ident_reserved(p))
        &&& self.root_path.wf()
        &&& (self.macro_root_path matches Some(p) ==> p.wf())
        &&& forall|i: int| 0 <= i < self.blocks.len() ==> (#[trigger] self.blocks[i]).wf()
    }
}

pub open spec fn print_entry(r: RegEntryModel) -> Seq<TokenModel> {
    print_attrs(r.attrs) + seq![TokenModel::Ident(r.ident), TokenModel::Punct(';')]
}

pub open spec fn print_entries(rs: Seq<RegEntryModel>) -> Seq<TokenModel>
    decreases rs.len(),
{
    if rs.len() == 0 {
        Seq::empty()
    } else {
        print_entry(rs[0]) + print_entries(rs.drop_first())
    }
}

pub open spec fn print_block(b: BlockModel) -> Seq<TokenModel> {
    print_attrs(b.attrs) + print_vis(b.vis) + seq![
        word("mod"),
        TokenModel::Ident(b.ident),
        TokenModel::Group(Delimiter::Brace, print_entries(b.regs)),
    ]
}

pub open spec fn print_blocks(bs: Seq<BlockModel>) -> Seq<TokenModel>
    decreases bs.len(),
{
    if bs.len() == 0 {
        Seq::empty()
    } else {
        print_block(bs[0]) + print_blocks(bs.drop_first())
    }
}

/// The tokens of the optional `use macro PREV;` line.
pub open spec fn print_prev(prev: Option<Seq<char>>) -> Seq<TokenModel> {
    match prev {
        Some(p) => seq![word("use"), word("macro"), TokenModel::Ident(p), TokenModel::Punct(';')],
        None => Seq::empty(),
    }
}

/// The tokens of the macro root path line.
pub open spec fn print_macro_root(m: Option<PathModel>) -> Seq<TokenModel> {
    match m {
        Some(p) => print_path(p) + seq![TokenModel::Punct(';')],
        None => seq![TokenModel::Punct(';')],
    }
}

/// The tokens from the root path to the end of the declaration.
pub open spec fn print_paths_and_blocks(d: RegIndexModel) -> Seq<TokenModel> {
    print_path(d.root_path) + seq![TokenModel::Punct(';')] + print_macro_root(d.macro_root_path)
        + print_blocks(d.blocks)
}

/// The tokens of a register index declaration.
pub open spec fn print_index(d: RegIndexModel) -> Seq<TokenModel> {
    print_attrs(d.next_macro_attrs) + print_vis(d.next_macro_vis) + seq![
        word("macro"),
        TokenModel::Ident(d.next_macro),
        TokenModel::Punct(';'),
    ] + print_prev(d.prev_macro) + print_paths_and_blocks(d)
}

/// Parses one register entry at the start of `ts`.
pub open spec fn parse_entry(ts: Seq<TokenModel>) -> Option<(RegEntryModel, Seq<TokenModel>)> {
    match parse_attrs(ts) {
        Some((attrs, r)) => if r.len() >= 2 && is_name(r[0]) && r[1] == TokenModel::Punct(';') {
            Some((RegEntryModel { attrs, ident: r[0]->Ident_0 }, r.skip(2)))
        } else {
            None
        },
        None => None,
    }
}

pub proof fn lemma_parse_entry_shrinks(ts: Seq<TokenModel>)
    requires
        parse_entry(ts) is Some,
    ensures
        parse_entry(ts).unwrap().1.len() < ts.len(),
{
    lemma_parse_attrs_sound(ts);
}

/// Parses register entries up to the end of the input.
pub open spec fn parse_entries(ts: Seq<TokenModel>) -> Option<Seq<RegEntryModel>>
    decreases ts.len(),
{
    if ts.len() == 0 {
        Some(Seq::empty())
    } else {
        match parse_entry(ts) {
            Some((e, r)) => {
                proof {
                    lemma_parse_entry_shrinks(ts);
                }
                match parse_entries(r) {
                    Some(es) => Some(seq![e] + es),
                    None => None,
                }
            },
            None => None,
        }
    }
}

/// Parses one block at the start of `ts`.
pub open spec fn parse_block(ts: Seq<TokenModel>) -> Option<(BlockModel, Seq<TokenModel>)> {
    match parse_attrs(ts) {
        None => None,
        Some((attrs, r1)) => match parse_vis(r1) {
            None => None,
            Some((vis, r2)) => if r2.len() >= 3 && r2[0] == word("mod") && is_name(r2[1]) {
                match r2[2] {
                    TokenModel::Group(Delimiter::Brace, c) => match parse_entries(c) {
                        Some(regs) => Some(
                            (BlockModel { attrs, vis, ident: r2[1]->Ident_0, regs }, r2.skip(3)),
                        ),
                        None => None,
                    },
                    _ => None,
                }
            } else {
                None
            },
        },
    }
}

pub proof fn lemma_parse_block_shrinks(ts: Seq<TokenModel>)
    requires
        parse_block(ts) is Some,
    ensures
        parse_block(ts).unwrap().1.len() < ts.len(),
{
    lemma_parse_attrs_sound(ts);
    let (_, r1) = parse_attrs(ts).unwrap();
    lemma_parse_vis_sound(r1);
}

/// Parses blocks up to the end of the input.
pub open spec fn parse_blocks(ts: Seq<TokenModel>) -> Option<Seq<BlockModel>>
    decreases ts.len(),
{
    if ts.len() == 0 {
        Some(Seq::empty())
    } else {
        match parse_block(ts) {
            Some((b, r)) => {
                proof {
                    lemma_parse_block_shrinks(ts);
                }
                match parse_blocks(r) {
                    Some(bs) => Some(seq![b] + bs),
                    None => None,
                }
            },
            None => None,
        }
    }
}

/// Parses the optional `use macro PREV;` line.
pub open spec fn parse_prev(ts: Seq<TokenModel>) -> Option<(Option<Seq<char>>, Seq<TokenModel>)> {
    if ts.len() > 0 && ts[0] == word("use") {
        if ts.len() >= 4 && ts[1] == word("macro") && is_name(ts[2]) && ts[3] == TokenModel::Punct(
            ';',
        ) {
            Some((Some(ts[2]->Ident_0), ts.skip(4)))
        } else {
            None
        }
    } else {
        Some((None, ts))
    }
}

/// Parses the macro root path line: a path and `;`, or a lone `;`.
pub open spec fn parse_macro_root(ts: Seq<TokenModel>) -> Option<
    (Option<PathModel>, Seq<TokenModel>),
> {
    if ts.len() > 0 && ts[0] == TokenModel::Punct(';') {
        Some((None, ts.skip(1)))
    } else {
        match parse_path(ts) {
            Some((p, r)) => if r.len() > 0 && r[0] == TokenModel::Punct(';') {
                Some((Some(p), r.skip(1)))
            } else {
                None
            },
            None => None,
        }
    }
}

/// Parses a whole register index declaration.
pub open spec fn parse_index(ts: Seq<TokenModel>) -> Option<RegIndexModel> {
    match parse_attrs(ts) {
        None => None,
        Some((attrs, r1)) => match parse_vis(r1) {
            None => None,
            Some((vis, r2)) => if r2.len() >= 3 && r2[0] == word("macro") && is_name(r2[1])
                && r2[2] == TokenModel::Punct(';') {
                match parse_prev(r2.skip(3)) {
                    None => None,
                    Some((prev, r3)) => match parse_path(r3) {
                        None => None,
                        Some((root, r4)) => if r4.len() > 0 && r4[0] == TokenModel::Punct(';') {
                            match parse_macro_root(r4.skip(1)) {
                                None => None,
                                Some((macro_root, r5)) => match parse_blocks(r5) {
                                    None => None,
                                    Some(blocks) => Some(
                                        RegIndexModel {
                                            next_macro_attrs: attrs,
                                            next_macro_vis: vis,
                                            next_macro: r2[1]->Ident_0,
                                            prev_macro: prev,
                                            root_path: root,
                                            macro_root_path: macro_root,
                                            blocks,
                                        },
                                    ),
                                },
                            }
                        } else {
                            None
                        },
                    },
                }
            } else {
                None
            },
        },
    }
}

proof fn lemma_parse_entry_sound(ts: Seq<TokenModel>)
    requires
        parse_entry(ts) is Some,
    ensures
        ({
            let (e, r) = parse_entry(ts).unwrap();
            e.wf() && ts == print_entry(e) + r
        }),
{
    lemma_parse_attrs_sound(ts);
    let (attrs, r1) = parse_attrs(ts).unwrap();
    let (e, r) = parse_entry(ts).unwrap();
    assert(r1 =~= seq![r1[0], r1[1]] + r1.skip(2));
    assert(ts =~= print_entry(e) + r);
}

proof fn lemma_parse_entry_complete(e: RegEntryModel, r: Seq<TokenModel>)
    requires
        e.wf(),
    ensures
        parse_entry(print_entry(e) + r) == Some((e, r)),
{
    let after = seq![TokenModel::Ident(e.ident), TokenModel::Punct(';')] + r;
    assert(print_entry(e) + r =~= print_attrs(e.attrs) + after);
    lemma_parse_attrs_complete(e.attrs, after);
    assert(after.skip(2) =~= r);
}

proof fn lemma_parse_entries_sound(ts: Seq<TokenModel>)
    requires
        parse_entries(ts) is Some,
    ensures
        ({
            let es = parse_entries(ts).unwrap();
            &&& forall|i: int| 0 <= i < es.len() ==> (#[trigger] es[i]).wf()
            &&& ts == print_entries(es)
        }),
    decreases ts.len(),
{
    let es = parse_entries(ts).unwrap();
    if ts.len() == 0 {
        assert(ts =~= print_entries(es));
    } else {
        lemma_parse_entry_sound(ts);
        lemma_parse_entry_shrinks(ts);
        let (e, r) = parse_entry(ts).unwrap();
        lemma_parse_entries_sound(r);
        let es2 = parse_entries(r).unwrap();
        assert(es.drop_first() =~= es2);
        assert forall|i: int| 0 <= i < es.len() implies (#[trigger] es[i]).wf() by {
            if i > 0 {
                assert(es[i] == es2[i - 1]);
            }
        }
    }
}

proof fn lemma_parse_entries_complete(es: Seq<RegEntryModel>)
    requires
        forall|i: int| 0 <= i < es.len() ==> (#[trigger] es[i]).wf(),
    ensures
        parse_entries(print_entries(es)) == Some(es),
    decreases es.len(),
{
    if es.len() == 0 {
        assert(es =~= Seq::empty());
    } else {
        let tail = es.drop_first();
        assert(es[0].wf());
        assert forall|i: int| 0 <= i < tail.len() implies (#[trigger] tail[i]).wf() by {
            assert(tail[i] == es[i + 1]);
        }
        lemma_parse_entry_complete(es[0], print_entries(tail));
        lemma_parse_entries_complete(tail);
        assert(print_entries(es).len() > 0) by {
            assert(print_entry(es[0]).len() >= 2);
        }
        assert(seq![es[0]] + tail =~= es);
    }
}

proof fn lemma_parse_block_sound(ts: Seq<TokenModel>)
    requires
        parse_block(ts) is Some,
    ensures
        ({
            let (b, r) = parse_block(ts).unwrap();
            b.wf() && ts == print_block(b) + r
        }),
{
    lemma_parse_attrs_sound(ts);
    let (attrs, r1) = parse_attrs(ts).unwrap();
    lemma_parse_vis_sound(r1);
    let (vis, r2) = parse_vis(r1).unwrap();
    let c = r2[2]->Group_1;
    lemma_parse_entries_sound(c);
    let (b, r) = parse_block(ts).unwrap();
    assert(r2 =~= seq![r2[0], r2[1], r2[2]] + r2.skip(3));
    assert(ts =~= print_block(b) + r);
}

proof fn lemma_parse_block_complete(b: BlockModel, r: Seq<TokenModel>)
    requires
        b.wf(),
    ensures
        parse_block(print_block(b) + r) == Some((b, r)),
{
    lemma_distinct_words();
    let after_vis = seq![
        word("mod"),
        TokenModel::Ident(b.ident),
        TokenModel::Group(Delimiter::Brace, print_entries(b.regs)),
    ] + r;
    let after_attrs = print_vis(b.vis) + after_vis;
    assert(print_block(b) + r =~= print_attrs(b.attrs) + after_attrs);
    lemma_parse_vis_complete(b.vis, after_vis);
    lemma_parse_attrs_complete(b.attrs, after_attrs);
    lemma_parse_entries_complete(b.regs);
    assert(after_vis.skip(3) =~= r);
}

proof fn lemma_parse_blocks_sound(ts: Seq<TokenModel>)
    requires
        parse_blocks(ts) is Some,
    ensures
        ({
            let bs = parse_blocks(ts).unwrap();
            &&& forall|i: int| 0 <= i < bs.len() ==> (#[trigger] bs[i]).wf()
            &&& ts == print_blocks(bs)
        }),
    decreases ts.len(),
{
    let bs = parse_blocks(ts).unwrap();
    if ts.len() == 0 {
        assert(ts =~= print_blocks(bs));
    } else {
        lemma_parse_block_sound(ts);
        lemma_parse_block_shrinks(ts);
        let (b, r) = parse_block(ts).unwrap();
        lemma_parse_blocks_sound(r);
        let bs2 = parse_blocks(r).unwrap();
        assert(bs.drop_first() =~= bs2);
        assert forall|i: int| 0 <= i < bs.len() implies (#[trigger] bs[i]).wf() by {
            if i > 0 {
                assert(bs[i] == bs2[i - 1]);
            }
        }
    }
}

proof fn lemma_parse_blocks_complete(bs: Seq<BlockModel>)
    requires
        forall|i: int| 0 <= i < bs.len() ==> (#[trigger] bs[i]).wf(),
    ensures
        parse_blocks(print_blocks(bs)) == Some(bs),
    decreases bs.len(),
{
    if bs.len() == 0 {
        assert(bs =~= Seq::empty());
    } else {
        let tail = bs.drop_first();
        assert(bs[0].wf());
        assert forall|i: int| 0 <= i < tail.len() implies (#[trigger] tail[i]).wf() by {
            assert(tail[i] == bs[i + 1]);
        }
        lemma_parse_block_complete(bs[0], print_blocks(tail));
        lemma_parse_blocks_complete(tail);
        assert(print_blocks(bs).len() > 0) by {
            assert(print_block(bs[0]).len() >= 3);
        }
        assert(seq![bs[0]] + tail =~= bs);
    }
}

proof fn lemma_parse_prev_sound(ts: Seq<TokenModel>)
    requires
        parse_prev(ts) is Some,
    ensures
        ({
            let (prev, r) = parse_prev(ts).unwrap();
            &&& prev matches Some(p) ==> !is_ident_reserved(p)
            &&& ts == print_prev(prev) + r
        }),
{
    let (prev, r) = parse_prev(ts).unwrap();
    if prev is Some {
        assert(ts =~= seq![ts[0], ts[1], ts[2], ts[3]] + ts.skip(4));
    } else {
        assert(ts =~= print_prev(prev) + r);
    }
}

proof fn lemma_parse_macro_root_sound(ts: Seq<TokenModel>)
    requires
        parse_macro_root(ts) is Some,
    ensures
        ({
            let (m, r) = parse_macro_root(ts).unwrap();
            &&& m matches Some(p) ==> p.wf()
            &&& ts == print_macro_root(m) + r
        }),
{
    let (m, r) = parse_macro_root(ts).unwrap();
    if m is Some {
        lemma_parse_path_sound(ts);
        let (p, r1) = parse_path(ts).unwrap();
        assert(r1 =~= seq![TokenModel::Punct(';')] + r1.skip(1));
        assert(ts =~= print_macro_root(m) + r);
    } else {
        assert(ts =~= seq![TokenModel::Punct(';')] + ts.skip(1));
    }
}

/// Every index declaration that `parse_index` accepts is well formed and
/// prints back to the tokens it was read from.
#[verifier::spinoff_prover]
#[verifier::rlimit(80)]
pub proof fn lemma_parse_index_sound(ts: Seq<TokenModel>)
    requires
        parse_index(ts) is Some,
    ensures
        parse_index(ts).unwrap().wf(),
        print_index(parse_index(ts).unwrap()) == ts,
{
    lemma_parse_attrs_sound(ts);
    let (attrs, r1) = parse_attrs(ts).unwrap();
    lemma_parse_vis_sound(r1);
    let (vis, r2) = parse_vis(r1).unwrap();
    let r2t = r2.skip(3);
    lemma_parse_prev_sound(r2t);
    let (prev, r3) = parse_prev(r2t).unwrap();
    lemma_parse_path_sound(r3);
    let (root, r4) = parse_path(r3).unwrap();
    let r4t = r4.skip(1);
    lemma_parse_macro_root_sound(r4t);
    let (macro_root, r5) = parse_macro_root(r4t).unwrap();
    lemma_parse_blocks_sound(r5);
    let d = parse_index(ts).unwrap();
    assert(r2 =~= seq![r2[0], r2[1], r2[2]] + r2t);
    assert(r4 =~= seq![TokenModel::Punct(';')] + r4t);
    assert(r3 == print_paths_and_blocks(d)) by {
        assert(r3 =~= print_path(root) + (seq![TokenModel::Punct(';')] + (print_macro_root(
            macro_root,
        ) + print_blocks(d.blocks))));
        assert(print_paths_and_blocks(d) =~= print_path(root) + (seq![TokenModel::Punct(';')] + (
        print_macro_root(macro_root) + print_blocks(d.blocks))));
    }
    assert(ts =~= print_index(d)) by {
        assert(ts =~= print_attrs(attrs) + (print_vis(vis) + (seq![r2[0], r2[1], r2[2]] + (
        print_prev(prev) + r3))));
        assert(print_index(d) =~= print_attrs(attrs) + (print_vis(vis) + (seq![r2[0], r2[1], r2[2]]
            + (print_prev(prev) + r3))));
    }
}

proof fn lemma_use_is_reserved()
    ensures
        is_ident_reserved("use"@),
{
    assert(IDENT_RESERVED@[43] == "use");
}

/// Every well-formed index declaration is read back from its tokens.
#[verifier::rlimit(100)]
#[verifier::spinoff_prover]
pub proof fn lemma_parse_index_complete(d: RegIndexModel)
    requires
        d.wf(),
    ensures
        parse_index(print_index(d)) == Some(d),
{
    lemma_distinct_words();
    lemma_use_is_reserved();
    let prev_toks = print_prev(d.prev_macro);
    let tail = print_paths_and_blocks(d);
    let after_vis = seq![word("macro"), TokenModel::Ident(d.next_macro), TokenModel::Punct(';')]
        + prev_toks + tail;
    let after_attrs = print_vis(d.next_macro_vis) + after_vis;
    let ts = print_index(d);
    assert(ts =~= print_attrs(d.next_macro_attrs) + after_attrs);
    lemma_parse_vis_complete(d.next_macro_vis, after_vis);
    lemma_parse_attrs_complete(d.next_macro_attrs, after_attrs);
    assert(after_vis.skip(3) =~= prev_toks + tail);
    let macro_root_toks = print_macro_root(d.macro_root_path);
    let after_root = seq![TokenModel::Punct(';')] + macro_root_toks + print_blocks(d.blocks);
    assert(tail =~= print_path(d.root_path) + after_root);
    lemma_parse_path_complete(d.root_path, after_root);
    assert(parse_prev(prev_toks + tail) == Some((d.prev_macro, tail))) by {
        let first = print_path(d.root_path)[0];
        assert(tail[0] == first);
        if !d.root_path.leading_colon {
            assert(is_path_word(d.root_path.segments[0]));
        }
        if d.prev_macro is Some {
            assert((prev_toks + tail).skip(4) =~= tail);
        } else {
            assert(prev_toks + tail =~= tail);
        }
    }
    assert(after_root.skip(1) =~= macro_root_toks + print_blocks(d.blocks));
    assert(parse_macro_root(macro_root_toks + print_blocks(d.blocks)) == Some(
        (d.macro_root_path, print_blocks(d.blocks)),
    )) by {
        let rest = macro_root_toks + print_blocks(d.blocks);
        match d.macro_root_path {
            Some(p) => {
                let after_p = seq![TokenModel::Punct(';')] + print_blocks(d.blocks);
                assert(rest =~= print_path(p) + after_p);
                lemma_parse_path_complete(p, after_p);
                if !p.leading_colon {
                    assert(rest[0] == TokenModel::Ident(p.segments[0]));
                }
                assert(after_p.skip(1) =~= print_blocks(d.blocks));
            },
            None => {
                assert(rest.skip(1) =~= print_blocks(d.blocks));
            },
        }
    }
    lemma_parse_blocks_complete(d.blocks);
}

/// A register of a block, as declared.
pub struct RegEntry {
    pub attrs: Vec<Attribute>,
    pub ident: String,
}

impl View for RegEntry {
    type V = RegEntryModel;

    open spec fn view(&self) -> RegEntryModel {
        RegEntryModel { attrs: attrs_model(self.attrs@), ident: self.ident@ }
    }
}

/// A block of registers, as declared.
pub struct Block {
    pub attrs: Vec<Attribute>,
    pub vis: Visibility,
    pub ident: String,
    pub regs: Vec<RegEntry>,
}

impl View for Block {
    type V = BlockModel;

    open spec fn view(&self) -> BlockModel {
        BlockModel {
            attrs: attrs_model(self.attrs@),
            vis: self.vis@,
            ident: self.ident@,
            regs: self.regs@.map_values(|r: RegEntry| r@),
        }
    }
}

/// A register index, as declared.
pub struct RegIndex {
    pub next_macro_attrs: Vec<Attribute>,
    pub next_macro_vis: Visibility,
    pub next_macro: String,
    pub prev_macro: Option<String>,
    pub root_path: Path,
    pub macro_root_path: Option<Path>,
    pub blocks: Vec<Block>,
}

impl View for RegIndex {
    type V = RegIndexModel;

    open spec fn view(&self) -> RegIndexModel {
        RegIndexModel {
            next_macro_attrs: attrs_model(self.next_macro_attrs@),
            next_macro_vis: self.next_macro_vis@,
            next_macro: self.next_macro@,
            prev_macro: match self.prev_macro {
                Some(p) => Some(p@),
                None => None,
            },
            root_path: self.root_path@,
            macro_root_path: match self.macro_root_path {
                Some(p) => Some(p@),
                None => None,
            },
            blocks: self.blocks@.map_values(|b: Block| b@),
        }
    }
}

fn entry_at(ts: &Vec<Token>, pos: usize) -> (r: Option<(RegEntry, usize)>)
    requires
        pos <= ts.len(),
    ensures
        match r {
            Some((e, p)) => pos <= p <= ts.len() && parse_entry(rest(ts@, pos as int)) == Some(
                (e@, rest(ts@, p as int)),
            ),
            None => parse_entry(rest(ts@, pos as int)) is None,
        },
{
    let (attrs, p) = match parse_attrs_at(ts, pos) {
        Some(x) => x,
        None => {
            return None;
        },
    };
    proof {
        lemma_rest(ts@, p as int);
    }
    if ts.len() - p < 2 {
        return None;
    }
    let ident = match name_of(&ts[p]) {
        Some(w) => w,
        None => {
            return None;
        },
    };
    if !is_punct(&ts[p + 1], ';') {
        return None;
    }
    Some((RegEntry { attrs, ident }, p + 2))
}

fn entries_at(ts: &Vec<Token>, pos: usize) -> (r: Option<Vec<RegEntry>>)
    requires
        pos <= ts.len(),
    ensures
        match r {
            Some(es) => parse_entries(rest(ts@, pos as int)) == Some(
                es@.map_values(|e: RegEntry| e@),
            ),
            None => parse_entries(rest(ts@, pos as int)) is None,
        },
    decreases ts.len() - pos,
{
    proof {
        lemma_rest(ts@, pos as int);
    }
    if pos == ts.len() {
        let v: Vec<RegEntry> = Vec::new();
        proof {
            assert(v@.map_values(|e: RegEntry| e@) =~= Seq::empty());
        }
        return Some(v);
    }
    match entry_at(ts, pos) {
        None => None,
        Some((e, p)) => {
            proof {
                lemma_parse_entry_shrinks(rest(ts@, pos as int));
                lemma_rest(ts@, p as int);
            }
            match entries_at(ts, p) {
                None => None,
                Some(es) => {
                    let mut all = es;
                    let ghost tail = all@;
                    all.insert(0, e);
                    proof {
                        assert(all@.map_values(|e: RegEntry| e@) =~= seq![e@] + tail.map_values(
                            |e: RegEntry| e@,
                        ));
                    }
                    Some(all)
                },
            }
        },
    }
}

fn block_at(ts: &Vec<Token>, pos: usize) -> (r: Option<(Block, usize)>)
    requires
        pos <= ts.len(),
    ensures
        match r {
            Some((b, p)) => pos <= p <= ts.len() && parse_block(rest(ts@, pos as int)) == Some(
                (b@, rest(ts@, p as int)),
            ),
            None => parse_block(rest(ts@, pos as int)) is None,
        },
{
    let (attrs, p1) = match parse_attrs_at(ts, pos) {
        Some(x) => x,
        None => {
            return None;
        },
    };
    let (vis, p2) = match parse_vis_at(ts, p1) {
        Some(x) => x,
        None => {
            return None;
        },
    };
    proof {
        lemma_rest(ts@, p2 as int);
    }
    if ts.len() - p2 < 3 || !is_word(&ts[p2], "mod") {
        return None;
    }
    let ident = match name_of(&ts[p2 + 1]) {
        Some(w) => w,
        None => {
            return None;
        },
    };
    match &ts[p2 + 2] {
        Token::Group(Delimiter::Brace, c) => {
            proof {
                lemma_rest(c@, 0);
                assert(rest(c@, 0) =~= models(c@));
            }
            match entries_at(c, 0) {
                Some(regs) => Some((Block { attrs, vis, ident, regs }, p2 + 3)),
                None => None,
            }
        },
        _ => None,
    }
}

fn blocks_at(ts: &Vec<Token>, pos: usize) -> (r: Option<Vec<Block>>)
    requires
        pos <= ts.len(),
    ensures
        match r {
            Some(bs) => parse_blocks(rest(ts@, pos as int)) == Some(bs@.map_values(|b: Block| b@)),
            None => parse_blocks(rest(ts@, pos as int)) is None,
        },
    decreases ts.len() - pos,
{
    proof {
        lemma_rest(ts@, pos as int);
    }
    if pos == ts.len() {
        let v: Vec<Block> = Vec::new();
        proof {
            assert(v@.map_values(|b: Block| b@) =~= Seq::empty());
        }
        return Some(v);
    }
    match block_at(ts, pos) {
        None => None,
        Some((b, p)) => {
            proof {
                lemma_parse_block_shrinks(rest(ts@, pos as int));
                lemma_rest(ts@, p as int);
            }
            match blocks_at(ts, p) {
                None => None,
                Some(bs) => {
                    let mut all = bs;
                    let ghost tail = all@;
                    all.insert(0, b);
                    proof {
                        assert(all@.map_values(|b: Block| b@) =~= seq![b@] + tail.map_values(
                            |b: Block| b@,
                        ));
                    }
                    Some(all)
                },
            }
        },
    }
}

#[verifier::rlimit(50)]
fn parse_at(ts: &Vec<Token>) -> (r: Result<RegIndex, ParseError>)
    requires
        rest(ts@, 0) == models(ts@),
    ensures
        match r {
            Ok(d) => parse_index(models(ts@)) == Some(d@),
            Err(_) => parse_index(models(ts@)) is None,
        },
{
    let (attrs, p1) = match parse_attrs_at(ts, 0) {
        Some(x) => x,
        None => {
            return Err(ParseError);
        },
    };
    let (vis, p2) = match parse_vis_at(ts, p1) {
        Some(x) => x,
        None => {
            return Err(ParseError);
        },
    };
    proof {
        lemma_rest(ts@, p2 as int);
    }
    if ts.len() - p2 < 3 || !is_word(&ts[p2], "macro") {
        return Err(ParseError);
    }
    let next_macro = match name_of(&ts[p2 + 1]) {
        Some(w) => w,
        None => {
            return Err(ParseError);
        },
    };
    if !is_punct(&ts[p2 + 2], ';') {
        return Err(ParseError);
    }
    let mut p3: usize = p2 + 3;
    proof {
        lemma_rest(ts@, p3 as int);
    }
    let mut prev_macro: Option<String> = None;
    if p3 < ts.len() && is_word(&ts[p3], "use") {
        if ts.len() - p3 < 4 || !is_word(&ts[p3 + 1], "macro") || !is_punct(&ts[p3 + 3], ';') {
            return Err(ParseError);
        }
        match name_of(&ts[p3 + 2]) {
            Some(w) => {
                prev_macro = Some(w);
            },
            None => {
                return Err(ParseError);
            },
        }
        p3 = p3 + 4;
    }
    let (root_path, p4) = match parse_path_at(ts, p3) {
        Some(x) => x,
        None => {
            return Err(ParseError);
        },
    };
    proof {
        lemma_rest(ts@, p4 as int);
    }
    if p4 == ts.len() || !is_punct(&ts[p4], ';') {
        return Err(ParseError);
    }
    let p5: usize = p4 + 1;
    proof {
        lemma_rest(ts@, p5 as int);
    }
    let (macro_root_path, p6) = if p5 < ts.len() && is_punct(&ts[p5], ';') {
        (None, p5 + 1)
    } else {
        match parse_path_at(ts, p5) {
            Some((path, q)) => {
                proof {
                    lemma_rest(ts@, q as int);
                }
                if q < ts.len() && is_punct(&ts[q], ';') {
                    (Some(path), q + 1)
                } else {
                    return Err(ParseError);
                }
            },
            None => {
                return Err(ParseError);
            },
        }
    };
    match blocks_at(ts, p6) {
        Some(blocks) => Ok(
            RegIndex {
                next_macro_attrs: attrs,
                next_macro_vis: vis,
                next_macro,
                prev_macro,
                root_path,
                macro_root_path,
                blocks,
            },
        ),
        None => Err(ParseError),
    }
}

/// Reads a register index declaration.
///
/// The declaration is returned exactly when the tokens are the printing of a
/// well-formed declaration, and it is that declaration.
pub fn parse(ts: &Vec<Token>) -> (r: Result<RegIndex, ParseError>)
    ensures
        match r {
            Ok(d) => d@.wf() && print_index(d@) == models(ts@),
            Err(_) => forall|d: RegIndexModel| d.wf() ==> print_index(d) != models(ts@),
        },
        r is Ok <==> parse_index(models(ts@)) is Some,
        r matches Ok(d) ==> parse_index(models(ts@)) == Some(d@),
{
    proof {
        lemma_rest(ts@, 0);
        assert(rest(ts@, 0) =~= models(ts@));
    }
    let ghost input = models(ts@);
    let r = parse_at(ts);
    proof {
        if r is Ok {
            lemma_parse_index_sound(input);
        } else {
            assert forall|d: RegIndexModel| d.wf() implies print_index(d) != input by {
                if print_index(d) == input {
                    lemma_parse_index_complete(d);
                }
            }
        }
    }
    r
}

} // verus!
