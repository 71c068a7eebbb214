//! The register index macro: from a register index declaration to the plan
//! of the items it expands to.
//!
//! The expansion holds, for each block, a module that re-exports the block's
//! registers under short names, and a macro that declares a struct with one
//! member per register of every block, chained to the previous index macro
//! where there is one.

use vstd::prelude::*;
use crate::keyword::{is_keyword, lemma_unkeywordized_is_not_keyword, unkeywordize, unkeywordized};
use crate::names::{joined, pascal_case, snake_case, to_pascal_case, to_snake_case};
use crate::reg_index_syntax::{
    lemma_parse_index_complete, parse, parse_index, print_index, BlockModel, RegEntryModel, RegIndex,
    RegIndexModel,
};
use crate::syntax::{
    attrs_model, clone_attrs, clone_vis, Attribute, ParseError, Path, PathModel, Visibility,
    VisModel,
};
use crate::reg::reg_plan;
use crate::reg_syntax::RegModel;
use crate::token::{models, Token, TokenModel};

verus! {

/// The re-exports of one register in its block's module: the register's
/// module as `short`, and its type as `ty`.
#[verifier::ext_equal]
pub struct RegUseModel {
    pub long: Seq<char>,
    pub short: Seq<char>,
    pub ty: Seq<char>,
}

/// The module generated for one block.
#[verifier::ext_equal]
pub struct BlockPlanModel {
    pub attrs: Seq<Seq<TokenModel>>,
    pub vis: VisModel,
    pub module: Seq<char>,
    pub uses: Seq<RegUseModel>,
}

/// One member of the struct that the generated macro declares: the register
/// type `ty` of the block module `module`, as member `field`.
#[verifier::ext_equal]
pub struct MemberModel {
    pub attrs: Seq<Seq<TokenModel>>,
    pub field: Seq<char>,
    pub module: Seq<char>,
    pub ty: Seq<char>,
}

/// The items generated for a register index.
#[verifier::ext_equal]
pub struct IndexPlanModel {
    pub macro_attrs: Seq<Seq<TokenModel>>,
    /// The name of the generated macro.
    pub macro_name: Seq<char>,
    /// Whether the generated macro is exported from the crate.
    pub exported: bool,
    /// The macro that the generated macro hands its members on to.
    pub prev_macro: Option<Seq<char>>,
    pub root_path: PathModel,
    pub macro_root_path: Option<PathModel>,
    pub blocks: Seq<BlockPlanModel>,
    pub members: Seq<MemberModel>,
}

/// The name of a block's module: its snake-case name, made usable as a name.
pub open spec fn block_module(b: BlockModel) -> Seq<char> {
    unkeywordized(snake_case(b.ident))
}

/// The full name of a register: block and register in snake case, joined by
/// an underscore.
pub open spec fn long_name(b: BlockModel, r: RegEntryModel) -> Seq<char> {
    snake_case(b.ident) + "_"@ + snake_case(r.ident)
}

pub open spec fn reg_use(b: BlockModel, r: RegEntryModel) -> RegUseModel {
    RegUseModel {
        long: long_name(b, r),
        short: unkeywordized(snake_case(r.ident)),
        ty: pascal_case(r.ident),
    }
}

pub open spec fn block_plan(b: BlockModel) -> BlockPlanModel {
    BlockPlanModel {
        attrs: b.attrs,
        vis: b.vis,
        module: block_module(b),
        uses: b.regs.map_values(|r: RegEntryModel| reg_use(b, r)),
    }
}

pub open spec fn member(b: BlockModel, r: RegEntryModel) -> MemberModel {
    MemberModel {
        attrs: r.attrs,
        field: long_name(b, r),
        module: block_module(b),
        ty: pascal_case(r.ident),
    }
}

/// The members for the registers of `bs`, block after block.
pub open spec fn members(bs: Seq<BlockModel>) -> Seq<MemberModel>
    decreases bs.len(),
{
    if bs.len() == 0 {
        Seq::empty()
    } else {
        members(bs.drop_last()) + bs.last().regs.map_values(|r: RegEntryModel| member(bs.last(), r))
    }
}

/// The items generated for a register index.
pub open spec fn index_plan(d: RegIndexModel) -> IndexPlanModel {
    IndexPlanModel {
        macro_attrs: d.next_macro_attrs,
        macro_name: d.next_macro,
        exported: d.next_macro_vis == VisModel::Public,
        prev_macro: d.prev_macro,
        root_path: d.root_path,
        macro_root_path: d.macro_root_path,
        blocks: d.blocks.map_values(|b: BlockModel| block_plan(b)),
        members: members(d.blocks),
    }
}

/// The re-exports of one register.
pub struct RegUse {
    pub long: String,
    pub short: String,
    pub ty: String,
}

impl View for RegUse {
    type V = RegUseModel;

    open spec fn view(&self) -> RegUseModel {
        RegUseModel { long: self.long@, short: self.short@, ty: self.ty@ }
    }
}

/// The module generated for one block.
pub struct BlockPlan {
    pub attrs: Vec<Attribute>,
    pub vis: Visibility,
    pub module: String,
    pub uses: Vec<RegUse>,
}

impl View for BlockPlan {
    type V = BlockPlanModel;

    open spec fn view(&self) -> BlockPlanModel {
        BlockPlanModel {
            attrs: attrs_model(self.attrs@),
            vis: self.vis@,
            module: self.module@,
            uses: self.uses@.map_values(|u: RegUse| u@),
        }
    }
}

/// One member of the struct that the generated macro declares.
pub struct Member {
    pub attrs: Vec<Attribute>,
    pub field: String,
    pub module: String,
    pub ty: String,
}

impl View for Member {
    type V = MemberModel;

    open spec fn view(&self) -> MemberModel {
        MemberModel {
            attrs: attrs_model(self.attrs@),
            field: self.field@,
            module: self.module@,
            ty: self.ty@,
        }
    }
}

/// The items generated for a register index.
pub struct IndexPlan {
    pub macro_attrs: Vec<Attribute>,
    pub macro_name: String,
    pub exported: bool,
    pub prev_macro: Option<String>,
    pub root_path: Path,
    pub macro_root_path: Option<Path>,
    pub blocks: Vec<BlockPlan>,
    pub members: Vec<Member>,
}

impl View for IndexPlan {
    type V = IndexPlanModel;

    open spec fn view(&self) -> IndexPlanModel {
        IndexPlanModel {
            macro_attrs: attrs_model(self.macro_attrs@),
            macro_name: self.macro_name@,
            exported: self.exported,
            prev_macro: match self.prev_macro {
                Some(p) => Some(p@),
                None => None,
            },
            root_path: self.root_path@,
            macro_root_path: match self.macro_root_path {
                Some(p) => Some(p@),
                None => None,
            },
            blocks: self.blocks@.map_values(|b: BlockPlan| b@),
            members: self.members@.map_values(|m: Member| m@),
        }
    }
}

fn clone_path(p: &Path) -> (r: Path)
    ensures
        r@ == p@,
{
    let mut segs: Vec<String> = Vec::new();
    let mut i: usize = 0;
    while i < p.segments.len()
        invariant
            i <= p.segments.len(),
            segs@.len() == i,
            forall|j: int| 0 <= j < i ==> (#[trigger] segs@[j])@ == p.segments@[j]@,
        decreases p.segments.len() - i,
    {
        segs.push(p.segments[i].clone());
        i = i + 1;
    }
    let r = Path { leading_colon: p.leading_colon, segments: segs };
    proof {
        assert(r@.segments =~= p@.segments);
    }
    r
}

/// The plan of the items that a well-formed register index expands to.
pub fn plan(d: &RegIndex) -> (r: IndexPlan)
    ensures
        r@ == index_plan(d@),
{
    let mut blocks: Vec<BlockPlan> = Vec::new();
    let mut all_members: Vec<Member> = Vec::new();
    let mut i: usize = 0;
    while i < d.blocks.len()
        invariant
            i <= d.blocks.len(),
            blocks@.len() == i,
            forall|j: int| 0 <= j < i ==> (#[trigger] blocks@[j])@ == block_plan(d.blocks@[j]@),
            all_members@.map_values(|m: Member| m@) == members(
                d@.blocks.take(i as int),
            ),
        decreases d.blocks.len() - i,
    {
        let b = &d.blocks[i];
        let ghost bm = b@;
        let block_snk = to_snake_case(b.ident.as_str());
        let module = unkeywordize(block_snk.as_str());
        let mut uses: Vec<RegUse> = Vec::new();
        let ghost before = all_members@.map_values(|m: Member| m@);
        let mut k: usize = 0;
        while k < b.regs.len()
            invariant
                bm == b@,
                block_snk@ == snake_case(bm.ident),
                module@ == block_module(bm),
                k <= b.regs.len(),
                uses@.len() == k,
                forall|j: int| 0 <= j < k ==> (#[trigger] uses@[j])@ == reg_use(bm, bm.regs[j]),
                all_members@.map_values(|m: Member| m@) == before + bm.regs.take(k as int).map_values(
                    |r: RegEntryModel| member(bm, r),
                ),
            decreases b.regs.len() - k,
        {
            let r = &b.regs[k];
            assert(bm.regs[k as int] == r@);
            let reg_snk = to_snake_case(r.ident.as_str());
            let long = joined(block_snk.as_str(), "_", reg_snk.as_str());
            let short = unkeywordize(reg_snk.as_str());
            let ty = to_pascal_case(r.ident.as_str());
            let ghost prev = all_members@.map_values(|m: Member| m@);
            all_members.push(
                Member {
                    attrs: clone_attrs(&r.attrs),
                    field: long.clone(),
                    module: module.clone(),
                    ty: ty.clone(),
                },
            );
            uses.push(RegUse { long, short, ty });
            proof {
                assert(all_members@.map_values(|m: Member| m@) =~= prev.push(member(bm, r@)));
                assert(bm.regs.take(k + 1).map_values(|r: RegEntryModel| member(bm, r))
                    =~= bm.regs.take(k as int).map_values(|r: RegEntryModel| member(bm, r)).push(
                    member(bm, r@),
                ));
            }
            k = k + 1;
        }
        blocks.push(
            BlockPlan { attrs: clone_attrs(&b.attrs), vis: clone_vis(&b.vis), module, uses },
        );
        proof {
            assert(bm.regs.take(bm.regs.len() as int) =~= bm.regs);
            let bs = d@.blocks.take(i + 1);
            assert(bs.drop_last() =~= d@.blocks.take(i as int));
            assert(bs.last() == bm);
            assert(blocks@[i as int]@.uses =~= bm.regs.map_values(|r: RegEntryModel| reg_use(bm, r)));
        }
        i = i + 1;
    }
    let prev_macro = match &d.prev_macro {
        Some(p) => Some(p.clone()),
        None => None,
    };
    let macro_root_path = match &d.macro_root_path {
        Some(p) => Some(clone_path(p)),
        None => None,
    };
    let exported = match d.next_macro_vis {
        Visibility::Public => true,
        _ => false,
    };
    let r = IndexPlan {
        macro_attrs: clone_attrs(&d.next_macro_attrs),
        macro_name: d.next_macro.clone(),
        exported,
        prev_macro,
        root_path: clone_path(&d.root_path),
        macro_root_path,
        blocks,
        members: all_members,
    };
    proof {
        assert(d@.blocks.take(d.blocks.len() as int) =~= d@.blocks);
        assert(r@.blocks =~= d@.blocks.map_values(|b: BlockModel| block_plan(b)));
        assert(r@ =~= index_plan(d@));
    }
    r
}

/// The register index macro: reads a register index declaration and returns
/// the plan of the items it expands to.
///
/// It succeeds exactly when the tokens are the printing of a well-formed
/// declaration, and the plan is that of the declaration.
pub fn proc_macro(ts: &Vec<Token>) -> (r: Result<IndexPlan, ParseError>)
    ensures
        r is Ok <==> parse_index(models(ts@)) is Some,
        r matches Ok(p) ==> p@ == index_plan(parse_index(models(ts@)).unwrap()),
        r matches Ok(p) ==> exists|d: RegIndexModel|
            d.wf() && print_index(d) == models(ts@) && p@ == index_plan(d),
        r is Err ==> forall|d: RegIndexModel| d.wf() ==> print_index(d) != models(ts@),
{
    match parse(ts) {
        Ok(d) => Ok(plan(&d)),
        Err(e) => Err(e),
    }
}

/// The module of each block, and the short name of each register in it, are
/// never keywords.
pub proof fn lemma_names_are_not_keywords(d: RegIndexModel)
    ensures
        forall|i: int| 0 <= i < d.blocks.len() ==> !is_keyword(#[trigger] index_plan(d).blocks[i].module),
        forall|i: int, j: int|
            0 <= i < d.blocks.len() && 0 <= j < d.blocks[i].regs.len() ==> !is_keyword(
                #[trigger] index_plan(d).blocks[i].uses[j].short,
            ),
{
    assert forall|i: int| 0 <= i < d.blocks.len() implies !is_keyword(#[trigger] index_plan(d).blocks[i].module) by {
        lemma_unkeywordized_is_not_keyword(snake_case(d.blocks[i].ident));
    }
    assert forall|i: int, j: int|
        0 <= i < d.blocks.len() && 0 <= j < d.blocks[i].regs.len() implies !is_keyword(
            #[trigger] index_plan(d).blocks[i].uses[j].short,
        ) by {
        lemma_unkeywordized_is_not_keyword(snake_case(d.blocks[i].regs[j].ident));
    }
}

/// Two well-formed index declarations that print to the same tokens are the
/// same declaration, so the plan of a declaration is determined by its tokens.
pub proof fn lemma_print_index_injective(d1: RegIndexModel, d2: RegIndexModel)
    requires
        d1.wf(),
        d2.wf(),
        print_index(d1) == print_index(d2),
    ensures
        d1 == d2,
        index_plan(d1) == index_plan(d2),
{
    lemma_parse_index_complete(d1);
    lemma_parse_index_complete(d2);
}

/// The struct that the generated macro declares has one member per register,
/// block after block, register after register.
pub proof fn lemma_members(bs: Seq<BlockModel>)
    ensures
        members(bs).len() == total_regs(bs),
    decreases bs.len(),
{
    if bs.len() > 0 {
        lemma_members(bs.drop_last());
    }
}

/// The number of registers over all of `bs`.
pub open spec fn total_regs(bs: Seq<BlockModel>) -> nat
    decreases bs.len(),
{
    if bs.len() == 0 {
        0
    } else {
        total_regs(bs.drop_last()) + bs.last().regs.len()
    }
}

/// The index finds the registers: for a register declared in the block and
/// under the name of an entry of the index, the module that the index
/// re-exports is the module that the register macro generates, and the index
/// re-exports its register type under the name of the entry in Pascal case.
pub proof fn lemma_index_finds_register_module(d: RegModel, b: BlockModel, r: RegEntryModel)
    requires
        d.block == b.ident,
        d.ident == r.ident,
    ensures
        reg_use(b, r).long == reg_plan(d).module,
        member(b, r).field == reg_plan(d).module,
        reg_use(b, r).ty == pascal_case(d.ident),
{
}

/// The registers of the blocks before a block never outnumber those of all
/// the blocks, and a block adds its own registers to the count.
proof fn lemma_total_regs_take(bs: Seq<BlockModel>, i: int)
    requires
        0 <= i < bs.len(),
    ensures
        total_regs(bs.take(i + 1)) == total_regs(bs.take(i)) + bs[i].regs.len(),
        total_regs(bs.take(i + 1)) <= total_regs(bs),
    decreases bs.len(),
{
    assert(bs.take(i + 1).drop_last() =~= bs.take(i));
    if i + 1 == bs.len() {
        assert(bs.take(i + 1) =~= bs);
    } else {
        let b0 = bs.drop_last();
        lemma_total_regs_take(b0, i);
        assert(b0.take(i + 1) =~= bs.take(i + 1));
        assert(b0.take(i) =~= bs.take(i));
    }
}

/// Where the member of register `j` of block `i` stands among the members.
proof fn lemma_member_at(bs: Seq<BlockModel>, i: int, j: int)
    requires
        0 <= i < bs.len(),
        0 <= j < bs[i].regs.len(),
    ensures
        members(bs).len() == total_regs(bs),
        total_regs(bs.take(i)) + j < total_regs(bs),
        members(bs)[total_regs(bs.take(i)) + j] == member(bs[i], bs[i].regs[j]),
    decreases bs.len(),
{
    lemma_members(bs);
    lemma_total_regs_take(bs, i);
    let b0 = bs.drop_last();
    lemma_members(b0);
    if i + 1 == bs.len() {
        assert(bs.take(i) =~= b0);
    } else {
        lemma_member_at(b0, i, j);
        assert(b0.take(i) =~= bs.take(i));
        assert(b0[i] == bs[i]);
    }
}

/// The struct member planned for register `j` of block `i` carries exactly
/// the attributes written on that register's entry, is named after the block
/// and the register in snake case joined by an underscore, and is typed by the
/// register's Pascal-case name in the block's module. The members come block
/// after block, register after register.
pub proof fn lemma_member_of_entry(d: RegIndexModel, i: int, j: int)
    requires
        0 <= i < d.blocks.len(),
        0 <= j < d.blocks[i].regs.len(),
    ensures
        ({
            let k = total_regs(d.blocks.take(i)) + j;
            let b = d.blocks[i];
            let r = b.regs[j];
            &&& 0 <= k < index_plan(d).members.len()
            &&& index_plan(d).members[k].attrs == r.attrs
            &&& index_plan(d).members[k].field == snake_case(b.ident) + "_"@ + snake_case(r.ident)
            &&& index_plan(d).members[k].module == unkeywordized(snake_case(b.ident))
            &&& index_plan(d).members[k].ty == pascal_case(r.ident)
        }),
{
    lemma_member_at(d.blocks, i, j);
}

} // verus!
