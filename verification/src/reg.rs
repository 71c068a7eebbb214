//! The register macro: from a register declaration to the plan of the items
//! that it expands to.
//!
//! For a declaration of register `REG` in block `BLOCK` the expansion is a
//! module `block_reg` that holds the register value type, the register type
//! with one member per field, one type per field, and accessors on the held
//! register value for the fields that can be read or written.

use vstd::prelude::*;
use crate::literal::{int_literal_value, literal_value};
use crate::keyword::{is_keyword, lemma_unkeywordized_is_not_keyword, unkeywordize, unkeywordized};
use crate::names::{
    contains_word, dedup, lemma_dedup, extend_dedup, joined, pascal_case, snake_case, strs, to_pascal_case,
    to_snake_case,
};
use crate::reg_syntax::{
    fields_model, lemma_parse_reg_complete, parse, parse_reg, print_reg, Field, FieldModel, Reg,
    RegModel,
};
use crate::syntax::{
    attrs_model, clone_attrs, clone_vis, Attribute, ParseError,
    Visibility, VisModel,
};
use crate::token::{models, Token, TokenModel};

verus! {

/// An accessor on the held register value, by its name.
pub enum AccessorModel {
    ReadBit(Seq<char>),
    SetBit(Seq<char>),
    ClearBit(Seq<char>),
    ToggleBit(Seq<char>),
    ReadBits(Seq<char>),
    WriteBits(Seq<char>),
}

/// An accessor on the held register value, by its name.
#[derive(Debug)]
pub enum Accessor {
    /// Reads a one-bit field as a `bool`.
    ReadBit(String),
    /// Sets a one-bit field.
    SetBit(String),
    /// Clears a one-bit field.
    ClearBit(String),
    /// Toggles a one-bit field.
    ToggleBit(String),
    /// Reads a wider field as a value of the register's value type.
    ReadBits(String),
    /// Writes a wider field.
    WriteBits(String),
}

impl View for Accessor {
    type V = AccessorModel;

    open spec fn view(&self) -> AccessorModel {
        match self {
            Accessor::ReadBit(s) => AccessorModel::ReadBit(s@),
            Accessor::SetBit(s) => AccessorModel::SetBit(s@),
            Accessor::ClearBit(s) => AccessorModel::ClearBit(s@),
            Accessor::ToggleBit(s) => AccessorModel::ToggleBit(s@),
            Accessor::ReadBits(s) => AccessorModel::ReadBits(s@),
            Accessor::WriteBits(s) => AccessorModel::WriteBits(s@),
        }
    }
}

/// The items generated for one field.
#[verifier::ext_equal]
pub struct FieldPlanModel {
    pub attrs: Seq<Seq<TokenModel>>,
    /// The field's member in the register type.
    pub member: Seq<char>,
    /// The field's type.
    pub ty: Seq<char>,
    pub offset: Seq<char>,
    pub width: Seq<char>,
    /// The traits that the field's type implements.
    pub traits: Seq<Seq<char>>,
    /// Whether the field is one bit wide.
    pub single_bit: bool,
    pub accessors: Seq<AccessorModel>,
}

/// The items generated for one register.
#[verifier::ext_equal]
pub struct RegPlanModel {
    /// The name of the generated module.
    pub module: Seq<char>,
    pub attrs: Seq<Seq<TokenModel>>,
    pub vis: VisModel,
    /// The traits that the module imports from its parent.
    pub imports: Seq<Seq<char>>,
    /// The width in bits of the register's value type.
    pub value_bits: u8,
    pub address: Seq<char>,
    pub reset: Seq<char>,
    /// The traits that the register type implements.
    pub traits: Seq<Seq<char>>,
    pub fields: Seq<FieldPlanModel>,
    /// Whether the register type holds a type marker in place of fields: it
    /// does where the register has no fields.
    pub marker: bool,
}

/// The items generated for one field.
pub struct FieldPlan {
    pub attrs: Vec<Attribute>,
    pub member: String,
    pub ty: String,
    pub offset: String,
    pub width: String,
    pub traits: Vec<String>,
    pub single_bit: bool,
    pub accessors: Vec<Accessor>,
}

impl View for FieldPlan {
    type V = FieldPlanModel;

    open spec fn view(&self) -> FieldPlanModel {
        FieldPlanModel {
            attrs: attrs_model(self.attrs@),
            member: self.member@,
            ty: self.ty@,
            offset: self.offset@,
            width: self.width@,
            traits: strs(self.traits@),
            single_bit: self.single_bit,
            accessors: self.accessors@.map_values(|a: Accessor| a@),
        }
    }
}

/// The items generated for one register.
pub struct RegPlan {
    pub module: String,
    pub attrs: Vec<Attribute>,
    pub vis: Visibility,
    pub imports: Vec<String>,
    pub value_bits: u8,
    pub address: String,
    pub reset: String,
    pub traits: Vec<String>,
    pub fields: Vec<FieldPlan>,
    pub marker: bool,
}

impl View for RegPlan {
    type V = RegPlanModel;

    open spec fn view(&self) -> RegPlanModel {
        RegPlanModel {
            module: self.module@,
            attrs: attrs_model(self.attrs@),
            vis: self.vis@,
            imports: strs(self.imports@),
            value_bits: self.value_bits,
            address: self.address@,
            reset: self.reset@,
            traits: strs(self.traits@),
            fields: self.fields@.map_values(|f: FieldPlan| f@),
            marker: self.marker,
        }
    }
}

/// The member of a field in the register type: its snake-case name, made
/// usable as a name.
pub open spec fn field_member(f: FieldModel) -> Seq<char> {
    unkeywordized(snake_case(f.ident))
}

/// The type of a field: its Pascal-case name, with an underscore after it where
/// it would be `Val`, the name of the register value type.
pub open spec fn field_ty(f: FieldModel) -> Seq<char> {
    let p = pascal_case(f.ident);
    if p == "Val"@ {
        p + "_"@
    } else {
        p
    }
}

/// Whether a field is one bit wide.
pub open spec fn is_single_bit(f: FieldModel) -> bool {
    int_literal_value(f.width) == Some(1u64)
}

/// The accessors of a field: a reader where the field has `RRRegField`, then
/// writers where it has `WWRegField`.
pub open spec fn field_accessors(f: FieldModel) -> Seq<AccessorModel> {
    let snk = snake_case(f.ident);
    let m = field_member(f);
    let read = if f.traits.contains("RRRegField"@) {
        seq![
            if is_single_bit(f) {
                AccessorModel::ReadBit(m)
            } else {
                AccessorModel::ReadBits(m)
            },
        ]
    } else {
        Seq::empty()
    };
    let write = if f.traits.contains("WWRegField"@) {
        if is_single_bit(f) {
            seq![
                AccessorModel::SetBit("set_"@ + snk),
                AccessorModel::ClearBit("clear_"@ + snk),
                AccessorModel::ToggleBit("toggle_"@ + snk),
            ]
        } else {
            seq![AccessorModel::WriteBits("write_"@ + snk)]
        }
    } else {
        Seq::empty()
    };
    read + write
}

/// The items generated for a field.
pub open spec fn field_plan(f: FieldModel) -> FieldPlanModel {
    FieldPlanModel {
        attrs: f.attrs,
        member: field_member(f),
        ty: field_ty(f),
        offset: f.offset,
        width: f.width,
        traits: f.traits,
        single_bit: is_single_bit(f),
        accessors: field_accessors(f),
    }
}

/// The traits of the fields, field after field.
pub open spec fn field_traits(fs: Seq<FieldModel>) -> Seq<Seq<char>>
    decreases fs.len(),
{
    if fs.len() == 0 {
        Seq::empty()
    } else {
        field_traits(fs.drop_last()) + fs.last().traits
    }
}

/// The items generated for a register.
pub open spec fn reg_plan(d: RegModel) -> RegPlanModel {
    RegPlanModel {
        module: snake_case(d.block) + "_"@ + snake_case(d.ident),
        attrs: d.attrs,
        vis: d.vis,
        imports: dedup(d.traits + field_traits(d.fields)),
        value_bits: (int_literal_value(d.size).unwrap() % 256) as u8,
        address: d.address,
        reset: d.reset,
        traits: d.traits,
        fields: d.fields.map_values(|f: FieldModel| field_plan(f)),
        marker: d.fields.len() == 0,
    }
}

fn clone_strings(v: &Vec<String>) -> (r: Vec<String>)
    ensures
        strs(r@) == strs(v@),
{
    let mut r: Vec<String> = Vec::new();
    let mut i: usize = 0;
    while i < v.len()
        invariant
            i <= v.len(),
            r@.len() == i,
            forall|j: int| 0 <= j < i ==> (#[trigger] r@[j])@ == v@[j]@,
        decreases v.len() - i,
    {
        r.push(v[i].clone());
        i = i + 1;
    }
    proof {
        assert(strs(r@) =~= strs(v@));
    }
    r
}

fn plan_field(f: &Field) -> (r: FieldPlan)
    requires
        f@.wf(),
    ensures
        r@ == field_plan(f@),
{
    let snk = to_snake_case(f.ident.as_str());
    let member = unkeywordize(snk.as_str());
    let psc = to_pascal_case(f.ident.as_str());
    let ty = if psc == "Val".to_owned() {
        joined(psc.as_str(), "_", "")
    } else {
        psc
    };
    proof {
        reveal_strlit("");
        assert(pascal_case(f@.ident) + "_"@ + ""@ =~= pascal_case(f@.ident) + "_"@);
    }
    let single_bit = match literal_value(f.width.as_str()) {
        Some(v) => v == 1,
        None => false,
    };
    let mut accessors: Vec<Accessor> = Vec::new();
    if contains_word(&f.traits, "RRRegField") {
        if single_bit {
            accessors.push(Accessor::ReadBit(member.clone()));
        } else {
            accessors.push(Accessor::ReadBits(member.clone()));
        }
    }
    if contains_word(&f.traits, "WWRegField") {
        if single_bit {
            accessors.push(Accessor::SetBit(joined("set_", snk.as_str(), "")));
            accessors.push(Accessor::ClearBit(joined("clear_", snk.as_str(), "")));
            accessors.push(Accessor::ToggleBit(joined("toggle_", snk.as_str(), "")));
        } else {
            accessors.push(Accessor::WriteBits(joined("write_", snk.as_str(), "")));
        }
    }
    let r = FieldPlan {
        attrs: clone_attrs(&f.attrs),
        member,
        ty,
        offset: f.offset.clone(),
        width: f.width.clone(),
        traits: clone_strings(&f.traits),
        single_bit,
        accessors,
    };
    proof {
        let snk_m = snake_case(f@.ident);
        assert("set_"@ + snk_m + ""@ =~= "set_"@ + snk_m);
        assert("clear_"@ + snk_m + ""@ =~= "clear_"@ + snk_m);
        assert("toggle_"@ + snk_m + ""@ =~= "toggle_"@ + snk_m);
        assert("write_"@ + snk_m + ""@ =~= "write_"@ + snk_m);
        assert(r@.accessors =~= field_accessors(f@));
        assert(r@ =~= field_plan(f@));
    }
    r
}

/// The plan of the items that a well-formed register declaration expands to.
pub fn plan(d: &Reg) -> (r: RegPlan)
    requires
        d@.wf(),
    ensures
        r@ == reg_plan(d@),
{
    let block_snk = to_snake_case(d.block.as_str());
    let ident_snk = to_snake_case(d.ident.as_str());
    let module = joined(block_snk.as_str(), "_", ident_snk.as_str());
    let mut imports: Vec<String> = Vec::new();
    proof {
        assert(strs(imports@) =~= dedup(Seq::empty()));
    }
    extend_dedup(&mut imports, &d.traits, Ghost(Seq::empty()));
    let ghost reg_traits = strs(d.traits@);
    assert(Seq::<Seq<char>>::empty() + reg_traits =~= reg_traits);
    let mut fields: Vec<FieldPlan> = Vec::new();
    let mut i: usize = 0;
    while i < d.fields.len()
        invariant
            d@.wf(),
            i <= d.fields.len(),
            reg_traits == strs(d.traits@),
            strs(imports@) == dedup(reg_traits + field_traits(fields_model(d.fields@).take(i as int))),
            fields@.len() == i,
            forall|j: int| 0 <= j < i ==> (#[trigger] fields@[j])@ == field_plan(d.fields@[j]@),
        decreases d.fields.len() - i,
    {
        let ghost fs = fields_model(d.fields@);
        assert(fs.take(i + 1).drop_last() =~= fs.take(i as int));
        assert(fs[i as int] == d.fields@[i as int]@);
        assert(d@.fields[i as int].wf());
        extend_dedup(&mut imports, &d.fields[i].traits, Ghost(reg_traits + field_traits(fs.take(i as int))));
        assert(reg_traits + field_traits(fs.take(i + 1)) =~= reg_traits + field_traits(fs.take(i as int)) + fs[i as int].traits);
        let fp = plan_field(&d.fields[i]);
        fields.push(fp);
        i = i + 1;
    }
    let bits: u8 = match literal_value(d.size.as_str()) {
        Some(v) => (v % 256) as u8,
        None => 0,
    };
    let r = RegPlan {
        module,
        attrs: clone_attrs(&d.attrs),
        vis: clone_vis(&d.vis),
        imports,
        value_bits: bits,
        address: d.address.clone(),
        reset: d.reset.clone(),
        traits: clone_strings(&d.traits),
        marker: d.fields.len() == 0,
        fields,
    };
    proof {
        let fs = fields_model(d.fields@);
        assert(fs.take(d.fields.len() as int) =~= fs);
        assert(r@.fields =~= d@.fields.map_values(|f: FieldModel| field_plan(f)));
        assert(r@ =~= reg_plan(d@));
    }
    r
}

/// The register macro: reads a register declaration and returns the plan of
/// the items it expands to.
///
/// It succeeds exactly when the tokens are the printing of a well-formed
/// declaration, and the plan is that of the declaration.
pub fn proc_macro(ts: &Vec<Token>) -> (r: Result<RegPlan, ParseError>)
    ensures
        r is Ok <==> parse_reg(models(ts@)) is Some,
        r matches Ok(p) ==> p@ == reg_plan(parse_reg(models(ts@)).unwrap()),
        r matches Ok(p) ==> exists|d: RegModel| d.wf() && print_reg(d) == models(ts@) && p@ == reg_plan(d),
        r is Err ==> forall|d: RegModel| d.wf() ==> print_reg(d) != models(ts@),
{
    match parse(ts) {
        Ok(d) => {
            let p = plan(&d);
            Ok(p)
        },
        Err(e) => Err(e),
    }
}

/// The module of a register imports each trait that the register or one of
/// its fields implements, and each of them once.
pub proof fn lemma_imports(d: RegModel)
    ensures
        reg_plan(d).imports.to_set() == (d.traits + field_traits(d.fields)).to_set(),
        reg_plan(d).imports.no_duplicates(),
{
    lemma_dedup(d.traits + field_traits(d.fields));
}

/// The member that the register type gets for a field is never a keyword.
pub proof fn lemma_members_are_not_keywords(d: RegModel)
    ensures
        forall|i: int| 0 <= i < d.fields.len() ==> !is_keyword(#[trigger] reg_plan(d).fields[i].member),
{
    assert forall|i: int| 0 <= i < d.fields.len() implies !is_keyword(#[trigger] reg_plan(d).fields[i].member) by {
        lemma_unkeywordized_is_not_keyword(snake_case(d.fields[i].ident));
    }
}

/// Two well-formed declarations that print to the same tokens are the same
/// declaration, so the plan of a declaration is determined by its tokens.
pub proof fn lemma_print_reg_injective(d1: RegModel, d2: RegModel)
    requires
        d1.wf(),
        d2.wf(),
        print_reg(d1) == print_reg(d2),
    ensures
        d1 == d2,
        reg_plan(d1) == reg_plan(d2),
{
    lemma_parse_reg_complete(d1);
    lemma_parse_reg_complete(d2);
}

/// The write accessors of a field depend on its width alone: a one-bit field
/// with `WWRegField` gets `set_`, `clear_` and `toggle_` methods in this
/// order, any other field with `WWRegField` a single `write_` method, and a
/// field without it none. Whether the field has `RRRegField` decides only the
/// reader in front of them: one reader, named after the member, that reads a
/// bit where the field is one bit wide.
pub proof fn lemma_field_accessors_by_width(d: RegModel, i: int)
    requires
        0 <= i < d.fields.len(),
    ensures
        ({
            let f = d.fields[i];
            let acc = reg_plan(d).fields[i].accessors;
            let snk = snake_case(f.ident);
            let one_bit = int_literal_value(f.width) == Some(1u64);
            let readers: int = if f.traits.contains("RRRegField"@) {
                1
            } else {
                0
            };
            &&& acc.len() >= readers
            &&& f.traits.contains("RRRegField"@) ==> acc[0] == (if one_bit {
                AccessorModel::ReadBit(unkeywordized(snk))
            } else {
                AccessorModel::ReadBits(unkeywordized(snk))
            })
            &&& acc.skip(readers) == (if !f.traits.contains("WWRegField"@) {
                Seq::<AccessorModel>::empty()
            } else if one_bit {
                seq![
                    AccessorModel::SetBit("set_"@ + snk),
                    AccessorModel::ClearBit("clear_"@ + snk),
                    AccessorModel::ToggleBit("toggle_"@ + snk),
                ]
            } else {
                seq![AccessorModel::WriteBits("write_"@ + snk)]
            })
        }),
{
    let f = d.fields[i];
    assert(reg_plan(d).fields[i] == field_plan(f));
    let acc = field_accessors(f);
    if f.traits.contains("RRRegField"@) {
        assert(acc.skip(1) =~= acc.subrange(1, acc.len() as int));
    } else {
        assert(acc.skip(0) =~= acc);
    }
    assert(acc.skip(if f.traits.contains("RRRegField"@) { 1int } else { 0int }) =~= (if !f.traits.contains("WWRegField"@) {
        Seq::<AccessorModel>::empty()
    } else if is_single_bit(f) {
        seq![
            AccessorModel::SetBit("set_"@ + snake_case(f.ident)),
            AccessorModel::ClearBit("clear_"@ + snake_case(f.ident)),
            AccessorModel::ToggleBit("toggle_"@ + snake_case(f.ident)),
        ]
    } else {
        seq![AccessorModel::WriteBits("write_"@ + snake_case(f.ident))]
    }));
}

} // verus!
