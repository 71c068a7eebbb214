//! The items that a register declaration expands to, written out as tokens
//! from its plan: a module that holds the register value type, the register
//! type, a type per field with its trait impls, and the accessors on the held
//! register value.

use vstd::prelude::*;
use crate::printing::{
    lemma_concat_map_at, lemma_occurs_at_trans, lemma_occurs_in_concat, lemma_occurs_within_at,
    lemma_occurs_within_concat, lemma_occurs_within_group, lemma_occurs_within_part, occurs_at,
    occurs_within,
    append_tokens, comma_joined, concat_map, group, lemma_comma_joined_push, lemma_concat_map_step, name, punct,
    push_attrs, push_group, push_name, push_path_sep, push_punct, push_sep_word, push_token,
    push_vis, push_word, sep_word,
};
use crate::reg::{
    field_plan, field_ty, lemma_field_accessors_by_width, reg_plan, Accessor, AccessorModel,
    FieldPlan, FieldPlanModel, RegPlan, RegPlanModel,
};
use crate::reg_syntax::RegModel;
use crate::keyword::unkeywordized;
use crate::names::snake_case;
use crate::literal::int_literal_value;
use crate::syntax::{path_sep, print_attrs, print_vis, word};
use crate::token::{lemma_models, models, Delimiter, Token, TokenModel};

verus! {

/// The decimal digit `d`.
pub open spec fn digit(d: int) -> char {
    if d == 0 {
        '0'
    } else if d == 1 {
        '1'
    } else if d == 2 {
        '2'
    } else if d == 3 {
        '3'
    } else if d == 4 {
        '4'
    } else if d == 5 {
        '5'
    } else if d == 6 {
        '6'
    } else if d == 7 {
        '7'
    } else if d == 8 {
        '8'
    } else {
        '9'
    }
}

/// The decimal numeral of `n`, without leading zeros.
pub open spec fn decimal(n: nat) -> Seq<char>
    decreases n,
{
    if n < 10 {
        seq![digit(n as int)]
    } else {
        decimal(n / 10).push(digit((n % 10) as int))
    }
}

/// The name of the register's value type: `u` and its width in bits.
pub open spec fn value_type(bits: u8) -> Seq<char> {
    seq!['u'] + decimal(bits as nat)
}

pub open spec fn t() -> TokenModel {
    word("_T")
}

/// `::drone_core::a::b`
pub open spec fn drone2(a: &str, b: &str) -> Seq<TokenModel> {
    sep_word("drone_core") + sep_word(a) + sep_word(b)
}

/// `::drone_core::a::b::c`
pub open spec fn drone3(a: &str, b: &str, c: &str) -> Seq<TokenModel> {
    drone2(a, b) + sep_word(c)
}

/// `<_T>`
pub open spec fn generic_t() -> Seq<TokenModel> {
    seq![punct('<'), t(), punct('>')]
}

/// `<_T: ::drone_core::reg::tag::RegTag>`
pub open spec fn bounded_t() -> Seq<TokenModel> {
    seq![punct('<'), t(), punct(':')] + drone3("reg", "tag", "RegTag") + seq![punct('>')]
}

/// `where _T: ::drone_core::reg::tag::RegTag,`
pub open spec fn where_t() -> Seq<TokenModel> {
    seq![word("where"), t(), punct(':')] + drone3("reg", "tag", "RegTag") + seq![punct(',')]
}

/// `'a`
pub open spec fn lifetime() -> Seq<TokenModel> {
    seq![punct('\''), word("a")]
}

/// `#[inline]`
pub open spec fn inline_attr() -> Seq<TokenModel> {
    seq![punct('#'), group(Delimiter::Bracket, seq![word("inline")])]
}

/// `#[derive(Clone, Copy)]`, with `Bitfield` first where `bitfield` holds.
pub open spec fn derive_attr(bitfield: bool) -> Seq<TokenModel> {
    seq![
        punct('#'),
        group(
            Delimiter::Bracket,
            seq![
                word("derive"),
                group(
                    Delimiter::Parenthesis,
                    (if bitfield {
                        seq![word("Bitfield"), punct(',')]
                    } else {
                        Seq::empty()
                    }) + seq![word("Clone"), punct(','), word("Copy")],
                ),
            ],
        ),
    ]
}

/// `() -> Self`
pub open spec fn returns_self() -> Seq<TokenModel> {
    seq![group(Delimiter::Parenthesis, Seq::empty()), punct('-'), punct('>'), word("Self")]
}

/// The struct of a field's type.
pub open spec fn field_struct(f: FieldPlanModel) -> Seq<TokenModel> {
    print_attrs(f.attrs) + derive_attr(false) + seq![word("pub"), word("struct"), name(f.ty)]
        + bounded_t() + seq![group(Delimiter::Parenthesis, seq![t()]), punct(';')]
}

/// The token impl of a field's type.
pub open spec fn field_token_impl(f: FieldPlanModel) -> Seq<TokenModel> {
    seq![word("unsafe"), word("impl")] + generic_t() + drone2("token", "Token") + seq![
        word("for"),
        name(f.ty),
    ] + generic_t() + where_t() + seq![
        group(
            Delimiter::Brace,
            inline_attr() + seq![word("unsafe"), word("fn"), word("take")] + returns_self() + seq![
                group(
                    Delimiter::Brace,
                    seq![
                        name(f.ty),
                        group(
                            Delimiter::Parenthesis,
                            seq![t()] + sep_word("default") + seq![
                                group(Delimiter::Parenthesis, Seq::empty()),
                            ],
                        ),
                    ],
                ),
            ],
        ),
    ]
}

/// `type n = ty<::drone_core::reg::tag::tag>;`
pub open spec fn tagged_type(n: &str, ty: TokenModel, tag: &str) -> Seq<TokenModel> {
    seq![word("type"), word(n), punct('='), ty, punct('<')] + drone3("reg", "tag", tag) + seq![
        punct('>'),
        punct(';'),
    ]
}

/// `const n: usize = lit;`
pub open spec fn const_usize(n: &str, lit: Seq<char>) -> Seq<TokenModel> {
    seq![
        word("const"),
        word(n),
        punct(':'),
        word("usize"),
        punct('='),
        TokenModel::Literal(lit),
        punct(';'),
    ]
}

/// The field impl of a field's type.
pub open spec fn field_reg_impl(f: FieldPlanModel) -> Seq<TokenModel> {
    seq![word("impl")] + generic_t() + drone3("reg", "field", "RegField") + generic_t() + seq![
        word("for"),
        name(f.ty),
    ] + generic_t() + where_t() + seq![
        group(
            Delimiter::Brace,
            seq![word("type"), word("Reg"), punct('='), word("Reg")] + generic_t() + seq![
                punct(';'),
            ] + tagged_type("URegField", name(f.ty), "Urt") + tagged_type(
                "SRegField",
                name(f.ty),
                "Srt",
            ) + tagged_type("CRegField", name(f.ty), "Crt") + const_usize("OFFSET", f.offset)
                + const_usize("WIDTH", f.width),
        ),
    ]
}

/// `impl<_T: ::drone_core::reg::tag::RegTag> tr<_T> for ty<_T> {}`
pub open spec fn trait_impl(tr: Seq<char>, ty: TokenModel) -> Seq<TokenModel> {
    seq![word("impl")] + bounded_t() + seq![name(tr)] + generic_t() + seq![word("for"), ty]
        + generic_t() + seq![group(Delimiter::Brace, Seq::empty())]
}

/// The impl of the one-bit or the wider field trait.
pub open spec fn width_impl(f: FieldPlanModel) -> Seq<TokenModel> {
    seq![word("impl")] + generic_t() + drone3(
        "reg",
        "field",
        if f.single_bit {
            "RegFieldBit"
        } else {
            "RegFieldBits"
        },
    ) + generic_t() + seq![word("for"), name(f.ty)] + generic_t() + where_t() + seq![
        group(Delimiter::Brace, Seq::empty()),
    ]
}

/// `&self.reg.member, &self.val,` with `mut` before the second `self` where
/// `writes` holds.
pub open spec fn field_args(member: Seq<char>, writes: bool) -> Seq<TokenModel> {
    seq![
        punct('&'),
        word("self"),
        punct('.'),
        word("reg"),
        punct('.'),
        name(member),
        punct(','),
        punct('&'),
    ] + (if writes {
        seq![word("mut")]
    } else {
        Seq::empty()
    }) + seq![word("self"), punct('.'), word("val"), punct(',')]
}

/// Whether an accessor reads the field.
pub open spec fn is_reader(a: AccessorModel) -> bool {
    a is ReadBit || a is ReadBits
}

/// `pub fn n(&self) -> ret { path::read(args) }`
pub open spec fn read_method(f: FieldPlanModel, n: Seq<char>, ret: TokenModel, path_last: &str) -> Seq<
    TokenModel,
> {
    seq![
        word("pub"),
        word("fn"),
        name(n),
        group(Delimiter::Parenthesis, seq![punct('&'), word("self")]),
        punct('-'),
        punct('>'),
        ret,
        group(
            Delimiter::Brace,
            drone3("reg", "field", path_last) + sep_word("read") + seq![
                group(Delimiter::Parenthesis, field_args(f.member, false)),
            ],
        ),
    ]
}

/// `pub fn n(params) -> &mut Self { path::op(args extra); self }`
pub open spec fn write_method(
    f: FieldPlanModel,
    n: Seq<char>,
    params: Seq<TokenModel>,
    path_last: &str,
    op: &str,
    extra: Seq<TokenModel>,
) -> Seq<TokenModel> {
    seq![
        word("pub"),
        word("fn"),
        name(n),
        group(Delimiter::Parenthesis, params),
        punct('-'),
        punct('>'),
        punct('&'),
        word("mut"),
        word("Self"),
        group(
            Delimiter::Brace,
            drone3("reg", "field", path_last) + sep_word(op) + seq![
                group(Delimiter::Parenthesis, field_args(f.member, true) + extra),
                punct(';'),
                word("self"),
            ],
        ),
    ]
}

/// The method of one accessor of field `f`.
pub open spec fn accessor_items(
    f: FieldPlanModel,
    val_ty: Seq<char>,
    a: AccessorModel,
) -> Seq<TokenModel> {
    print_attrs(f.attrs) + inline_attr() + match a {
        AccessorModel::ReadBit(n) => read_method(f, n, word("bool"), "RRRegFieldBit"),
        AccessorModel::ReadBits(n) => read_method(f, n, name(val_ty), "RRRegFieldBits"),
        AccessorModel::WriteBits(n) => write_method(
            f,
            n,
            seq![
                punct('&'),
                word("mut"),
                word("self"),
                punct(','),
                word("bits"),
                punct(':'),
                name(val_ty),
            ],
            "WWRegFieldBits",
            "write",
            seq![word("bits"), punct(',')],
        ),
        AccessorModel::SetBit(n) => write_method(
            f,
            n,
            seq![punct('&'), word("mut"), word("self")],
            "WWRegFieldBit",
            "set",
            Seq::empty(),
        ),
        AccessorModel::ClearBit(n) => write_method(
            f,
            n,
            seq![punct('&'), word("mut"), word("self")],
            "WWRegFieldBit",
            "clear",
            Seq::empty(),
        ),
        AccessorModel::ToggleBit(n) => write_method(
            f,
            n,
            seq![punct('&'), word("mut"), word("self")],
            "WWRegFieldBit",
            "toggle",
            Seq::empty(),
        ),
    }
}

/// The methods of the accessors of `f` that read, or of those that write.
pub open spec fn methods(f: FieldPlanModel, val_ty: Seq<char>, readers: bool) -> Seq<TokenModel> {
    concat_map(
        f.accessors,
        |a: AccessorModel|
            if is_reader(a) == readers {
                accessor_items(f, val_ty, a)
            } else {
                Seq::empty()
            },
    )
}

/// `impl<'a, _T: ::drone_core::reg::tag::RegTag> Hold<'a, _T> { ms }`, where
/// there are methods.
pub open spec fn hold_impl(ms: Seq<TokenModel>) -> Seq<TokenModel> {
    if ms.len() == 0 {
        Seq::empty()
    } else {
        seq![word("impl"), punct('<')] + lifetime() + seq![punct(','), t(), punct(':')] + drone3(
            "reg",
            "tag",
            "RegTag",
        ) + seq![punct('>'), word("Hold"), punct('<')] + lifetime() + seq![
            punct(','),
            t(),
            punct('>'),
            group(Delimiter::Brace, ms),
        ]
    }
}

/// The items of one field.
pub open spec fn field_items(f: FieldPlanModel, val_ty: Seq<char>) -> Seq<TokenModel> {
    field_struct(f) + field_token_impl(f) + field_reg_impl(f) + concat_map(
        f.traits,
        |tr: Seq<char>| trait_impl(tr, name(f.ty)),
    ) + width_impl(f) + hold_impl(methods(f, val_ty, true)) + hold_impl(methods(f, val_ty, false))
}

/// The member of the register type for a field.
pub open spec fn struct_member(f: FieldPlanModel) -> Seq<TokenModel> {
    print_attrs(f.attrs) + seq![word("pub"), name(f.member), punct(':'), name(f.ty)] + generic_t()
}

/// `_marker: ::core::marker::PhantomData`
pub open spec fn marker_member(with_t: bool) -> Seq<TokenModel> {
    seq![word("_marker"), punct(':')] + sep_word("core") + sep_word("marker") + sep_word(
        "PhantomData",
    ) + (if with_t {
        generic_t()
    } else {
        Seq::empty()
    })
}

/// The members of the register type, separated by commas.
pub open spec fn struct_members(p: RegPlanModel) -> Seq<TokenModel> {
    comma_joined(
        p.fields.map_values(|f: FieldPlanModel| struct_member(f)) + (if p.marker {
            seq![marker_member(true)]
        } else {
            Seq::empty()
        }),
    )
}

/// The initializers of the members of the register type, each followed by a
/// comma.
pub open spec fn ctor_members(p: RegPlanModel) -> Seq<TokenModel> {
    concat_map(
        p.fields,
        |f: FieldPlanModel|
            seq![name(f.member), punct(':')] + drone2("token", "Token") + sep_word("take") + seq![
                group(Delimiter::Parenthesis, Seq::empty()),
                punct(','),
            ],
    ) + (if p.marker {
        marker_member(false) + seq![punct(',')]
    } else {
        Seq::empty()
    })
}

/// `use super::{..};` for the imported traits, where there are any.
pub open spec fn imports_items(imports: Seq<Seq<char>>) -> Seq<TokenModel> {
    if imports.len() == 0 {
        Seq::empty()
    } else {
        seq![word("use"), word("super")] + path_sep() + seq![
            group(Delimiter::Brace, comma_joined(imports.map_values(|n: Seq<char>| seq![name(n)]))),
            punct(';'),
        ]
    }
}

/// The value type and the register type.
pub open spec fn reg_types(p: RegPlanModel) -> Seq<TokenModel> {
    print_attrs(p.attrs) + derive_attr(true) + seq![
        word("pub"),
        word("struct"),
        word("Val"),
        group(Delimiter::Parenthesis, seq![name(value_type(p.value_bits))]),
        punct(';'),
    ] + print_attrs(p.attrs) + derive_attr(false) + seq![word("pub"), word("struct"), word("Reg")]
        + bounded_t() + seq![group(Delimiter::Brace, struct_members(p))]
}

/// The token impl of the register type.
pub open spec fn reg_token_impl(p: RegPlanModel) -> Seq<TokenModel> {
    seq![word("unsafe"), word("impl")] + bounded_t() + drone2("token", "Token") + seq![
        word("for"),
        word("Reg"),
    ] + generic_t() + seq![
        group(
            Delimiter::Brace,
            inline_attr() + seq![word("unsafe"), word("fn"), word("take")] + returns_self() + seq![
                group(
                    Delimiter::Brace,
                    seq![word("Self"), group(Delimiter::Brace, ctor_members(p))],
                ),
            ],
        ),
    ]
}

/// The body of the register impl of the register type.
pub open spec fn reg_impl_body(p: RegPlanModel) -> Seq<TokenModel> {
    seq![word("type"), word("Val"), punct('='), word("Val"), punct(';')] + tagged_type(
        "UReg",
        word("Reg"),
        "Urt",
    ) + tagged_type("SReg", word("Reg"), "Srt") + tagged_type("CReg", word("Reg"), "Crt")
        + const_usize("ADDRESS", p.address) + seq![
        word("const"),
        word("RESET"),
        punct(':'),
        name(value_type(p.value_bits)),
        punct('='),
        TokenModel::Literal(p.reset),
        punct(';'),
    ] + inline_attr() + seq![
        word("unsafe"),
        word("fn"),
        word("val_from"),
        group(
            Delimiter::Parenthesis,
            seq![word("bits"), punct(':'), name(value_type(p.value_bits))],
        ),
        punct('-'),
        punct('>'),
        word("Val"),
        group(Delimiter::Brace, seq![word("Val"), group(Delimiter::Parenthesis, seq![word("bits")])]),
    ]
}

/// The token impl and the register impl of the register type.
pub open spec fn reg_impls(p: RegPlanModel) -> Seq<TokenModel> {
    reg_token_impl(p) + seq![word("impl")] + bounded_t() + drone2("reg", "Reg") + generic_t()
        + seq![word("for"), word("Reg")] + generic_t() + seq![
        group(Delimiter::Brace, reg_impl_body(p)),
    ]
}

/// `<'a, _T`
pub open spec fn lifetime_t() -> Seq<TokenModel> {
    seq![punct('<')] + lifetime() + seq![punct(','), t()]
}

/// The impl that lets a register hold a value.
pub open spec fn regref_impl() -> Seq<TokenModel> {
    seq![word("impl")] + lifetime_t() + seq![punct('>')] + drone2("reg", "RegRef") + lifetime_t()
        + seq![punct('>'), word("for"), word("Reg")] + generic_t() + seq![word("where"), t(), punct(':')]
        + drone3("reg", "tag", "RegTag") + seq![punct('+')] + lifetime() + seq![
        punct(','),
        group(Delimiter::Brace, regref_body()),
    ]
}

pub open spec fn regref_body() -> Seq<TokenModel> {
    seq![word("type"), word("Hold"), punct('='), word("Hold")] + lifetime_t() + seq![
        punct('>'),
        punct(';'),
    ] + inline_attr() + seq![
        word("fn"),
        word("hold"),
        group(
            Delimiter::Parenthesis,
            seq![punct('&')] + lifetime() + seq![
                word("self"),
                punct(','),
                word("val"),
                punct(':'),
                word("Self"),
            ] + sep_word("Val"),
        ),
        punct('-'),
        punct('>'),
        word("Self"),
    ] + sep_word("Hold") + seq![
        group(
            Delimiter::Brace,
            seq![
                word("Hold"),
                group(
                    Delimiter::Brace,
                    seq![word("reg"), punct(':'), word("self"), punct(','), word("val")],
                ),
            ],
        ),
    ]
}

/// The struct that holds a register value.
pub open spec fn hold_struct(p: RegPlanModel) -> Seq<TokenModel> {
    print_attrs(p.attrs) + seq![word("pub"), word("struct"), word("Hold")] + lifetime_t() + seq![
        punct(':'),
    ] + drone3("reg", "tag", "RegTag") + seq![
        punct('>'),
        group(
            Delimiter::Brace,
            seq![word("reg"), punct(':'), punct('&')] + lifetime() + seq![word("Reg")]
                + generic_t() + seq![
                punct(','),
                word("val"),
                punct(':'),
                word("Val"),
                punct(','),
            ],
        ),
    ]
}

/// The impl of the holding struct.
pub open spec fn reghold_impl() -> Seq<TokenModel> {
    seq![word("impl")] + lifetime_t() + seq![punct('>')] + drone2("reg", "RegHold")
        + lifetime_t() + seq![punct(','), word("Reg")] + generic_t() + seq![
        punct('>'),
        word("for"),
        word("Hold"),
    ] + lifetime_t() + seq![punct('>')] + where_t() + seq![
        group(
            Delimiter::Brace,
            inline_attr() + seq![
                word("fn"),
                word("val"),
                group(Delimiter::Parenthesis, seq![punct('&'), word("self")]),
                punct('-'),
                punct('>'),
                word("Val"),
                group(Delimiter::Brace, seq![word("self"), punct('.'), word("val")]),
            ] + inline_attr() + seq![
                word("fn"),
                word("set_val"),
                group(
                    Delimiter::Parenthesis,
                    seq![
                        punct('&'),
                        word("mut"),
                        word("self"),
                        punct(','),
                        word("val"),
                        punct(':'),
                        word("Val"),
                    ],
                ),
                group(
                    Delimiter::Brace,
                    seq![word("self"), punct('.'), word("val"), punct('='), word("val"), punct(';')],
                ),
            ],
        ),
    ]
}

/// The impl that holds a register value, the holding struct, and its impl.
pub open spec fn hold_items(p: RegPlanModel) -> Seq<TokenModel> {
    regref_impl() + hold_struct(p) + reghold_impl()
}

/// The items of a register's module that come before those of its fields:
/// the imports, the value type, the register type and its impls, and the
/// holding struct with its impls.
#[verifier::opaque]
pub open spec fn module_head(p: RegPlanModel) -> Seq<TokenModel> {
    imports_items(p.imports) + seq![word("use")] + drone2("bitfield", "Bitfield") + seq![punct(';')]
        + reg_types(p) + reg_impls(p) + hold_items(p)
}

/// The items inside the module that a register declaration expands to.
pub open spec fn reg_module_body(p: RegPlanModel) -> Seq<TokenModel> {
    module_head(p) + concat_map(
        p.fields,
        |f: FieldPlanModel| field_items(f, value_type(p.value_bits)),
    ) + concat_map(p.traits, |tr: Seq<char>| trait_impl(tr, word("Reg")))
}

/// The module that a register declaration expands to.
pub open spec fn reg_items(p: RegPlanModel) -> Seq<TokenModel> {
    print_attrs(p.attrs) + print_vis(p.vis) + seq![
        word("mod"),
        name(p.module),
        group(Delimiter::Brace, reg_module_body(p)),
    ]
}

fn digit_str(d: u8) -> (r: &'static str)
    requires
        d < 10,
    ensures
        r@ == seq![digit(d as int)],
{
    if d == 0 {
        proof { reveal_strlit("0"); }
        "0"
    } else if d == 1 {
        proof { reveal_strlit("1"); }
        "1"
    } else if d == 2 {
        proof { reveal_strlit("2"); }
        "2"
    } else if d == 3 {
        proof { reveal_strlit("3"); }
        "3"
    } else if d == 4 {
        proof { reveal_strlit("4"); }
        "4"
    } else if d == 5 {
        proof { reveal_strlit("5"); }
        "5"
    } else if d == 6 {
        proof { reveal_strlit("6"); }
        "6"
    } else if d == 7 {
        proof { reveal_strlit("7"); }
        "7"
    } else if d == 8 {
        proof { reveal_strlit("8"); }
        "8"
    } else {
        proof { reveal_strlit("9"); }
        "9"
    }
}

/// The name of the register's value type.
pub fn value_type_name(bits: u8) -> (r: String)
    ensures
        r@ == value_type(bits),
{
    proof { reveal_strlit("u"); }
    let mut s = "u".to_owned();
    let ghost n = bits as nat;
    if bits >= 100 {
        s.append(digit_str(bits / 100));
    }
    if bits >= 10 {
        s.append(digit_str((bits / 10) % 10));
    }
    s.append(digit_str(bits % 10));
    proof {
        if n < 10 {
            assert(decimal(n) =~= seq![digit(n as int)]);
        } else if n < 100 {
            assert(decimal(n / 10) =~= seq![digit((n / 10) as int)]);
        } else {
            assert((n / 10) / 10 == n / 100);
            assert(decimal((n / 10) / 10) =~= seq![digit((n / 100) as int)]);
            assert(decimal(n / 10) =~= seq![digit((n / 100) as int)].push(digit(((n / 10) % 10) as int)));
        }
        assert(s@ =~= value_type(bits));
    }
    s
}

fn push_t(out: &mut Vec<Token>)
    ensures
        models(final(out)@) == models(old(out)@).push(t()),
{
    push_word(out, "_T");
}

fn push_drone2(out: &mut Vec<Token>, a: &str, b: &str)
    ensures
        models(final(out)@) == models(old(out)@) + drone2(a, b),
{
    push_sep_word(out, "drone_core");
    push_sep_word(out, a);
    push_sep_word(out, b);
    assert(models(out@) =~= models(old(out)@) + drone2(a, b));
}

fn push_drone3(out: &mut Vec<Token>, a: &str, b: &str, c: &str)
    ensures
        models(final(out)@) == models(old(out)@) + drone3(a, b, c),
{
    push_drone2(out, a, b);
    push_sep_word(out, c);
    assert(models(out@) =~= models(old(out)@) + drone3(a, b, c));
}

fn push_generic_t(out: &mut Vec<Token>)
    ensures
        models(final(out)@) == models(old(out)@) + generic_t(),
{
    push_punct(out, '<');
    push_t(out);
    push_punct(out, '>');
    assert(models(out@) =~= models(old(out)@) + generic_t());
}

fn push_bounded_t(out: &mut Vec<Token>)
    ensures
        models(final(out)@) == models(old(out)@) + bounded_t(),
{
    push_punct(out, '<');
    push_t(out);
    push_punct(out, ':');
    push_drone3(out, "reg", "tag", "RegTag");
    push_punct(out, '>');
    assert(models(out@) =~= models(old(out)@) + bounded_t());
}

fn push_where_t(out: &mut Vec<Token>)
    ensures
        models(final(out)@) == models(old(out)@) + where_t(),
{
    push_word(out, "where");
    push_t(out);
    push_punct(out, ':');
    push_drone3(out, "reg", "tag", "RegTag");
    push_punct(out, ',');
    assert(models(out@) =~= models(old(out)@) + where_t());
}

fn push_lifetime(out: &mut Vec<Token>)
    ensures
        models(final(out)@) == models(old(out)@) + lifetime(),
{
    push_punct(out, '\'');
    push_word(out, "a");
    assert(models(out@) =~= models(old(out)@) + lifetime());
}

fn push_lifetime_t(out: &mut Vec<Token>)
    ensures
        models(final(out)@) == models(old(out)@) + lifetime_t(),
{
    push_punct(out, '<');
    push_lifetime(out);
    push_punct(out, ',');
    push_t(out);
    assert(models(out@) =~= models(old(out)@) + lifetime_t());
}

fn push_inline_attr(out: &mut Vec<Token>)
    ensures
        models(final(out)@) == models(old(out)@) + inline_attr(),
{
    let mut inner: Vec<Token> = Vec::new();
    push_word(&mut inner, "inline");
    assert(models(inner@) =~= seq![word("inline")]);
    push_punct(out, '#');
    push_group(out, Delimiter::Bracket, inner);
    assert(models(out@) =~= models(old(out)@) + inline_attr());
}

fn push_derive_attr(out: &mut Vec<Token>, bitfield: bool)
    ensures
        models(final(out)@) == models(old(out)@) + derive_attr(bitfield),
{
    let mut names: Vec<Token> = Vec::new();
    if bitfield {
        push_word(&mut names, "Bitfield");
        push_punct(&mut names, ',');
    }
    push_word(&mut names, "Clone");
    push_punct(&mut names, ',');
    push_word(&mut names, "Copy");
    let ghost nm = (if bitfield {
        seq![word("Bitfield"), punct(',')]
    } else {
        Seq::<TokenModel>::empty()
    }) + seq![word("Clone"), punct(','), word("Copy")];
    assert(models(names@) =~= nm);
    let mut inner: Vec<Token> = Vec::new();
    push_word(&mut inner, "derive");
    push_group(&mut inner, Delimiter::Parenthesis, names);
    assert(models(inner@) =~= seq![word("derive"), group(Delimiter::Parenthesis, nm)]);
    push_punct(out, '#');
    push_group(out, Delimiter::Bracket, inner);
    assert(models(out@) =~= models(old(out)@) + derive_attr(bitfield));
}

fn push_returns_self(out: &mut Vec<Token>)
    ensures
        models(final(out)@) == models(old(out)@) + returns_self(),
{
    push_group(out, Delimiter::Parenthesis, Vec::new());
    push_punct(out, '-');
    push_punct(out, '>');
    push_word(out, "Self");
    assert(models(out@) =~= models(old(out)@) + returns_self());
}

fn push_tagged_type(out: &mut Vec<Token>, n: &str, ty: Token, tag: &str)
    ensures
        models(final(out)@) == models(old(out)@) + tagged_type(n, ty@, tag),
{
    let ghost tm = ty@;
    push_word(out, "type");
    push_word(out, n);
    push_punct(out, '=');
    push_token(out, ty);
    push_punct(out, '<');
    push_drone3(out, "reg", "tag", tag);
    push_punct(out, '>');
    push_punct(out, ';');
    assert(models(out@) =~= models(old(out)@) + tagged_type(n, tm, tag));
}

fn push_const_usize(out: &mut Vec<Token>, n: &str, lit: &String)
    ensures
        models(final(out)@) == models(old(out)@) + const_usize(n, lit@),
{
    push_word(out, "const");
    push_word(out, n);
    push_punct(out, ':');
    push_word(out, "usize");
    push_punct(out, '=');
    push_token(out, Token::Literal(lit.clone()));
    push_punct(out, ';');
    assert(models(out@) =~= models(old(out)@) + const_usize(n, lit@));
}

fn ident_token(s: &String) -> (r: Token)
    ensures
        r@ == name(s@),
{
    Token::Ident(s.clone())
}

fn word_token(w: &str) -> (r: Token)
    ensures
        r@ == word(w),
{
    Token::Ident(w.to_owned())
}

fn push_field_struct(out: &mut Vec<Token>, f: &FieldPlan)
    ensures
        models(final(out)@) == models(old(out)@) + field_struct(f@),
{
    push_attrs(out, &f.attrs);
    push_derive_attr(out, false);
    push_word(out, "pub");
    push_word(out, "struct");
    push_name(out, &f.ty);
    push_bounded_t(out);
    let mut inner: Vec<Token> = Vec::new();
    push_t(&mut inner);
    assert(models(inner@) =~= seq![t()]);
    push_group(out, Delimiter::Parenthesis, inner);
    push_punct(out, ';');
    assert(models(out@) =~= models(old(out)@) + field_struct(f@));
}

fn push_field_token_impl(out: &mut Vec<Token>, f: &FieldPlan)
    ensures
        models(final(out)@) == models(old(out)@) + field_token_impl(f@),
{
    let mut call: Vec<Token> = Vec::new();
    push_t(&mut call);
    push_sep_word(&mut call, "default");
    push_group(&mut call, Delimiter::Parenthesis, Vec::new());
    let ghost cm = seq![t()] + sep_word("default") + seq![group(Delimiter::Parenthesis, Seq::empty())];
    assert(models(call@) =~= cm);
    let mut ctor: Vec<Token> = Vec::new();
    push_name(&mut ctor, &f.ty);
    push_group(&mut ctor, Delimiter::Parenthesis, call);
    let ghost ctm = seq![name(f@.ty), group(Delimiter::Parenthesis, cm)];
    assert(models(ctor@) =~= ctm);
    let mut body: Vec<Token> = Vec::new();
    push_inline_attr(&mut body);
    push_word(&mut body, "unsafe");
    push_word(&mut body, "fn");
    push_word(&mut body, "take");
    push_returns_self(&mut body);
    push_group(&mut body, Delimiter::Brace, ctor);
    let ghost bm = inline_attr() + seq![word("unsafe"), word("fn"), word("take")] + returns_self()
        + seq![group(Delimiter::Brace, ctm)];
    assert(models(body@) =~= bm);
    push_word(out, "unsafe");
    push_word(out, "impl");
    push_generic_t(out);
    push_drone2(out, "token", "Token");
    push_word(out, "for");
    push_name(out, &f.ty);
    push_generic_t(out);
    push_where_t(out);
    push_group(out, Delimiter::Brace, body);
    assert(models(out@) =~= models(old(out)@) + field_token_impl(f@));
}

fn push_field_reg_impl(out: &mut Vec<Token>, f: &FieldPlan)
    ensures
        models(final(out)@) == models(old(out)@) + field_reg_impl(f@),
{
    let mut body: Vec<Token> = Vec::new();
    push_word(&mut body, "type");
    push_word(&mut body, "Reg");
    push_punct(&mut body, '=');
    push_word(&mut body, "Reg");
    push_generic_t(&mut body);
    push_punct(&mut body, ';');
    push_tagged_type(&mut body, "URegField", ident_token(&f.ty), "Urt");
    push_tagged_type(&mut body, "SRegField", ident_token(&f.ty), "Srt");
    push_tagged_type(&mut body, "CRegField", ident_token(&f.ty), "Crt");
    push_const_usize(&mut body, "OFFSET", &f.offset);
    push_const_usize(&mut body, "WIDTH", &f.width);
    let ghost bm = seq![word("type"), word("Reg"), punct('='), word("Reg")] + generic_t() + seq![
        punct(';'),
    ] + tagged_type("URegField", name(f@.ty), "Urt") + tagged_type("SRegField", name(f@.ty), "Srt")
        + tagged_type("CRegField", name(f@.ty), "Crt") + const_usize("OFFSET", f@.offset)
        + const_usize("WIDTH", f@.width);
    assert(models(body@) =~= bm);
    push_word(out, "impl");
    push_generic_t(out);
    push_drone3(out, "reg", "field", "RegField");
    push_generic_t(out);
    push_word(out, "for");
    push_name(out, &f.ty);
    push_generic_t(out);
    push_where_t(out);
    push_group(out, Delimiter::Brace, body);
    assert(models(out@) =~= models(old(out)@) + field_reg_impl(f@));
}

fn push_trait_impl(out: &mut Vec<Token>, tr: &String, ty: Token)
    ensures
        models(final(out)@) == models(old(out)@) + trait_impl(tr@, ty@),
{
    let ghost tm = ty@;
    push_word(out, "impl");
    push_bounded_t(out);
    push_name(out, tr);
    push_generic_t(out);
    push_word(out, "for");
    push_token(out, ty);
    push_generic_t(out);
    push_group(out, Delimiter::Brace, Vec::new());
    assert(models(out@) =~= models(old(out)@) + trait_impl(tr@, tm));
}

fn push_width_impl(out: &mut Vec<Token>, f: &FieldPlan)
    ensures
        models(final(out)@) == models(old(out)@) + width_impl(f@),
{
    push_word(out, "impl");
    push_generic_t(out);
    if f.single_bit {
        push_drone3(out, "reg", "field", "RegFieldBit");
    } else {
        push_drone3(out, "reg", "field", "RegFieldBits");
    }
    push_generic_t(out);
    push_word(out, "for");
    push_name(out, &f.ty);
    push_generic_t(out);
    push_where_t(out);
    push_group(out, Delimiter::Brace, Vec::new());
    assert(models(out@) =~= models(old(out)@) + width_impl(f@));
}

fn push_field_args(out: &mut Vec<Token>, member: &String, writes: bool)
    ensures
        models(final(out)@) == models(old(out)@) + field_args(member@, writes),
{
    push_punct(out, '&');
    push_word(out, "self");
    push_punct(out, '.');
    push_word(out, "reg");
    push_punct(out, '.');
    push_name(out, member);
    push_punct(out, ',');
    push_punct(out, '&');
    if writes {
        push_word(out, "mut");
    }
    push_word(out, "self");
    push_punct(out, '.');
    push_word(out, "val");
    push_punct(out, ',');
    assert(models(out@) =~= models(old(out)@) + field_args(member@, writes));
}

fn read_method_tokens(f: &FieldPlan, n: &String, ret: Token, path_last: &str) -> (r: Vec<Token>)
    ensures
        models(r@) == read_method(f@, n@, ret@, path_last),
{
    let ghost rm = ret@;
    let mut recv: Vec<Token> = Vec::new();
    push_punct(&mut recv, '&');
    push_word(&mut recv, "self");
    assert(models(recv@) =~= seq![punct('&'), word("self")]);
    let mut args: Vec<Token> = Vec::new();
    push_field_args(&mut args, &f.member, false);
    assert(models(args@) =~= field_args(f@.member, false));
    let mut body: Vec<Token> = Vec::new();
    push_drone3(&mut body, "reg", "field", path_last);
    push_sep_word(&mut body, "read");
    push_group(&mut body, Delimiter::Parenthesis, args);
    assert(models(body@) =~= drone3("reg", "field", path_last) + sep_word("read") + seq![
        group(Delimiter::Parenthesis, field_args(f@.member, false)),
    ]);
    let mut r: Vec<Token> = Vec::new();
    push_word(&mut r, "pub");
    push_word(&mut r, "fn");
    push_name(&mut r, n);
    push_group(&mut r, Delimiter::Parenthesis, recv);
    push_punct(&mut r, '-');
    push_punct(&mut r, '>');
    push_token(&mut r, ret);
    push_group(&mut r, Delimiter::Brace, body);
    assert(models(r@) =~= read_method(f@, n@, rm, path_last));
    r
}

fn write_method_tokens(
    f: &FieldPlan,
    n: &String,
    bits: Option<&String>,
    path_last: &str,
    op: &str,
) -> (r: Vec<Token>)
    ensures
        models(r@) == write_method(
            f@,
            n@,
            seq![punct('&'), word("mut"), word("self")] + match bits {
                Some(v) => seq![punct(','), word("bits"), punct(':'), name(v@)],
                None => Seq::empty(),
            },
            path_last,
            op,
            match bits {
                Some(v) => seq![word("bits"), punct(',')],
                None => Seq::empty(),
            },
        ),
{
    let ghost params = seq![punct('&'), word("mut"), word("self")] + match bits {
        Some(v) => seq![punct(','), word("bits"), punct(':'), name(v@)],
        None => Seq::empty(),
    };
    let ghost extra = match bits {
        Some(v) => seq![word("bits"), punct(',')],
        None => Seq::<TokenModel>::empty(),
    };
    let mut recv: Vec<Token> = Vec::new();
    push_punct(&mut recv, '&');
    push_word(&mut recv, "mut");
    push_word(&mut recv, "self");
    let mut args: Vec<Token> = Vec::new();
    push_field_args(&mut args, &f.member, true);
    match bits {
        Some(v) => {
            push_punct(&mut recv, ',');
            push_word(&mut recv, "bits");
            push_punct(&mut recv, ':');
            push_name(&mut recv, v);
            push_word(&mut args, "bits");
            push_punct(&mut args, ',');
        },
        None => {},
    }
    assert(models(recv@) =~= params);
    assert(models(args@) =~= field_args(f@.member, true) + extra);
    let mut body: Vec<Token> = Vec::new();
    push_drone3(&mut body, "reg", "field", path_last);
    push_sep_word(&mut body, op);
    push_group(&mut body, Delimiter::Parenthesis, args);
    push_punct(&mut body, ';');
    push_word(&mut body, "self");
    assert(models(body@) =~= drone3("reg", "field", path_last) + sep_word(op) + seq![
        group(Delimiter::Parenthesis, field_args(f@.member, true) + extra),
        punct(';'),
        word("self"),
    ]);
    let mut r: Vec<Token> = Vec::new();
    push_word(&mut r, "pub");
    push_word(&mut r, "fn");
    push_name(&mut r, n);
    push_group(&mut r, Delimiter::Parenthesis, recv);
    push_punct(&mut r, '-');
    push_punct(&mut r, '>');
    push_punct(&mut r, '&');
    push_word(&mut r, "mut");
    push_word(&mut r, "Self");
    push_group(&mut r, Delimiter::Brace, body);
    assert(models(r@) =~= write_method(f@, n@, params, path_last, op, extra));
    r
}

fn push_accessor(out: &mut Vec<Token>, f: &FieldPlan, val_ty: &String, a: &Accessor)
    ensures
        models(final(out)@) == models(old(out)@) + accessor_items(f@, val_ty@, a@),
{
    let ghost start = models(out@);
    push_attrs(out, &f.attrs);
    push_inline_attr(out);
    let ghost head = start + print_attrs(f@.attrs) + inline_attr();
    assert(models(out@) =~= head);
    let tail = match a {
        Accessor::ReadBit(n) => read_method_tokens(f, n, word_token("bool"), "RRRegFieldBit"),
        Accessor::ReadBits(n) => read_method_tokens(f, n, ident_token(val_ty), "RRRegFieldBits"),
        Accessor::WriteBits(n) => write_method_tokens(f, n, Some(val_ty), "WWRegFieldBits", "write"),
        Accessor::SetBit(n) => write_method_tokens(f, n, None, "WWRegFieldBit", "set"),
        Accessor::ClearBit(n) => write_method_tokens(f, n, None, "WWRegFieldBit", "clear"),
        Accessor::ToggleBit(n) => write_method_tokens(f, n, None, "WWRegFieldBit", "toggle"),
    };
    proof {
        assert(seq![punct('&'), word("mut"), word("self")] + Seq::<TokenModel>::empty() =~= seq![
            punct('&'),
            word("mut"),
            word("self"),
        ]);
        assert(seq![punct('&'), word("mut"), word("self")] + seq![
            punct(','),
            word("bits"),
            punct(':'),
            name(val_ty@),
        ] =~= seq![
            punct('&'),
            word("mut"),
            word("self"),
            punct(','),
            word("bits"),
            punct(':'),
            name(val_ty@),
        ]);
        assert(accessor_items(f@, val_ty@, a@) =~= print_attrs(f@.attrs) + inline_attr() + models(
            tail@,
        ));
    }
    append_tokens(out, tail);
    assert(models(out@) =~= start + accessor_items(f@, val_ty@, a@));
}

fn is_reader_exec(a: &Accessor) -> (b: bool)
    ensures
        b == is_reader(a@),
{
    match a {
        Accessor::ReadBit(_) => true,
        Accessor::ReadBits(_) => true,
        _ => false,
    }
}

/// The methods of the accessors of `f` that read, or of those that write.
fn method_tokens(f: &FieldPlan, val_ty: &String, readers: bool) -> (r: Vec<Token>)
    ensures
        models(r@) == methods(f@, val_ty@, readers),
{
    let mut r: Vec<Token> = Vec::new();
    let n = f.accessors.len();
    let mut i: usize = 0;
    while i < n
        invariant
            n == f.accessors.len(),
            i <= n,
            models(r@) == concat_map(
                f@.accessors.take(i as int),
                |a: AccessorModel|
                    if is_reader(a) == readers {
                        accessor_items(f@, val_ty@, a)
                    } else {
                        Seq::empty()
                    },
            ),
        decreases n - i,
    {
        proof {
            lemma_concat_map_step(
                f@.accessors,
                i as int,
                |a: AccessorModel|
                    if is_reader(a) == readers {
                        accessor_items(f@, val_ty@, a)
                    } else {
                        Seq::empty()
                    },
            );
        }
        let a = &f.accessors[i];
        if is_reader_exec(a) == readers {
            push_accessor(&mut r, f, val_ty, a);
        } else {
            assert(models(r@) =~= models(r@) + Seq::<TokenModel>::empty());
        }
        i = i + 1;
    }
    proof {
        assert(f@.accessors.take(n as int) =~= f@.accessors);
    }
    r
}

fn push_hold_impl(out: &mut Vec<Token>, ms: Vec<Token>)
    ensures
        models(final(out)@) == models(old(out)@) + hold_impl(models(ms@)),
{
    proof {
        lemma_models(ms@);
    }
    if ms.len() == 0 {
        assert(models(out@) =~= models(out@) + Seq::<TokenModel>::empty());
        return;
    }
    let ghost mm = models(ms@);
    push_word(out, "impl");
    push_punct(out, '<');
    push_lifetime(out);
    push_punct(out, ',');
    push_t(out);
    push_punct(out, ':');
    push_drone3(out, "reg", "tag", "RegTag");
    push_punct(out, '>');
    push_word(out, "Hold");
    push_punct(out, '<');
    push_lifetime(out);
    push_punct(out, ',');
    push_t(out);
    push_punct(out, '>');
    push_group(out, Delimiter::Brace, ms);
    assert(models(out@) =~= models(old(out)@) + hold_impl(mm));
}

fn push_field_traits(out: &mut Vec<Token>, f: &FieldPlan)
    ensures
        models(final(out)@) == models(old(out)@) + concat_map(
            f@.traits,
            |tr: Seq<char>| trait_impl(tr, name(f@.ty)),
        ),
{
    let ghost start = models(out@);
    let n = f.traits.len();
    let mut i: usize = 0;
    while i < n
        invariant
            n == f.traits.len(),
            i <= n,
            models(out@) == start + concat_map(
                f@.traits.take(i as int),
                |tr: Seq<char>| trait_impl(tr, name(f@.ty)),
            ),
        decreases n - i,
    {
        proof {
            lemma_concat_map_step(f@.traits, i as int, |tr: Seq<char>| trait_impl(tr, name(f@.ty)));
        }
        push_trait_impl(out, &f.traits[i], ident_token(&f.ty));
        assert(models(out@) =~= start + concat_map(
            f@.traits.take(i + 1),
            |tr: Seq<char>| trait_impl(tr, name(f@.ty)),
        ));
        i = i + 1;
    }
    proof {
        assert(f@.traits.take(n as int) =~= f@.traits);
    }
}

fn push_field_items(out: &mut Vec<Token>, f: &FieldPlan, val_ty: &String)
    ensures
        models(final(out)@) == models(old(out)@) + field_items(f@, val_ty@),
{
    let ghost start = models(out@);
    push_field_struct(out, f);
    push_field_token_impl(out, f);
    push_field_reg_impl(out, f);
    push_field_traits(out, f);
    push_width_impl(out, f);
    push_hold_impl(out, method_tokens(f, val_ty, true));
    push_hold_impl(out, method_tokens(f, val_ty, false));
    assert(models(out@) =~= start + field_items(f@, val_ty@));
}

fn push_struct_member(out: &mut Vec<Token>, f: &FieldPlan)
    ensures
        models(final(out)@) == models(old(out)@) + struct_member(f@),
{
    push_attrs(out, &f.attrs);
    push_word(out, "pub");
    push_name(out, &f.member);
    push_punct(out, ':');
    push_name(out, &f.ty);
    push_generic_t(out);
    assert(models(out@) =~= models(old(out)@) + struct_member(f@));
}

fn push_marker_member(out: &mut Vec<Token>, with_t: bool)
    ensures
        models(final(out)@) == models(old(out)@) + marker_member(with_t),
{
    push_word(out, "_marker");
    push_punct(out, ':');
    push_sep_word(out, "core");
    push_sep_word(out, "marker");
    push_sep_word(out, "PhantomData");
    if with_t {
        push_generic_t(out);
    }
    assert(models(out@) =~= models(old(out)@) + marker_member(with_t));
}

fn push_struct_members(out: &mut Vec<Token>, p: &RegPlan)
    ensures
        models(final(out)@) == models(old(out)@) + struct_members(p@),
{
    let ghost start = models(out@);
    let ghost parts = p@.fields.map_values(|f: FieldPlanModel| struct_member(f));
    let n = p.fields.len();
    let mut i: usize = 0;
    while i < n
        invariant
            n == p.fields.len(),
            i <= n,
            parts == p@.fields.map_values(|f: FieldPlanModel| struct_member(f)),
            models(out@) == start + comma_joined(parts.take(i as int)),
        decreases n - i,
    {
        if i > 0 {
            push_punct(out, ',');
        }
        push_struct_member(out, &p.fields[i]);
        proof {
            lemma_comma_joined_push(parts.take(i as int), parts[i as int]);
            assert(parts.take(i + 1) =~= parts.take(i as int).push(parts[i as int]));
            assert(models(out@) =~= start + comma_joined(parts.take(i + 1)));
        }
        i = i + 1;
    }
    proof {
        assert(parts.take(n as int) =~= parts);
    }
    let ghost marker = if p@.marker {
        seq![marker_member(true)]
    } else {
        Seq::<Seq<TokenModel>>::empty()
    };
    if p.marker {
        if n > 0 {
            push_punct(out, ',');
        }
        push_marker_member(out, true);
        proof {
            lemma_comma_joined_push(parts, marker_member(true));
            assert(parts + marker =~= parts.push(marker_member(true)));
        }
    } else {
        assert(parts + marker =~= parts);
    }
    assert(models(out@) =~= start + struct_members(p@));
}

fn push_ctor_members(out: &mut Vec<Token>, p: &RegPlan)
    ensures
        models(final(out)@) == models(old(out)@) + ctor_members(p@),
{
    let ghost start = models(out@);
    let n = p.fields.len();
    let mut i: usize = 0;
    while i < n
        invariant
            n == p.fields.len(),
            i <= n,
            models(out@) == start + concat_map(
                p@.fields.take(i as int),
                |f: FieldPlanModel|
                    seq![name(f.member), punct(':')] + drone2("token", "Token") + sep_word("take")
                        + seq![group(Delimiter::Parenthesis, Seq::empty()), punct(',')],
            ),
        decreases n - i,
    {
        proof {
            lemma_concat_map_step(
                p@.fields,
                i as int,
                |f: FieldPlanModel|
                    seq![name(f.member), punct(':')] + drone2("token", "Token") + sep_word("take")
                        + seq![group(Delimiter::Parenthesis, Seq::empty()), punct(',')],
            );
        }
        let ghost before = models(out@);
        let f = &p.fields[i];
        push_name(out, &f.member);
        push_punct(out, ':');
        push_drone2(out, "token", "Token");
        push_sep_word(out, "take");
        push_group(out, Delimiter::Parenthesis, Vec::new());
        push_punct(out, ',');
        assert(models(out@) =~= before + (seq![name(f@.member), punct(':')] + drone2(
            "token",
            "Token",
        ) + sep_word("take") + seq![group(Delimiter::Parenthesis, Seq::empty()), punct(',')]));
        i = i + 1;
    }
    proof {
        assert(p@.fields.take(n as int) =~= p@.fields);
    }
    if p.marker {
        push_marker_member(out, false);
        push_punct(out, ',');
    }
    assert(models(out@) =~= start + ctor_members(p@));
}

fn push_imports(out: &mut Vec<Token>, p: &RegPlan)
    ensures
        models(final(out)@) == models(old(out)@) + imports_items(p@.imports),
{
    let n = p.imports.len();
    if n == 0 {
        assert(models(out@) =~= models(out@) + imports_items(p@.imports));
        return;
    }
    let ghost parts = p@.imports.map_values(|s: Seq<char>| seq![name(s)]);
    let mut inner: Vec<Token> = Vec::new();
    let mut i: usize = 0;
    while i < n
        invariant
            n == p.imports.len(),
            i <= n,
            parts == p@.imports.map_values(|s: Seq<char>| seq![name(s)]),
            models(inner@) == comma_joined(parts.take(i as int)),
        decreases n - i,
    {
        if i > 0 {
            push_punct(&mut inner, ',');
        }
        push_name(&mut inner, &p.imports[i]);
        proof {
            lemma_comma_joined_push(parts.take(i as int), parts[i as int]);
            assert(parts.take(i + 1) =~= parts.take(i as int).push(parts[i as int]));
            assert(models(inner@) =~= comma_joined(parts.take(i + 1)));
        }
        i = i + 1;
    }
    proof {
        assert(parts.take(n as int) =~= parts);
    }
    push_word(out, "use");
    push_word(out, "super");
    push_path_sep(out);
    push_group(out, Delimiter::Brace, inner);
    push_punct(out, ';');
    assert(models(out@) =~= models(old(out)@) + imports_items(p@.imports));
}

fn push_reg_types(out: &mut Vec<Token>, p: &RegPlan, val_ty: &String)
    requires
        val_ty@ == value_type(p@.value_bits),
    ensures
        models(final(out)@) == models(old(out)@) + reg_types(p@),
{
    let ghost start = models(out@);
    push_attrs(out, &p.attrs);
    push_derive_attr(out, true);
    push_word(out, "pub");
    push_word(out, "struct");
    push_word(out, "Val");
    let mut v: Vec<Token> = Vec::new();
    push_name(&mut v, val_ty);
    assert(models(v@) =~= seq![name(val_ty@)]);
    push_group(out, Delimiter::Parenthesis, v);
    push_punct(out, ';');
    push_attrs(out, &p.attrs);
    push_derive_attr(out, false);
    push_word(out, "pub");
    push_word(out, "struct");
    push_word(out, "Reg");
    push_bounded_t(out);
    let mut members: Vec<Token> = Vec::new();
    push_struct_members(&mut members, p);
    assert(models(members@) =~= struct_members(p@));
    push_group(out, Delimiter::Brace, members);
    assert(models(out@) =~= start + reg_types(p@));
}

fn push_reg_token_impl(out: &mut Vec<Token>, p: &RegPlan)
    ensures
        models(final(out)@) == models(old(out)@) + reg_token_impl(p@),
{
    let mut ctors: Vec<Token> = Vec::new();
    push_ctor_members(&mut ctors, p);
    assert(models(ctors@) =~= ctor_members(p@));
    let mut make: Vec<Token> = Vec::new();
    push_word(&mut make, "Self");
    push_group(&mut make, Delimiter::Brace, ctors);
    let ghost mm = seq![word("Self"), group(Delimiter::Brace, ctor_members(p@))];
    assert(models(make@) =~= mm);
    let mut body: Vec<Token> = Vec::new();
    push_inline_attr(&mut body);
    push_word(&mut body, "unsafe");
    push_word(&mut body, "fn");
    push_word(&mut body, "take");
    push_returns_self(&mut body);
    push_group(&mut body, Delimiter::Brace, make);
    assert(models(body@) =~= inline_attr() + seq![word("unsafe"), word("fn"), word("take")]
        + returns_self() + seq![group(Delimiter::Brace, mm)]);
    push_word(out, "unsafe");
    push_word(out, "impl");
    push_bounded_t(out);
    push_drone2(out, "token", "Token");
    push_word(out, "for");
    push_word(out, "Reg");
    push_generic_t(out);
    push_group(out, Delimiter::Brace, body);
    assert(models(out@) =~= models(old(out)@) + reg_token_impl(p@));
}

fn reg_impl_body_tokens(p: &RegPlan, val_ty: &String) -> (r: Vec<Token>)
    requires
        val_ty@ == value_type(p@.value_bits),
    ensures
        models(r@) == reg_impl_body(p@),
{
    let mut r: Vec<Token> = Vec::new();
    push_word(&mut r, "type");
    push_word(&mut r, "Val");
    push_punct(&mut r, '=');
    push_word(&mut r, "Val");
    push_punct(&mut r, ';');
    push_tagged_type(&mut r, "UReg", word_token("Reg"), "Urt");
    push_tagged_type(&mut r, "SReg", word_token("Reg"), "Srt");
    push_tagged_type(&mut r, "CReg", word_token("Reg"), "Crt");
    push_const_usize(&mut r, "ADDRESS", &p.address);
    push_word(&mut r, "const");
    push_word(&mut r, "RESET");
    push_punct(&mut r, ':');
    push_name(&mut r, val_ty);
    push_punct(&mut r, '=');
    push_token(&mut r, Token::Literal(p.reset.clone()));
    push_punct(&mut r, ';');
    let ghost head = models(r@);
    push_inline_attr(&mut r);
    push_word(&mut r, "unsafe");
    push_word(&mut r, "fn");
    push_word(&mut r, "val_from");
    let mut params: Vec<Token> = Vec::new();
    push_word(&mut params, "bits");
    push_punct(&mut params, ':');
    push_name(&mut params, val_ty);
    assert(models(params@) =~= seq![word("bits"), punct(':'), name(val_ty@)]);
    push_group(&mut r, Delimiter::Parenthesis, params);
    push_punct(&mut r, '-');
    push_punct(&mut r, '>');
    push_word(&mut r, "Val");
    let mut bits: Vec<Token> = Vec::new();
    push_word(&mut bits, "bits");
    assert(models(bits@) =~= seq![word("bits")]);
    let mut make: Vec<Token> = Vec::new();
    push_word(&mut make, "Val");
    push_group(&mut make, Delimiter::Parenthesis, bits);
    assert(models(make@) =~= seq![word("Val"), group(Delimiter::Parenthesis, seq![word("bits")])]);
    push_group(&mut r, Delimiter::Brace, make);
    assert(models(r@) =~= reg_impl_body(p@));
    r
}

fn push_reg_impls(out: &mut Vec<Token>, p: &RegPlan, val_ty: &String)
    requires
        val_ty@ == value_type(p@.value_bits),
    ensures
        models(final(out)@) == models(old(out)@) + reg_impls(p@),
{
    push_reg_token_impl(out, p);
    push_word(out, "impl");
    push_bounded_t(out);
    push_drone2(out, "reg", "Reg");
    push_generic_t(out);
    push_word(out, "for");
    push_word(out, "Reg");
    push_generic_t(out);
    push_group(out, Delimiter::Brace, reg_impl_body_tokens(p, val_ty));
    assert(models(out@) =~= models(old(out)@) + reg_impls(p@));
}

fn regref_body_tokens() -> (r: Vec<Token>)
    ensures
        models(r@) == regref_body(),
{
    let mut r: Vec<Token> = Vec::new();
    push_word(&mut r, "type");
    push_word(&mut r, "Hold");
    push_punct(&mut r, '=');
    push_word(&mut r, "Hold");
    push_lifetime_t(&mut r);
    push_punct(&mut r, '>');
    push_punct(&mut r, ';');
    push_inline_attr(&mut r);
    push_word(&mut r, "fn");
    push_word(&mut r, "hold");
    let mut params: Vec<Token> = Vec::new();
    push_punct(&mut params, '&');
    push_lifetime(&mut params);
    push_word(&mut params, "self");
    push_punct(&mut params, ',');
    push_word(&mut params, "val");
    push_punct(&mut params, ':');
    push_word(&mut params, "Self");
    push_sep_word(&mut params, "Val");
    let ghost pm = seq![punct('&')] + lifetime() + seq![
        word("self"),
        punct(','),
        word("val"),
        punct(':'),
        word("Self"),
    ] + sep_word("Val");
    assert(models(params@) =~= pm);
    push_group(&mut r, Delimiter::Parenthesis, params);
    push_punct(&mut r, '-');
    push_punct(&mut r, '>');
    push_word(&mut r, "Self");
    push_sep_word(&mut r, "Hold");
    let mut fields: Vec<Token> = Vec::new();
    push_word(&mut fields, "reg");
    push_punct(&mut fields, ':');
    push_word(&mut fields, "self");
    push_punct(&mut fields, ',');
    push_word(&mut fields, "val");
    let ghost fm = seq![word("reg"), punct(':'), word("self"), punct(','), word("val")];
    assert(models(fields@) =~= fm);
    let mut make: Vec<Token> = Vec::new();
    push_word(&mut make, "Hold");
    push_group(&mut make, Delimiter::Brace, fields);
    assert(models(make@) =~= seq![word("Hold"), group(Delimiter::Brace, fm)]);
    push_group(&mut r, Delimiter::Brace, make);
    assert(models(r@) =~= regref_body());
    r
}

fn push_regref_impl(out: &mut Vec<Token>)
    ensures
        models(final(out)@) == models(old(out)@) + regref_impl(),
{
    push_word(out, "impl");
    push_lifetime_t(out);
    push_punct(out, '>');
    push_drone2(out, "reg", "RegRef");
    push_lifetime_t(out);
    push_punct(out, '>');
    push_word(out, "for");
    push_word(out, "Reg");
    push_generic_t(out);
    push_word(out, "where");
    push_t(out);
    push_punct(out, ':');
    push_drone3(out, "reg", "tag", "RegTag");
    push_punct(out, '+');
    push_lifetime(out);
    push_punct(out, ',');
    push_group(out, Delimiter::Brace, regref_body_tokens());
    assert(models(out@) =~= models(old(out)@) + regref_impl());
}

fn push_hold_struct(out: &mut Vec<Token>, p: &RegPlan)
    ensures
        models(final(out)@) == models(old(out)@) + hold_struct(p@),
{
    let mut fields: Vec<Token> = Vec::new();
    push_word(&mut fields, "reg");
    push_punct(&mut fields, ':');
    push_punct(&mut fields, '&');
    push_lifetime(&mut fields);
    push_word(&mut fields, "Reg");
    push_generic_t(&mut fields);
    push_punct(&mut fields, ',');
    push_word(&mut fields, "val");
    push_punct(&mut fields, ':');
    push_word(&mut fields, "Val");
    push_punct(&mut fields, ',');
    assert(models(fields@) =~= seq![word("reg"), punct(':'), punct('&')] + lifetime() + seq![
        word("Reg"),
    ] + generic_t() + seq![punct(','), word("val"), punct(':'), word("Val"), punct(',')]);
    push_attrs(out, &p.attrs);
    push_word(out, "pub");
    push_word(out, "struct");
    push_word(out, "Hold");
    push_lifetime_t(out);
    push_punct(out, ':');
    push_drone3(out, "reg", "tag", "RegTag");
    push_punct(out, '>');
    push_group(out, Delimiter::Brace, fields);
    assert(models(out@) =~= models(old(out)@) + hold_struct(p@));
}

fn reghold_body_tokens() -> (r: Vec<Token>)
    ensures
        models(r@) == inline_attr() + seq![
            word("fn"),
            word("val"),
            group(Delimiter::Parenthesis, seq![punct('&'), word("self")]),
            punct('-'),
            punct('>'),
            word("Val"),
            group(Delimiter::Brace, seq![word("self"), punct('.'), word("val")]),
        ] + inline_attr() + seq![
            word("fn"),
            word("set_val"),
            group(
                Delimiter::Parenthesis,
                seq![
                    punct('&'),
                    word("mut"),
                    word("self"),
                    punct(','),
                    word("val"),
                    punct(':'),
                    word("Val"),
                ],
            ),
            group(
                Delimiter::Brace,
                seq![word("self"), punct('.'), word("val"), punct('='), word("val"), punct(';')],
            ),
        ],
{
    let mut r: Vec<Token> = Vec::new();
    push_inline_attr(&mut r);
    push_word(&mut r, "fn");
    push_word(&mut r, "val");
    let mut recv: Vec<Token> = Vec::new();
    push_punct(&mut recv, '&');
    push_word(&mut recv, "self");
    assert(models(recv@) =~= seq![punct('&'), word("self")]);
    push_group(&mut r, Delimiter::Parenthesis, recv);
    push_punct(&mut r, '-');
    push_punct(&mut r, '>');
    push_word(&mut r, "Val");
    let mut get: Vec<Token> = Vec::new();
    push_word(&mut get, "self");
    push_punct(&mut get, '.');
    push_word(&mut get, "val");
    assert(models(get@) =~= seq![word("self"), punct('.'), word("val")]);
    push_group(&mut r, Delimiter::Brace, get);
    let ghost first = models(r@);
    push_inline_attr(&mut r);
    push_word(&mut r, "fn");
    push_word(&mut r, "set_val");
    let mut params: Vec<Token> = Vec::new();
    push_punct(&mut params, '&');
    push_word(&mut params, "mut");
    push_word(&mut params, "self");
    push_punct(&mut params, ',');
    push_word(&mut params, "val");
    push_punct(&mut params, ':');
    push_word(&mut params, "Val");
    assert(models(params@) =~= seq![
        punct('&'),
        word("mut"),
        word("self"),
        punct(','),
        word("val"),
        punct(':'),
        word("Val"),
    ]);
    push_group(&mut r, Delimiter::Parenthesis, params);
    let mut set: Vec<Token> = Vec::new();
    push_word(&mut set, "self");
    push_punct(&mut set, '.');
    push_word(&mut set, "val");
    push_punct(&mut set, '=');
    push_word(&mut set, "val");
    push_punct(&mut set, ';');
    assert(models(set@) =~= seq![
        word("self"),
        punct('.'),
        word("val"),
        punct('='),
        word("val"),
        punct(';'),
    ]);
    push_group(&mut r, Delimiter::Brace, set);
    r
}

fn push_reghold_impl(out: &mut Vec<Token>)
    ensures
        models(final(out)@) == models(old(out)@) + reghold_impl(),
{
    push_word(out, "impl");
    push_lifetime_t(out);
    push_punct(out, '>');
    push_drone2(out, "reg", "RegHold");
    push_lifetime_t(out);
    push_punct(out, ',');
    push_word(out, "Reg");
    push_generic_t(out);
    push_punct(out, '>');
    push_word(out, "for");
    push_word(out, "Hold");
    push_lifetime_t(out);
    push_punct(out, '>');
    push_where_t(out);
    push_group(out, Delimiter::Brace, reghold_body_tokens());
    assert(models(out@) =~= models(old(out)@) + reghold_impl());
}

fn push_fields_items(out: &mut Vec<Token>, p: &RegPlan, val_ty: &String)
    requires
        val_ty@ == value_type(p@.value_bits),
    ensures
        models(final(out)@) == models(old(out)@) + concat_map(
            p@.fields,
            |f: FieldPlanModel| field_items(f, value_type(p@.value_bits)),
        ),
{
    let ghost start = models(out@);
    let n = p.fields.len();
    let mut i: usize = 0;
    while i < n
        invariant
            n == p.fields.len(),
            i <= n,
            val_ty@ == value_type(p@.value_bits),
            models(out@) == start + concat_map(
                p@.fields.take(i as int),
                |f: FieldPlanModel| field_items(f, value_type(p@.value_bits)),
            ),
        decreases n - i,
    {
        proof {
            lemma_concat_map_step(
                p@.fields,
                i as int,
                |f: FieldPlanModel| field_items(f, value_type(p@.value_bits)),
            );
        }
        push_field_items(out, &p.fields[i], val_ty);
        assert(models(out@) =~= start + concat_map(
            p@.fields.take(i + 1),
            |f: FieldPlanModel| field_items(f, value_type(p@.value_bits)),
        ));
        i = i + 1;
    }
    proof {
        assert(p@.fields.take(n as int) =~= p@.fields);
    }
}

fn push_reg_trait_impls(out: &mut Vec<Token>, p: &RegPlan)
    ensures
        models(final(out)@) == models(old(out)@) + concat_map(
            p@.traits,
            |tr: Seq<char>| trait_impl(tr, word("Reg")),
        ),
{
    let ghost start = models(out@);
    let n = p.traits.len();
    let mut i: usize = 0;
    while i < n
        invariant
            n == p.traits.len(),
            i <= n,
            models(out@) == start + concat_map(
                p@.traits.take(i as int),
                |tr: Seq<char>| trait_impl(tr, word("Reg")),
            ),
        decreases n - i,
    {
        proof {
            lemma_concat_map_step(p@.traits, i as int, |tr: Seq<char>| trait_impl(tr, word("Reg")));
        }
        push_trait_impl(out, &p.traits[i], word_token("Reg"));
        assert(models(out@) =~= start + concat_map(
            p@.traits.take(i + 1),
            |tr: Seq<char>| trait_impl(tr, word("Reg")),
        ));
        i = i + 1;
    }
    proof {
        assert(p@.traits.take(n as int) =~= p@.traits);
    }
}

/// The module that a register declaration expands to, written out from its
/// plan.
#[verifier::rlimit(50)]
#[verifier::spinoff_prover]
pub fn expand(p: &RegPlan) -> (r: Vec<Token>)
    ensures
        models(r@) == reg_items(p@),
{
    let val_ty = value_type_name(p.value_bits);
    let mut body: Vec<Token> = Vec::new();
    push_imports(&mut body, p);
    push_word(&mut body, "use");
    push_drone2(&mut body, "bitfield", "Bitfield");
    push_punct(&mut body, ';');
    push_reg_types(&mut body, p, &val_ty);
    push_reg_impls(&mut body, p, &val_ty);
    push_regref_impl(&mut body);
    push_hold_struct(&mut body, p);
    push_reghold_impl(&mut body);
    push_fields_items(&mut body, p, &val_ty);
    push_reg_trait_impls(&mut body, p);
    let ghost bm = imports_items(p@.imports) + seq![word("use")] + drone2("bitfield", "Bitfield")
        + seq![punct(';')] + reg_types(p@) + reg_impls(p@) + hold_items(p@) + concat_map(
        p@.fields,
        |f: FieldPlanModel| field_items(f, value_type(p@.value_bits)),
    ) + concat_map(p@.traits, |tr: Seq<char>| trait_impl(tr, word("Reg")));
    assert(models(body@) =~= bm);
    proof {
        reveal(module_head);
    }
    assert(bm == reg_module_body(p@));
    let mut r: Vec<Token> = Vec::new();
    push_attrs(&mut r, &p.attrs);
    push_vis(&mut r, &p.vis);
    push_word(&mut r, "mod");
    push_name(&mut r, &p.module);
    push_group(&mut r, Delimiter::Brace, body);
    assert(models(r@) =~= reg_items(p@));
    r
}

/// `::drone_core::reg::tag::RegTag`, token by token.
pub open spec fn reg_tag_tokens() -> Seq<TokenModel> {
    seq![
        punct(':'),
        punct(':'),
        word("drone_core"),
        punct(':'),
        punct(':'),
        word("reg"),
        punct(':'),
        punct(':'),
        word("tag"),
        punct(':'),
        punct(':'),
        word("RegTag"),
    ]
}

/// `impl<_T: ::drone_core::reg::tag::RegTag> tr<_T> for ty<_T> {}`, token by
/// token.
pub open spec fn trait_impl_tokens(tr: Seq<char>, ty: Seq<char>) -> Seq<TokenModel> {
    seq![word("impl"), punct('<'), word("_T"), punct(':')] + reg_tag_tokens() + seq![
        punct('>'),
        name(tr),
        punct('<'),
        word("_T"),
        punct('>'),
        word("for"),
        name(ty),
        punct('<'),
        word("_T"),
        punct('>'),
        group(Delimiter::Brace, Seq::empty()),
    ]
}

/// `pub fn n(&mut self) -> &mut Self {
/// ::drone_core::reg::field::WWRegFieldBit::op(&self.reg.member, &mut self.val,); self }`,
/// token by token.
pub open spec fn bit_writer_tokens(n: Seq<char>, member: Seq<char>, op: Seq<char>) -> Seq<
    TokenModel,
> {
    seq![
        word("pub"),
        word("fn"),
        name(n),
        group(Delimiter::Parenthesis, seq![punct('&'), word("mut"), word("self")]),
        punct('-'),
        punct('>'),
        punct('&'),
        word("mut"),
        word("Self"),
        group(
            Delimiter::Brace,
            seq![
                punct(':'),
                punct(':'),
                word("drone_core"),
                punct(':'),
                punct(':'),
                word("reg"),
                punct(':'),
                punct(':'),
                word("field"),
                punct(':'),
                punct(':'),
                word("WWRegFieldBit"),
                punct(':'),
                punct(':'),
                name(op),
                group(
                    Delimiter::Parenthesis,
                    seq![
                        punct('&'),
                        word("self"),
                        punct('.'),
                        word("reg"),
                        punct('.'),
                        name(member),
                        punct(','),
                        punct('&'),
                        word("mut"),
                        word("self"),
                        punct('.'),
                        word("val"),
                        punct(','),
                    ],
                ),
                punct(';'),
                word("self"),
            ],
        ),
    ]
}

/// What stands within the items of field `j` stands within the register's
/// module.
proof fn lemma_field_items_in_module(p: RegPlanModel, j: int, pat: Seq<TokenModel>)
    requires
        0 <= j < p.fields.len(),
        occurs_within(field_items(p.fields[j], value_type(p.value_bits)), pat),
    ensures
        occurs_within(reg_items(p), pat),
{
    let v = value_type(p.value_bits);
    let cl = |f: FieldPlanModel| field_items(f, v);
    let fi = field_items(p.fields[j], v);
    lemma_concat_map_at(p.fields, j, cl);
    let cmf = concat_map(p.fields, cl);
    let k = concat_map(p.fields.take(j), cl).len() as int;
    assert(occurs_at(cmf, fi, k));
    lemma_occurs_within_part(fi, cmf, k, pat);
    let head = module_head(p);
    let tail = concat_map(p.traits, |tr: Seq<char>| trait_impl(tr, word("Reg")));
    let body = head + cmf + tail;
    assert(body == reg_module_body(p));
    lemma_occurs_within_concat(head, cmf, tail, pat);
    let items = reg_items(p);
    assert(items[items.len() - 1] == group(Delimiter::Brace, body));
    lemma_occurs_within_group(items, items.len() - 1, pat);
}

/// Every trait declared on a field is implemented for the field's own type.
proof fn lemma_field_items_implement_traits(f: FieldPlanModel, v: Seq<char>, j: int)
    requires
        0 <= j < f.traits.len(),
    ensures
        occurs_within(field_items(f, v), trait_impl_tokens(f.traits[j], f.ty)),
{
    let cl = |tr: Seq<char>| trait_impl(tr, name(f.ty));
    lemma_concat_map_at(f.traits, j, cl);
    let cm = concat_map(f.traits, cl);
    let k = concat_map(f.traits.take(j), cl).len() as int;
    let pat = trait_impl_tokens(f.traits[j], f.ty);
    assert(trait_impl(f.traits[j], name(f.ty)) =~= pat);
    assert(occurs_at(cm, pat, k));
    let a = field_struct(f) + field_token_impl(f) + field_reg_impl(f);
    let b = width_impl(f) + hold_impl(methods(f, v, true)) + hold_impl(methods(f, v, false));
    assert(field_items(f, v) =~= a + cm + b);
    lemma_occurs_in_concat(a, cm, b);
    lemma_occurs_at_trans(cm, field_items(f, v), pat, k, a.len() as int);
    lemma_occurs_within_at(field_items(f, v), pat, k + a.len());
}

/// The field types implement their declared traits: for every trait written on
/// a field, the register's module holds
/// `impl<_T: ::drone_core::reg::tag::RegTag> Trait<_T> for Field<_T> {}`, with
/// the field's own type.
pub proof fn lemma_fields_implement_their_traits(d: RegModel, i: int, j: int)
    requires
        0 <= i < d.fields.len(),
        0 <= j < d.fields[i].traits.len(),
    ensures
        occurs_within(
            reg_items(reg_plan(d)),
            trait_impl_tokens(d.fields[i].traits[j], field_ty(d.fields[i])),
        ),
{
    let p = reg_plan(d);
    assert(p.fields[i] == field_plan(d.fields[i]));
    lemma_field_items_implement_traits(p.fields[i], value_type(p.value_bits), j);
    lemma_field_items_in_module(p, i, trait_impl_tokens(d.fields[i].traits[j], field_ty(d.fields[i])));
}

/// The register type implements the register's declared traits.
pub proof fn lemma_register_implements_its_traits(d: RegModel, j: int)
    requires
        0 <= j < d.traits.len(),
    ensures
        occurs_within(reg_items(reg_plan(d)), trait_impl_tokens(d.traits[j], "Reg"@)),
{
    let p = reg_plan(d);
    let cl = |tr: Seq<char>| trait_impl(tr, word("Reg"));
    lemma_concat_map_at(p.traits, j, cl);
    let tail = concat_map(p.traits, cl);
    let k = concat_map(p.traits.take(j), cl).len() as int;
    let pat = trait_impl_tokens(d.traits[j], "Reg"@);
    assert(trait_impl(p.traits[j], word("Reg")) =~= pat);
    assert(occurs_at(tail, pat, k));
    lemma_occurs_within_at(tail, pat, k);
    let v = value_type(p.value_bits);
    let head = module_head(p) + concat_map(p.fields, |f: FieldPlanModel| field_items(f, v));
    lemma_occurs_within_concat(head, tail, Seq::empty(), pat);
    let body = head + tail;
    assert(body == reg_module_body(p));
    assert(head + tail + Seq::<TokenModel>::empty() =~= body);
    let items = reg_items(p);
    assert(items[items.len() - 1] == group(Delimiter::Brace, body));
    lemma_occurs_within_group(items, items.len() - 1, pat);
}

/// What stands in the method of accessor `j` of a field stands within the
/// field's items: the method is in the hold impl of the readers or of the
/// writers.
proof fn lemma_accessor_in_field_items(
    f: FieldPlanModel,
    v: Seq<char>,
    j: int,
    pat: Seq<TokenModel>,
    k0: int,
)
    requires
        0 <= j < f.accessors.len(),
        occurs_at(accessor_items(f, v, f.accessors[j]), pat, k0),
    ensures
        occurs_within(field_items(f, v), pat),
{
    let a = f.accessors[j];
    let rd = is_reader(a);
    let cl = |x: AccessorModel|
        if is_reader(x) == rd {
            accessor_items(f, v, x)
        } else {
            Seq::empty()
        };
    let ai = accessor_items(f, v, a);
    assert(cl(a) == ai);
    let ms = methods(f, v, rd);
    assert(ms == concat_map(f.accessors, cl));
    lemma_concat_map_at(f.accessors, j, cl);
    let k = concat_map(f.accessors.take(j), cl).len() as int;
    lemma_occurs_at_trans(ai, ms, pat, k0, k);
    lemma_occurs_within_at(ms, pat, k0 + k);
    let h = hold_impl(ms);
    assert(ms.len() > 0);
    assert(h[h.len() - 1] == group(Delimiter::Brace, ms));
    lemma_occurs_within_group(h, h.len() - 1, pat);
    let base = field_struct(f) + field_token_impl(f) + field_reg_impl(f) + concat_map(
        f.traits,
        |tr: Seq<char>| trait_impl(tr, name(f.ty)),
    ) + width_impl(f);
    if rd {
        assert(field_items(f, v) =~= base + h + hold_impl(methods(f, v, false)));
        lemma_occurs_within_concat(base, h, hold_impl(methods(f, v, false)), pat);
    } else {
        let before = base + hold_impl(methods(f, v, true));
        assert(field_items(f, v) =~= before + h + Seq::<TokenModel>::empty());
        lemma_occurs_within_concat(before, h, Seq::empty(), pat);
    }
}

/// `& self . reg . member , & [mut] self . val ,`, token by token.
pub open spec fn member_args_tokens(member: Seq<char>, writes: bool) -> Seq<TokenModel> {
    seq![
        punct('&'),
        word("self"),
        punct('.'),
        word("reg"),
        punct('.'),
        name(member),
        punct(','),
        punct('&'),
    ] + (if writes {
        seq![word("mut")]
    } else {
        Seq::empty()
    }) + seq![word("self"), punct('.'), word("val"), punct(',')]
}

/// `::drone_core::reg::field::tr::op`, token by token.
pub open spec fn field_op_tokens(tr: Seq<char>, op: Seq<char>) -> Seq<TokenModel> {
    seq![
        punct(':'),
        punct(':'),
        word("drone_core"),
        punct(':'),
        punct(':'),
        word("reg"),
        punct(':'),
        punct(':'),
        word("field"),
        punct(':'),
        punct(':'),
        name(tr),
        punct(':'),
        punct(':'),
        name(op),
    ]
}

/// `pub fn member(&self) -> ret { ::drone_core::reg::field::tr::read(&self.reg.member, &self.val,) }`,
/// token by token.
pub open spec fn reader_tokens(member: Seq<char>, ret: Seq<char>, tr: Seq<char>) -> Seq<TokenModel> {
    seq![
        word("pub"),
        word("fn"),
        name(member),
        group(Delimiter::Parenthesis, seq![punct('&'), word("self")]),
        punct('-'),
        punct('>'),
        name(ret),
        group(
            Delimiter::Brace,
            field_op_tokens(tr, "read"@) + seq![
                group(Delimiter::Parenthesis, member_args_tokens(member, false)),
            ],
        ),
    ]
}

/// `pub fn n(&mut self, bits: val_ty) -> &mut Self {
/// ::drone_core::reg::field::WWRegFieldBits::write(&self.reg.member, &mut self.val, bits,); self }`,
/// token by token.
pub open spec fn bits_writer_tokens(n: Seq<char>, member: Seq<char>, val_ty: Seq<char>) -> Seq<
    TokenModel,
> {
    seq![
        word("pub"),
        word("fn"),
        name(n),
        group(
            Delimiter::Parenthesis,
            seq![
                punct('&'),
                word("mut"),
                word("self"),
                punct(','),
                word("bits"),
                punct(':'),
                name(val_ty),
            ],
        ),
        punct('-'),
        punct('>'),
        punct('&'),
        word("mut"),
        word("Self"),
        group(
            Delimiter::Brace,
            field_op_tokens("WWRegFieldBits"@, "write"@) + seq![
                group(
                    Delimiter::Parenthesis,
                    member_args_tokens(member, true) + seq![word("bits"), punct(',')],
                ),
                punct(';'),
                word("self"),
            ],
        ),
    ]
}

/// The write accessor at `j` of a field, a one-bit writer named `n`, is a
/// method of that name that calls the operation `op` of `WWRegFieldBit` on
/// the field's member.
proof fn lemma_field_bit_writer(f: FieldPlanModel, v: Seq<char>, j: int, n: Seq<char>, op: Seq<char>)
    requires
        0 <= j < f.accessors.len(),
        (f.accessors[j] == AccessorModel::SetBit(n) && op == "set"@) || (f.accessors[j]
            == AccessorModel::ClearBit(n) && op == "clear"@) || (f.accessors[j]
            == AccessorModel::ToggleBit(n) && op == "toggle"@),
    ensures
        occurs_within(field_items(f, v), bit_writer_tokens(n, f.member, op)),
{
    let a = f.accessors[j];
    let pat = bit_writer_tokens(n, f.member, op);
    let args = field_args(f.member, true);
    assert(args + Seq::<TokenModel>::empty() =~= args);
    assert(args =~= seq![
        punct('&'),
        word("self"),
        punct('.'),
        word("reg"),
        punct('.'),
        name(f.member),
        punct(','),
        punct('&'),
        word("mut"),
        word("self"),
        punct('.'),
        word("val"),
        punct(','),
    ]);
    reveal_strlit("set");
    reveal_strlit("clear");
    reveal_strlit("toggle");
    let opw: &str = if a is SetBit {
        "set"
    } else if a is ClearBit {
        "clear"
    } else {
        "toggle"
    };
    assert(word(opw) == name(op));
    let call = drone3("reg", "field", "WWRegFieldBit") + sep_word(opw) + seq![
        group(Delimiter::Parenthesis, args + Seq::<TokenModel>::empty()),
        punct(';'),
        word("self"),
    ];
    assert(call =~= pat[9]->Group_1);
    let wm = write_method(
        f,
        n,
        seq![punct('&'), word("mut"), word("self")],
        "WWRegFieldBit",
        opw,
        Seq::empty(),
    );
    assert(wm =~= pat);
    let ai = accessor_items(f, v, a);
    let pre = print_attrs(f.attrs) + inline_attr();
    assert(ai =~= pre + pat + Seq::<TokenModel>::empty());
    lemma_occurs_in_concat(pre, pat, Seq::empty());
    lemma_accessor_in_field_items(f, v, j, pat, pre.len() as int);
}

/// The reader at `j` of a field reads the field's member with `tr::read`
/// and returns `ret`.
proof fn lemma_field_reader(f: FieldPlanModel, v: Seq<char>, j: int)
    requires
        0 <= j < f.accessors.len(),
        f.accessors[j] == AccessorModel::ReadBit(f.member) || f.accessors[j]
            == AccessorModel::ReadBits(f.member),
    ensures
        f.accessors[j] is ReadBit ==> occurs_within(
            field_items(f, v),
            reader_tokens(f.member, "bool"@, "RRRegFieldBit"@),
        ),
        f.accessors[j] is ReadBits ==> occurs_within(
            field_items(f, v),
            reader_tokens(f.member, v, "RRRegFieldBits"@),
        ),
{
    let a = f.accessors[j];
    assert(field_args(f.member, false) =~= member_args_tokens(f.member, false));
    reveal_strlit("read");
    reveal_strlit("bool");
    reveal_strlit("RRRegFieldBit");
    reveal_strlit("RRRegFieldBits");
    let pre = print_attrs(f.attrs) + inline_attr();
    let ai = accessor_items(f, v, a);
    if a is ReadBit {
        let pat = reader_tokens(f.member, "bool"@, "RRRegFieldBit"@);
        assert(drone3("reg", "field", "RRRegFieldBit") + sep_word("read") =~= field_op_tokens(
            "RRRegFieldBit"@,
            "read"@,
        ));
        assert(read_method(f, f.member, word("bool"), "RRRegFieldBit") =~= pat);
        assert(ai =~= pre + pat + Seq::<TokenModel>::empty());
        lemma_occurs_in_concat(pre, pat, Seq::empty());
        lemma_accessor_in_field_items(f, v, j, pat, pre.len() as int);
    } else {
        let pat = reader_tokens(f.member, v, "RRRegFieldBits"@);
        assert(drone3("reg", "field", "RRRegFieldBits") + sep_word("read") =~= field_op_tokens(
            "RRRegFieldBits"@,
            "read"@,
        ));
        assert(read_method(f, f.member, name(v), "RRRegFieldBits") =~= pat);
        assert(ai =~= pre + pat + Seq::<TokenModel>::empty());
        lemma_occurs_in_concat(pre, pat, Seq::empty());
        lemma_accessor_in_field_items(f, v, j, pat, pre.len() as int);
    }
}

/// The writer at `j` of a wider field, named `n`, writes the field's member
/// with `WWRegFieldBits::write`, taking its bits as a value of `v`.
proof fn lemma_field_bits_writer(f: FieldPlanModel, v: Seq<char>, j: int, n: Seq<char>)
    requires
        0 <= j < f.accessors.len(),
        f.accessors[j] == AccessorModel::WriteBits(n),
    ensures
        occurs_within(field_items(f, v), bits_writer_tokens(n, f.member, v)),
{
    let a = f.accessors[j];
    reveal_strlit("write");
    reveal_strlit("WWRegFieldBits");
    let pat = bits_writer_tokens(n, f.member, v);
    assert(field_args(f.member, true) =~= member_args_tokens(f.member, true));
    assert(drone3("reg", "field", "WWRegFieldBits") + sep_word("write") =~= field_op_tokens(
        "WWRegFieldBits"@,
        "write"@,
    ));
    let params = seq![
        punct('&'),
        word("mut"),
        word("self"),
        punct(','),
        word("bits"),
        punct(':'),
        name(v),
    ];
    assert(write_method(f, n, params, "WWRegFieldBits", "write", seq![word("bits"), punct(',')])
        =~= pat);
    let pre = print_attrs(f.attrs) + inline_attr();
    let ai = accessor_items(f, v, a);
    assert(ai =~= pre + pat + Seq::<TokenModel>::empty());
    lemma_occurs_in_concat(pre, pat, Seq::empty());
    lemma_accessor_in_field_items(f, v, j, pat, pre.len() as int);
}

/// The name of the value type of a register declared with size literal
/// `size`: `u` and the size in bits, taken modulo 256.
pub open spec fn declared_value_type(size: Seq<char>) -> Seq<char> {
    seq!['u'] + decimal((int_literal_value(size).unwrap() % 256) as nat)
}

/// The readers read what they are named after: for a field with
/// `RRRegField`, the register's module holds a method named after the
/// field's member that reads the member with `RRRegFieldBit::read` and
/// returns `bool` where the field is one bit wide, and with
/// `RRRegFieldBits::read`, returning the value type, where it is wider.
pub proof fn lemma_readers_read_their_field(d: RegModel, i: int)
    requires
        0 <= i < d.fields.len(),
        d.fields[i].traits.contains("RRRegField"@),
    ensures
        ({
            let m = unkeywordized(snake_case(d.fields[i].ident));
            if int_literal_value(d.fields[i].width) == Some(1u64) {
                occurs_within(reg_items(reg_plan(d)), reader_tokens(m, "bool"@, "RRRegFieldBit"@))
            } else {
                occurs_within(
                    reg_items(reg_plan(d)),
                    reader_tokens(m, declared_value_type(d.size), "RRRegFieldBits"@),
                )
            }
        }),
{
    let p = reg_plan(d);
    let f = d.fields[i];
    let fp = p.fields[i];
    assert(fp == field_plan(f));
    lemma_field_accessors_by_width(d, i);
    let v = value_type(p.value_bits);
    assert(v == declared_value_type(d.size));
    lemma_field_reader(fp, v, 0);
    let m = unkeywordized(snake_case(f.ident));
    if int_literal_value(f.width) == Some(1u64) {
        lemma_field_items_in_module(p, i, reader_tokens(m, "bool"@, "RRRegFieldBit"@));
    } else {
        lemma_field_items_in_module(p, i, reader_tokens(m, v, "RRRegFieldBits"@));
    }
}

/// The writer of a wider field with `WWRegField` is named `write_field` and
/// writes the field's member with `WWRegFieldBits::write`, taking its bits as
/// a value of the register's value type.
pub proof fn lemma_bits_writer_writes_its_field(d: RegModel, i: int)
    requires
        0 <= i < d.fields.len(),
        d.fields[i].traits.contains("WWRegField"@),
        int_literal_value(d.fields[i].width) != Some(1u64),
    ensures
        occurs_within(
            reg_items(reg_plan(d)),
            bits_writer_tokens(
                "write_"@ + snake_case(d.fields[i].ident),
                unkeywordized(snake_case(d.fields[i].ident)),
                declared_value_type(d.size),
            ),
        ),
{
    let p = reg_plan(d);
    let f = d.fields[i];
    let fp = p.fields[i];
    assert(fp == field_plan(f));
    lemma_field_accessors_by_width(d, i);
    let r: int = if f.traits.contains("RRRegField"@) {
        1
    } else {
        0
    };
    assert(fp.accessors.skip(r)[0] == fp.accessors[r]);
    let v = value_type(p.value_bits);
    let n = "write_"@ + snake_case(f.ident);
    lemma_field_bits_writer(fp, v, r, n);
    lemma_field_items_in_module(p, i, bits_writer_tokens(n, fp.member, v));
}

/// The one-bit writers call what their names say: for a one-bit field with
/// `WWRegField`, the register's module holds a method `set_field` that calls
/// `WWRegFieldBit::set`, a method `clear_field` that calls
/// `WWRegFieldBit::clear` and a method `toggle_field` that calls
/// `WWRegFieldBit::toggle`, each on the field's member and the held value.
pub proof fn lemma_bit_writers_call_their_operation(d: RegModel, i: int)
    requires
        0 <= i < d.fields.len(),
        d.fields[i].traits.contains("WWRegField"@),
        int_literal_value(d.fields[i].width) == Some(1u64),
    ensures
        ({
            let snk = snake_case(d.fields[i].ident);
            let m = unkeywordized(snk);
            &&& occurs_within(reg_items(reg_plan(d)), bit_writer_tokens("set_"@ + snk, m, "set"@))
            &&& occurs_within(
                reg_items(reg_plan(d)),
                bit_writer_tokens("clear_"@ + snk, m, "clear"@),
            )
            &&& occurs_within(
                reg_items(reg_plan(d)),
                bit_writer_tokens("toggle_"@ + snk, m, "toggle"@),
            )
        }),
{
    let p = reg_plan(d);
    let f = d.fields[i];
    let fp = p.fields[i];
    assert(fp == field_plan(f));
    lemma_field_accessors_by_width(d, i);
    let snk = snake_case(f.ident);
    let m = unkeywordized(snk);
    let r: int = if f.traits.contains("RRRegField"@) {
        1
    } else {
        0
    };
    let acc = fp.accessors;
    assert(acc.skip(r)[0] == acc[r]);
    assert(acc.skip(r)[1] == acc[r + 1]);
    assert(acc.skip(r)[2] == acc[r + 2]);
    let v = value_type(p.value_bits);
    lemma_field_bit_writer(fp, v, r, "set_"@ + snk, "set"@);
    lemma_field_bit_writer(fp, v, r + 1, "clear_"@ + snk, "clear"@);
    lemma_field_bit_writer(fp, v, r + 2, "toggle_"@ + snk, "toggle"@);
    lemma_field_items_in_module(p, i, bit_writer_tokens("set_"@ + snk, m, "set"@));
    lemma_field_items_in_module(p, i, bit_writer_tokens("clear_"@ + snk, m, "clear"@));
    lemma_field_items_in_module(p, i, bit_writer_tokens("toggle_"@ + snk, m, "toggle"@));
}

/// `const n: usize = lit;`, token by token.
pub open spec fn usize_const_tokens(n: Seq<char>, lit: Seq<char>) -> Seq<TokenModel> {
    seq![
        word("const"),
        name(n),
        punct(':'),
        word("usize"),
        punct('='),
        TokenModel::Literal(lit),
        punct(';'),
    ]
}

/// The field impl of a field's type holds its offset and width constants.
proof fn lemma_field_reg_impl_consts(f: FieldPlanModel)
    ensures
        occurs_within(
            field_reg_impl(f),
            usize_const_tokens("OFFSET"@, f.offset) + usize_const_tokens("WIDTH"@, f.width),
        ),
{
    reveal_strlit("OFFSET");
    reveal_strlit("WIDTH");
    let pat = usize_const_tokens("OFFSET"@, f.offset) + usize_const_tokens("WIDTH"@, f.width);
    let fri = field_reg_impl(f);
    let inner = seq![word("type"), word("Reg"), punct('='), word("Reg")] + generic_t() + seq![
        punct(';'),
    ] + tagged_type("URegField", name(f.ty), "Urt") + tagged_type("SRegField", name(f.ty), "Srt")
        + tagged_type("CRegField", name(f.ty), "Crt");
    let content = inner + const_usize("OFFSET", f.offset) + const_usize("WIDTH", f.width);
    assert(fri[fri.len() - 1] == group(Delimiter::Brace, content));
    assert(content =~= inner + pat + Seq::<TokenModel>::empty());
    lemma_occurs_in_concat(inner, pat, Seq::empty());
    lemma_occurs_within_at(content, pat, inner.len() as int);
    lemma_occurs_within_group(fri, fri.len() - 1, pat);
}

/// Each field type states the offset and the width written for the field:
/// `const OFFSET: usize = offset; const WIDTH: usize = width;`.
pub proof fn lemma_field_offset_and_width(d: RegModel, i: int)
    requires
        0 <= i < d.fields.len(),
    ensures
        occurs_within(
            reg_items(reg_plan(d)),
            usize_const_tokens("OFFSET"@, d.fields[i].offset) + usize_const_tokens(
                "WIDTH"@,
                d.fields[i].width,
            ),
        ),
{
    let p = reg_plan(d);
    let fp = p.fields[i];
    assert(fp == field_plan(d.fields[i]));
    let pat = usize_const_tokens("OFFSET"@, fp.offset) + usize_const_tokens("WIDTH"@, fp.width);
    lemma_field_reg_impl_consts(fp);
    let v = value_type(p.value_bits);
    let fri = field_reg_impl(fp);
    let a = field_struct(fp) + field_token_impl(fp);
    let b = concat_map(fp.traits, |tr: Seq<char>| trait_impl(tr, name(fp.ty))) + width_impl(fp)
        + hold_impl(methods(fp, v, true)) + hold_impl(methods(fp, v, false));
    assert(field_items(fp, v) =~= a + fri + b);
    lemma_occurs_within_concat(a, fri, b, pat);
    lemma_field_items_in_module(p, i, pat);
}

/// What stands within the head of a register's module stands within the
/// module.
proof fn lemma_head_in_module(p: RegPlanModel, pat: Seq<TokenModel>)
    requires
        occurs_within(module_head(p), pat),
    ensures
        occurs_within(reg_items(p), pat),
{
    let rest = concat_map(p.fields, |f: FieldPlanModel| field_items(f, value_type(p.value_bits)))
        + concat_map(p.traits, |tr: Seq<char>| trait_impl(tr, word("Reg")));
    let body = reg_module_body(p);
    assert(body =~= Seq::<TokenModel>::empty() + module_head(p) + rest);
    lemma_occurs_within_concat(Seq::empty(), module_head(p), rest, pat);
    let items = reg_items(p);
    assert(items[items.len() - 1] == group(Delimiter::Brace, body));
    lemma_occurs_within_group(items, items.len() - 1, pat);
}

/// `const ADDRESS: usize = address; const RESET: vt = reset;`, token by
/// token.
pub open spec fn address_reset_tokens(address: Seq<char>, vt: Seq<char>, reset: Seq<char>) -> Seq<
    TokenModel,
> {
    usize_const_tokens("ADDRESS"@, address) + seq![
        word("const"),
        word("RESET"),
        punct(':'),
        name(vt),
        punct('='),
        TokenModel::Literal(reset),
        punct(';'),
    ]
}

/// `pub struct Val(vt);`, token by token.
pub open spec fn value_struct_tokens(vt: Seq<char>) -> Seq<TokenModel> {
    seq![
        word("pub"),
        word("struct"),
        word("Val"),
        group(Delimiter::Parenthesis, seq![name(vt)]),
        punct(';'),
    ]
}

proof fn lemma_reg_impls_consts(p: RegPlanModel)
    ensures
        occurs_within(
            reg_impls(p),
            address_reset_tokens(p.address, value_type(p.value_bits), p.reset),
        ),
{
    reveal_strlit("ADDRESS");
    let vt = value_type(p.value_bits);
    let pat = address_reset_tokens(p.address, vt, p.reset);
    let x = seq![word("type"), word("Val"), punct('='), word("Val"), punct(';')] + tagged_type(
        "UReg",
        word("Reg"),
        "Urt",
    ) + tagged_type("SReg", word("Reg"), "Srt") + tagged_type("CReg", word("Reg"), "Crt");
    let y = inline_attr() + seq![
        word("unsafe"),
        word("fn"),
        word("val_from"),
        group(Delimiter::Parenthesis, seq![word("bits"), punct(':'), name(vt)]),
        punct('-'),
        punct('>'),
        word("Val"),
        group(Delimiter::Brace, seq![word("Val"), group(Delimiter::Parenthesis, seq![word("bits")])]),
    ];
    let body = reg_impl_body(p);
    assert(body =~= x + pat + y);
    lemma_occurs_in_concat(x, pat, y);
    lemma_occurs_within_at(body, pat, x.len() as int);
    let ri = reg_impls(p);
    assert(ri[ri.len() - 1] == group(Delimiter::Brace, body));
    lemma_occurs_within_group(ri, ri.len() - 1, pat);
}

proof fn lemma_head_parts(p: RegPlanModel, pat: Seq<TokenModel>)
    requires
        occurs_within(reg_impls(p), pat) || occurs_within(reg_types(p), pat),
    ensures
        occurs_within(module_head(p), pat),
{
    reveal(module_head);
    let pre = imports_items(p.imports) + seq![word("use")] + drone2("bitfield", "Bitfield") + seq![
        punct(';'),
    ];
    if occurs_within(reg_impls(p), pat) {
        assert(module_head(p) =~= (pre + reg_types(p)) + reg_impls(p) + hold_items(p));
        lemma_occurs_within_concat(
            pre + reg_types(p),
            reg_impls(p),
            hold_items(p),
            pat,
        );
    } else {
        assert(module_head(p) =~= pre + reg_types(p) + (reg_impls(p) + hold_items(p)));
        lemma_occurs_within_concat(
            pre,
            reg_types(p),
            reg_impls(p) + hold_items(p),
            pat,
        );
    }
}

proof fn lemma_reg_types_value(p: RegPlanModel)
    ensures
        occurs_within(reg_types(p), value_struct_tokens(value_type(p.value_bits))),
{
    let pat = value_struct_tokens(value_type(p.value_bits));
    let a = print_attrs(p.attrs) + derive_attr(true);
    let b = print_attrs(p.attrs) + derive_attr(false) + seq![word("pub"), word("struct"), word("Reg")]
        + bounded_t() + seq![group(Delimiter::Brace, struct_members(p))];
    assert(reg_types(p) =~= a + pat + b);
    lemma_occurs_in_concat(a, pat, b);
    lemma_occurs_within_at(reg_types(p), pat, a.len() as int);
}

/// The register impl states the address and the reset value written for the
/// register, the reset value typed by the value type:
/// `const ADDRESS: usize = address; const RESET: uN = reset;`, and the value
/// type is `pub struct Val(uN);`.
pub proof fn lemma_register_address_and_reset(d: RegModel)
    ensures
        occurs_within(
            reg_items(reg_plan(d)),
            address_reset_tokens(d.address, declared_value_type(d.size), d.reset),
        ),
        occurs_within(reg_items(reg_plan(d)), value_struct_tokens(declared_value_type(d.size))),
{
    let p = reg_plan(d);
    assert(value_type(p.value_bits) == declared_value_type(d.size));
    lemma_reg_impls_consts(p);
    lemma_head_parts(p, address_reset_tokens(d.address, declared_value_type(d.size), d.reset));
    lemma_head_in_module(p, address_reset_tokens(d.address, declared_value_type(d.size), d.reset));
    lemma_reg_types_value(p);
    lemma_head_parts(p, value_struct_tokens(declared_value_type(d.size)));
    lemma_head_in_module(p, value_struct_tokens(declared_value_type(d.size)));
}

/// The module is named after the block and the register in snake case,
/// joined by an underscore, and follows the register's attributes and
/// visibility.
pub proof fn lemma_module_name(d: RegModel)
    ensures
        occurs_at(
            reg_items(reg_plan(d)),
            seq![word("mod"), name(snake_case(d.block) + "_"@ + snake_case(d.ident))],
            (print_attrs(d.attrs) + print_vis(d.vis)).len() as int,
        ),
{
    let p = reg_plan(d);
    let pre = print_attrs(d.attrs) + print_vis(d.vis);
    let x = seq![word("mod"), name(snake_case(d.block) + "_"@ + snake_case(d.ident))];
    let rest = seq![group(Delimiter::Brace, reg_module_body(p))];
    assert(reg_items(p) =~= pre + x + rest);
    lemma_occurs_in_concat(pre, x, rest);
}

} // verus!
