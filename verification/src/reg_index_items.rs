//! The items that a register index expands to, written out as tokens from its
//! plan: a module per block that re-exports the block's registers, and a
//! `macro_rules` macro that declares a struct with a member per register.

use vstd::prelude::*;
use crate::printing::{
    lemma_concat_map_at, lemma_occurs_in_concat, lemma_occurs_within_at,
    lemma_occurs_within_concat, lemma_occurs_within_group, lemma_occurs_within_part, occurs_at,
    occurs_within,
    concat_map, group, lemma_concat_map_step, name, punct, push_token, push_attrs, push_group, push_name, push_path, push_path_sep, push_punct,
    push_vis, push_word,
};
use crate::reg_index::{
    block_plan, index_plan, lemma_member_of_entry, reg_use, total_regs,
    BlockPlan, BlockPlanModel, IndexPlan, IndexPlanModel, Member, MemberModel, RegUse, RegUseModel,
};
use crate::reg_index_syntax::RegIndexModel;
use crate::keyword::unkeywordized;
use crate::names::{pascal_case, snake_case};
use crate::syntax::VisModel;
use crate::syntax::{path_sep, print_attrs, print_path, print_vis, word, Path, PathModel};
use crate::token::{models, Delimiter, Token, TokenModel};

verus! {

/// `::drone_core::reg::last`
pub open spec fn drone_reg_path(last: &str) -> Seq<TokenModel> {
    path_sep() + seq![word("drone_core")] + path_sep() + seq![word("reg")] + path_sep() + seq![
        word(last),
    ]
}

/// The two re-exports of a register in its block's module.
pub open spec fn use_items(root: PathModel, u: RegUseModel) -> Seq<TokenModel> {
    seq![word("pub"), word("use")] + print_path(root) + path_sep() + seq![
        name(u.long),
        word("as"),
        name(u.short),
        punct(';'),
    ] + seq![word("pub"), word("use")] + print_path(root) + path_sep() + seq![name(u.long)]
        + path_sep() + seq![word("Reg"), word("as"), name(u.ty), punct(';')]
}

/// The module of one block.
pub open spec fn block_items(root: PathModel, b: BlockPlanModel) -> Seq<TokenModel> {
    print_attrs(b.attrs) + print_vis(b.vis) + seq![
        word("mod"),
        name(b.module),
        group(Delimiter::Brace, concat_map(b.uses, |u: RegUseModel| use_items(root, u))),
    ]
}

/// `$crate`, followed by `::` and the macro root path where there is one.
pub open spec fn crate_prefix(mrp: Option<PathModel>) -> Seq<TokenModel> {
    seq![punct('$'), word("crate")] + match mrp {
        Some(p) => path_sep() + print_path(p),
        None => Seq::empty(),
    }
}

/// The declaration of one member of the struct.
pub open spec fn def_items(mrp: Option<PathModel>, m: MemberModel) -> Seq<TokenModel> {
    print_attrs(m.attrs) + seq![
        punct('#'),
        group(
            Delimiter::Bracket,
            seq![word("allow"), group(Delimiter::Parenthesis, seq![word("missing_docs")])],
        ),
        word("pub"),
        name(m.field),
        punct(':'),
    ] + crate_prefix(mrp) + path_sep() + seq![name(m.module)] + path_sep() + seq![
        name(m.ty),
        punct('<'),
    ] + drone_reg_path("Srt") + seq![punct(','), punct('>'), punct(',')]
}

/// The initializer of one member of the struct.
pub open spec fn ctor_items(mrp: Option<PathModel>, m: MemberModel) -> Seq<TokenModel> {
    seq![name(m.field), punct(':'), punct('<')] + crate_prefix(mrp) + path_sep() + seq![
        name(m.module),
    ] + path_sep() + seq![name(m.ty), punct('<'), word("_"), punct('>'), word("as")]
        + drone_reg_path("Reg") + seq![punct('<'), word("_"), punct('>'), punct('>')] + path_sep()
        + seq![word("new"), group(Delimiter::Parenthesis, Seq::empty()), punct(',')]
}

/// `$(#[$attr])* $vis struct $ty`
pub open spec fn struct_head() -> Seq<TokenModel> {
    seq![
        punct('$'),
        group(
            Delimiter::Parenthesis,
            seq![punct('#'), group(Delimiter::Bracket, seq![punct('$'), word("attr")])],
        ),
        punct('*'),
        punct('$'),
        word("vis"),
        word("struct"),
        punct('$'),
        word("ty"),
    ]
}

/// `$(#[$attr:meta])* $vis:vis struct $ty:ident;`
pub open spec fn matcher_head() -> Seq<TokenModel> {
    seq![
        punct('$'),
        group(
            Delimiter::Parenthesis,
            seq![
                punct('#'),
                group(Delimiter::Bracket, seq![punct('$'), word("attr"), punct(':'), word("meta")]),
            ],
        ),
        punct('*'),
        punct('$'),
        word("vis"),
        punct(':'),
        word("vis"),
        word("struct"),
        punct('$'),
        word("ty"),
        punct(':'),
        word("ident"),
        punct(';'),
    ]
}

/// `$($v)*`
pub open spec fn repeat(v: &str) -> Seq<TokenModel> {
    seq![punct('$'), group(Delimiter::Parenthesis, seq![punct('$'), word(v)]), punct('*')]
}

/// `$($v:tt)*`
pub open spec fn repeat_matcher(v: &str) -> Seq<TokenModel> {
    seq![
        punct('$'),
        group(Delimiter::Parenthesis, seq![punct('$'), word(v), punct(':'), word("tt")]),
        punct('*'),
    ]
}

pub open spec fn all_defs(p: IndexPlanModel) -> Seq<TokenModel> {
    concat_map(p.members, |m: MemberModel| def_items(p.macro_root_path, m))
}

pub open spec fn all_ctors(p: IndexPlanModel) -> Seq<TokenModel> {
    concat_map(p.members, |m: MemberModel| ctor_items(p.macro_root_path, m))
}

/// What the second rule of the generated macro expands to: the members handed
/// on to the previous macro, or else the struct and its constructor.
pub open spec fn macro_body(p: IndexPlanModel) -> Seq<TokenModel> {
    match p.prev_macro {
        Some(prev) => seq![
            name(prev),
            punct('!'),
            group(
                Delimiter::Brace,
                struct_head() + seq![
                    punct(';'),
                    group(Delimiter::Brace, all_defs(p) + repeat("def")),
                    group(Delimiter::Brace, all_ctors(p) + repeat("ctor")),
                ],
            ),
        ],
        None => struct_head() + seq![
            group(Delimiter::Brace, all_defs(p) + repeat("def")),
            word("impl"),
        ] + drone_reg_path("RegTokens") + seq![
            word("for"),
            punct('$'),
            word("ty"),
            group(
                Delimiter::Brace,
                seq![
                    word("unsafe"),
                    word("fn"),
                    word("new"),
                    group(Delimiter::Parenthesis, Seq::empty()),
                    punct('-'),
                    punct('>'),
                    word("Self"),
                    group(
                        Delimiter::Brace,
                        seq![word("Self"), group(Delimiter::Brace, all_ctors(p) + repeat("ctor"))],
                    ),
                ],
            ),
        ],
    }
}

/// The two rules of the generated macro: one that starts with no members, and
/// one that adds this index's members to those it is given.
pub open spec fn macro_rules_body(p: IndexPlanModel) -> Seq<TokenModel> {
    seq![
        group(Delimiter::Parenthesis, matcher_head()),
        punct('='),
        punct('>'),
        group(
            Delimiter::Brace,
            seq![
                name(p.macro_name),
                punct('!'),
                group(
                    Delimiter::Brace,
                    struct_head() + seq![
                        punct(';'),
                        group(Delimiter::Brace, Seq::empty()),
                        group(Delimiter::Brace, Seq::empty()),
                    ],
                ),
            ],
        ),
        punct(';'),
        group(
            Delimiter::Parenthesis,
            matcher_head() + seq![
                group(Delimiter::Brace, repeat_matcher("def")),
                group(Delimiter::Brace, repeat_matcher("ctor")),
            ],
        ),
        punct('='),
        punct('>'),
        group(Delimiter::Brace, macro_body(p)),
        punct(';'),
    ]
}

/// The generated macro, exported from the crate where the index is public.
pub open spec fn macro_items(p: IndexPlanModel) -> Seq<TokenModel> {
    print_attrs(p.macro_attrs) + (if p.exported {
        seq![punct('#'), group(Delimiter::Bracket, seq![word("macro_export")])]
    } else {
        Seq::empty()
    }) + seq![
        word("macro_rules"),
        punct('!'),
        name(p.macro_name),
        group(Delimiter::Brace, macro_rules_body(p)),
    ]
}

/// All the items of a register index: the block modules, then the macro.
pub open spec fn index_items(p: IndexPlanModel) -> Seq<TokenModel> {
    concat_map(p.blocks, |b: BlockPlanModel| block_items(p.root_path, b)) + macro_items(p)
}


fn push_drone_reg_path(out: &mut Vec<Token>, last: &str)
    ensures
        models(final(out)@) == models(old(out)@) + drone_reg_path(last),
{
    push_path_sep(out);
    push_word(out, "drone_core");
    push_path_sep(out);
    push_word(out, "reg");
    push_path_sep(out);
    push_word(out, last);
    assert(models(out@) =~= models(old(out)@) + drone_reg_path(last));
}

fn push_use_items(out: &mut Vec<Token>, root: &Path, u: &RegUse)
    ensures
        models(final(out)@) == models(old(out)@) + use_items(root@, u@),
{
    let ghost start = models(out@);
    push_word(out, "pub");
    push_word(out, "use");
    push_path(out, root);
    push_path_sep(out);
    push_name(out, &u.long);
    push_word(out, "as");
    push_name(out, &u.short);
    push_punct(out, ';');
    let ghost first = seq![word("pub"), word("use")] + print_path(root@) + path_sep() + seq![
        name(u@.long),
        word("as"),
        name(u@.short),
        punct(';'),
    ];
    assert(models(out@) =~= start + first);
    push_word(out, "pub");
    push_word(out, "use");
    push_path(out, root);
    push_path_sep(out);
    push_name(out, &u.long);
    push_path_sep(out);
    push_word(out, "Reg");
    push_word(out, "as");
    push_name(out, &u.ty);
    push_punct(out, ';');
    let ghost second = seq![word("pub"), word("use")] + print_path(root@) + path_sep() + seq![
        name(u@.long),
    ] + path_sep() + seq![word("Reg"), word("as"), name(u@.ty), punct(';')];
    assert(models(out@) =~= start + first + second);
    assert(use_items(root@, u@) =~= first + second);
}

fn push_block_items(out: &mut Vec<Token>, root: &Path, b: &BlockPlan)
    ensures
        models(final(out)@) == models(old(out)@) + block_items(root@, b@),
{
    let ghost start = models(out@);
    push_attrs(out, &b.attrs);
    push_vis(out, &b.vis);
    push_word(out, "mod");
    push_name(out, &b.module);
    let mut inner: Vec<Token> = Vec::new();
    let n = b.uses.len();
    let mut i: usize = 0;
    while i < n
        invariant
            n == b.uses.len(),
            i <= n,
            models(inner@) == concat_map(
                b@.uses.take(i as int),
                |u: RegUseModel| use_items(root@, u),
            ),
        decreases n - i,
    {
        proof {
            lemma_concat_map_step(b@.uses, i as int, |u: RegUseModel| use_items(root@, u));
        }
        push_use_items(&mut inner, root, &b.uses[i]);
        i = i + 1;
    }
    proof {
        assert(b@.uses.take(n as int) =~= b@.uses);
    }
    push_group(out, Delimiter::Brace, inner);
    assert(models(out@) =~= start + block_items(root@, b@));
}

/// The items of the block modules of a plan.
fn push_blocks(out: &mut Vec<Token>, p: &IndexPlan)
    ensures
        models(final(out)@) == models(old(out)@) + concat_map(
            p@.blocks,
            |b: BlockPlanModel| block_items(p@.root_path, b),
        ),
{
    let ghost start = models(out@);
    let n = p.blocks.len();
    let mut i: usize = 0;
    while i < n
        invariant
            n == p.blocks.len(),
            i <= n,
            models(out@) == start + concat_map(
                p@.blocks.take(i as int),
                |b: BlockPlanModel| block_items(p@.root_path, b),
            ),
        decreases n - i,
    {
        proof {
            lemma_concat_map_step(
                p@.blocks,
                i as int,
                |b: BlockPlanModel| block_items(p@.root_path, b),
            );
        }
        push_block_items(out, &p.root_path, &p.blocks[i]);
        assert(models(out@) =~= start + concat_map(
            p@.blocks.take(i + 1),
            |b: BlockPlanModel| block_items(p@.root_path, b),
        ));
        i = i + 1;
    }
    proof {
        assert(p@.blocks.take(n as int) =~= p@.blocks);
    }
}

fn push_crate_prefix(out: &mut Vec<Token>, p: &IndexPlan)
    ensures
        models(final(out)@) == models(old(out)@) + crate_prefix(p@.macro_root_path),
{
    push_punct(out, '$');
    push_word(out, "crate");
    match &p.macro_root_path {
        Some(mrp) => {
            push_path_sep(out);
            push_path(out, mrp);
        },
        None => {},
    }
    assert(models(out@) =~= models(old(out)@) + crate_prefix(p@.macro_root_path));
}

fn push_def(out: &mut Vec<Token>, p: &IndexPlan, m: &Member)
    ensures
        models(final(out)@) == models(old(out)@) + def_items(p@.macro_root_path, m@),
{
    let ghost start = models(out@);
    push_attrs(out, &m.attrs);
    push_punct(out, '#');
    let mut missing: Vec<Token> = Vec::new();
    push_word(&mut missing, "missing_docs");
    assert(models(missing@) =~= seq![word("missing_docs")]);
    let mut allow: Vec<Token> = Vec::new();
    push_word(&mut allow, "allow");
    push_group(&mut allow, Delimiter::Parenthesis, missing);
    assert(models(allow@) =~= seq![
        word("allow"),
        group(Delimiter::Parenthesis, seq![word("missing_docs")]),
    ]);
    push_group(out, Delimiter::Bracket, allow);
    push_word(out, "pub");
    push_name(out, &m.field);
    push_punct(out, ':');
    let ghost head = print_attrs(m@.attrs) + seq![
        punct('#'),
        group(
            Delimiter::Bracket,
            seq![word("allow"), group(Delimiter::Parenthesis, seq![word("missing_docs")])],
        ),
        word("pub"),
        name(m@.field),
        punct(':'),
    ];
    assert(models(out@) =~= start + head);
    push_crate_prefix(out, p);
    push_path_sep(out);
    push_name(out, &m.module);
    push_path_sep(out);
    push_name(out, &m.ty);
    push_punct(out, '<');
    push_drone_reg_path(out, "Srt");
    push_punct(out, ',');
    push_punct(out, '>');
    push_punct(out, ',');
    assert(models(out@) =~= start + def_items(p@.macro_root_path, m@));
}

fn push_ctor(out: &mut Vec<Token>, p: &IndexPlan, m: &Member)
    ensures
        models(final(out)@) == models(old(out)@) + ctor_items(p@.macro_root_path, m@),
{
    let ghost start = models(out@);
    push_name(out, &m.field);
    push_punct(out, ':');
    push_punct(out, '<');
    push_crate_prefix(out, p);
    push_path_sep(out);
    push_name(out, &m.module);
    push_path_sep(out);
    push_name(out, &m.ty);
    push_punct(out, '<');
    push_word(out, "_");
    push_punct(out, '>');
    push_word(out, "as");
    let ghost head = seq![name(m@.field), punct(':'), punct('<')] + crate_prefix(
        p@.macro_root_path,
    ) + path_sep() + seq![name(m@.module)] + path_sep() + seq![
        name(m@.ty),
        punct('<'),
        word("_"),
        punct('>'),
        word("as"),
    ];
    assert(models(out@) =~= start + head);
    push_drone_reg_path(out, "Reg");
    push_punct(out, '<');
    push_word(out, "_");
    push_punct(out, '>');
    push_punct(out, '>');
    push_path_sep(out);
    push_word(out, "new");
    push_group(out, Delimiter::Parenthesis, Vec::new());
    push_punct(out, ',');
    assert(models(out@) =~= start + ctor_items(p@.macro_root_path, m@));
}

fn push_defs(out: &mut Vec<Token>, p: &IndexPlan)
    ensures
        models(final(out)@) == models(old(out)@) + all_defs(p@),
{
    let ghost start = models(out@);
    let n = p.members.len();
    let mut i: usize = 0;
    while i < n
        invariant
            n == p.members.len(),
            i <= n,
            models(out@) == start + concat_map(
                p@.members.take(i as int),
                |m: MemberModel| def_items(p@.macro_root_path, m),
            ),
        decreases n - i,
    {
        proof {
            lemma_concat_map_step(
                p@.members,
                i as int,
                |m: MemberModel| def_items(p@.macro_root_path, m),
            );
        }
        push_def(out, p, &p.members[i]);
        assert(models(out@) =~= start + concat_map(
            p@.members.take(i + 1),
            |m: MemberModel| def_items(p@.macro_root_path, m),
        ));
        i = i + 1;
    }
    proof {
        assert(p@.members.take(n as int) =~= p@.members);
    }
}

fn push_ctors(out: &mut Vec<Token>, p: &IndexPlan)
    ensures
        models(final(out)@) == models(old(out)@) + all_ctors(p@),
{
    let ghost start = models(out@);
    let n = p.members.len();
    let mut i: usize = 0;
    while i < n
        invariant
            n == p.members.len(),
            i <= n,
            models(out@) == start + concat_map(
                p@.members.take(i as int),
                |m: MemberModel| ctor_items(p@.macro_root_path, m),
            ),
        decreases n - i,
    {
        proof {
            lemma_concat_map_step(
                p@.members,
                i as int,
                |m: MemberModel| ctor_items(p@.macro_root_path, m),
            );
        }
        push_ctor(out, p, &p.members[i]);
        assert(models(out@) =~= start + concat_map(
            p@.members.take(i + 1),
            |m: MemberModel| ctor_items(p@.macro_root_path, m),
        ));
        i = i + 1;
    }
    proof {
        assert(p@.members.take(n as int) =~= p@.members);
    }
}

/// `#[..]` whose content is `$` and the name `v`, followed by `tail`.
fn dollar_attr(v: &str, tail: bool) -> (r: Vec<Token>)
    ensures
        models(r@) == (if tail {
            seq![punct('#'), group(Delimiter::Bracket, seq![punct('$'), word(v), punct(':'), word("meta")])]
        } else {
            seq![punct('#'), group(Delimiter::Bracket, seq![punct('$'), word(v)])]
        }),
{
    let mut inner: Vec<Token> = Vec::new();
    push_punct(&mut inner, '$');
    push_word(&mut inner, v);
    if tail {
        push_punct(&mut inner, ':');
        push_word(&mut inner, "meta");
    }
    let ghost im = models(inner@);
    let mut r: Vec<Token> = Vec::new();
    push_punct(&mut r, '#');
    push_group(&mut r, Delimiter::Bracket, inner);
    proof {
        if tail {
            assert(im =~= seq![punct('$'), word(v), punct(':'), word("meta")]);
        } else {
            assert(im =~= seq![punct('$'), word(v)]);
        }
    }
    assert(models(r@) =~= seq![punct('#'), group(Delimiter::Bracket, im)]);
    r
}

fn push_struct_head(out: &mut Vec<Token>)
    ensures
        models(final(out)@) == models(old(out)@) + struct_head(),
{
    push_punct(out, '$');
    push_group(out, Delimiter::Parenthesis, dollar_attr("attr", false));
    push_punct(out, '*');
    push_punct(out, '$');
    push_word(out, "vis");
    push_word(out, "struct");
    push_punct(out, '$');
    push_word(out, "ty");
    assert(models(out@) =~= models(old(out)@) + struct_head());
}

fn push_matcher_head(out: &mut Vec<Token>)
    ensures
        models(final(out)@) == models(old(out)@) + matcher_head(),
{
    push_punct(out, '$');
    push_group(out, Delimiter::Parenthesis, dollar_attr("attr", true));
    push_punct(out, '*');
    push_punct(out, '$');
    push_word(out, "vis");
    push_punct(out, ':');
    push_word(out, "vis");
    push_word(out, "struct");
    push_punct(out, '$');
    push_word(out, "ty");
    push_punct(out, ':');
    push_word(out, "ident");
    push_punct(out, ';');
    assert(models(out@) =~= models(old(out)@) + matcher_head());
}

/// `$($v)*`, or `$($v:tt)*` where `matcher` holds.
fn push_repeat(out: &mut Vec<Token>, v: &str, matcher: bool)
    ensures
        models(final(out)@) == models(old(out)@) + (if matcher {
            repeat_matcher(v)
        } else {
            repeat(v)
        }),
{
    let mut inner: Vec<Token> = Vec::new();
    push_punct(&mut inner, '$');
    push_word(&mut inner, v);
    if matcher {
        push_punct(&mut inner, ':');
        push_word(&mut inner, "tt");
        assert(models(inner@) =~= seq![punct('$'), word(v), punct(':'), word("tt")]);
    } else {
        assert(models(inner@) =~= seq![punct('$'), word(v)]);
    }
    push_punct(out, '$');
    push_group(out, Delimiter::Parenthesis, inner);
    push_punct(out, '*');
    assert(models(out@) =~= models(old(out)@) + (if matcher {
        repeat_matcher(v)
    } else {
        repeat(v)
    }));
}

/// A group enclosed by braces of the member declarations or initializers,
/// followed by the repetition of those the macro was given.
fn members_group(p: &IndexPlan, defs: bool) -> (r: Token)
    ensures
        r@ == group(
            Delimiter::Brace,
            if defs {
                all_defs(p@) + repeat("def")
            } else {
                all_ctors(p@) + repeat("ctor")
            },
        ),
{
    let mut inner: Vec<Token> = Vec::new();
    if defs {
        push_defs(&mut inner, p);
        push_repeat(&mut inner, "def", false);
        assert(models(inner@) =~= all_defs(p@) + repeat("def"));
    } else {
        push_ctors(&mut inner, p);
        push_repeat(&mut inner, "ctor", false);
        assert(models(inner@) =~= all_ctors(p@) + repeat("ctor"));
    }
    Token::Group(Delimiter::Brace, inner)
}

fn push_macro_body(out: &mut Vec<Token>, p: &IndexPlan)
    ensures
        models(final(out)@) == models(old(out)@) + macro_body(p@),
{
    match &p.prev_macro {
        Some(prev) => {
            let mut inner: Vec<Token> = Vec::new();
            push_struct_head(&mut inner);
            push_punct(&mut inner, ';');
            push_token(&mut inner, members_group(p, true));
            push_token(&mut inner, members_group(p, false));
            assert(models(inner@) =~= struct_head() + seq![
                punct(';'),
                group(Delimiter::Brace, all_defs(p@) + repeat("def")),
                group(Delimiter::Brace, all_ctors(p@) + repeat("ctor")),
            ]);
            push_name(out, prev);
            push_punct(out, '!');
            push_group(out, Delimiter::Brace, inner);
            assert(models(out@) =~= models(old(out)@) + macro_body(p@));
        },
        None => {
            push_struct_head(out);
            push_token(out, members_group(p, true));
            push_word(out, "impl");
            push_drone_reg_path(out, "RegTokens");
            push_word(out, "for");
            push_punct(out, '$');
            push_word(out, "ty");
            let mut body: Vec<Token> = Vec::new();
            push_word(&mut body, "Self");
            push_token(&mut body, members_group(p, false));
            assert(models(body@) =~= seq![
                word("Self"),
                group(Delimiter::Brace, all_ctors(p@) + repeat("ctor")),
            ]);
            let mut f: Vec<Token> = Vec::new();
            push_word(&mut f, "unsafe");
            push_word(&mut f, "fn");
            push_word(&mut f, "new");
            push_group(&mut f, Delimiter::Parenthesis, Vec::new());
            push_punct(&mut f, '-');
            push_punct(&mut f, '>');
            push_word(&mut f, "Self");
            push_group(&mut f, Delimiter::Brace, body);
            assert(models(f@) =~= seq![
                word("unsafe"),
                word("fn"),
                word("new"),
                group(Delimiter::Parenthesis, Seq::empty()),
                punct('-'),
                punct('>'),
                word("Self"),
                group(
                    Delimiter::Brace,
                    seq![word("Self"), group(Delimiter::Brace, all_ctors(p@) + repeat("ctor"))],
                ),
            ]);
            push_group(out, Delimiter::Brace, f);
            assert(models(out@) =~= models(old(out)@) + macro_body(p@));
        },
    }
}

fn push_macro_rules_body(out: &mut Vec<Token>, p: &IndexPlan)
    ensures
        models(final(out)@) == models(old(out)@) + macro_rules_body(p@),
{
    let ghost start = models(out@);
    let mut m1: Vec<Token> = Vec::new();
    push_matcher_head(&mut m1);
    assert(models(m1@) =~= matcher_head());
    push_group(out, Delimiter::Parenthesis, m1);
    push_punct(out, '=');
    push_punct(out, '>');
    let mut h: Vec<Token> = Vec::new();
    push_struct_head(&mut h);
    push_punct(&mut h, ';');
    push_group(&mut h, Delimiter::Brace, Vec::new());
    push_group(&mut h, Delimiter::Brace, Vec::new());
    assert(models(h@) =~= struct_head() + seq![
        punct(';'),
        group(Delimiter::Brace, Seq::empty()),
        group(Delimiter::Brace, Seq::empty()),
    ]);
    let mut call: Vec<Token> = Vec::new();
    push_name(&mut call, &p.macro_name);
    push_punct(&mut call, '!');
    push_group(&mut call, Delimiter::Brace, h);
    let ghost cm = models(call@);
    assert(cm =~= seq![
        name(p@.macro_name),
        punct('!'),
        group(
            Delimiter::Brace,
            struct_head() + seq![
                punct(';'),
                group(Delimiter::Brace, Seq::empty()),
                group(Delimiter::Brace, Seq::empty()),
            ],
        ),
    ]);
    push_group(out, Delimiter::Brace, call);
    push_punct(out, ';');
    let ghost first = seq![
        group(Delimiter::Parenthesis, matcher_head()),
        punct('='),
        punct('>'),
        group(Delimiter::Brace, cm),
        punct(';'),
    ];
    assert(models(out@) =~= start + first);
    let mut m2: Vec<Token> = Vec::new();
    push_matcher_head(&mut m2);
    let mut d: Vec<Token> = Vec::new();
    push_repeat(&mut d, "def", true);
    assert(models(d@) =~= repeat_matcher("def"));
    push_group(&mut m2, Delimiter::Brace, d);
    let mut c: Vec<Token> = Vec::new();
    push_repeat(&mut c, "ctor", true);
    assert(models(c@) =~= repeat_matcher("ctor"));
    push_group(&mut m2, Delimiter::Brace, c);
    assert(models(m2@) =~= matcher_head() + seq![
        group(Delimiter::Brace, repeat_matcher("def")),
        group(Delimiter::Brace, repeat_matcher("ctor")),
    ]);
    push_group(out, Delimiter::Parenthesis, m2);
    push_punct(out, '=');
    push_punct(out, '>');
    let mut b: Vec<Token> = Vec::new();
    push_macro_body(&mut b, p);
    assert(models(b@) =~= macro_body(p@));
    push_group(out, Delimiter::Brace, b);
    push_punct(out, ';');
    assert(models(out@) =~= start + macro_rules_body(p@));
}

fn push_macro_items(out: &mut Vec<Token>, p: &IndexPlan)
    ensures
        models(final(out)@) == models(old(out)@) + macro_items(p@),
{
    let ghost start = models(out@);
    push_attrs(out, &p.macro_attrs);
    if p.exported {
        let mut e: Vec<Token> = Vec::new();
        push_word(&mut e, "macro_export");
        assert(models(e@) =~= seq![word("macro_export")]);
        push_punct(out, '#');
        push_group(out, Delimiter::Bracket, e);
    }
    let ghost export = if p@.exported {
        seq![punct('#'), group(Delimiter::Bracket, seq![word("macro_export")])]
    } else {
        Seq::<TokenModel>::empty()
    };
    assert(models(out@) =~= start + print_attrs(p@.macro_attrs) + export);
    push_word(out, "macro_rules");
    push_punct(out, '!');
    push_name(out, &p.macro_name);
    let mut body: Vec<Token> = Vec::new();
    push_macro_rules_body(&mut body, p);
    assert(models(body@) =~= macro_rules_body(p@));
    push_group(out, Delimiter::Brace, body);
    assert(models(out@) =~= start + macro_items(p@));
}

/// The items that a register index expands to, written out from its plan:
/// the module of each block, then the macro that declares the struct of the
/// registers.
pub fn expand(p: &IndexPlan) -> (r: Vec<Token>)
    ensures
        models(r@) == index_items(p@),
{
    let mut out: Vec<Token> = Vec::new();
    push_blocks(&mut out, p);
    push_macro_items(&mut out, p);
    assert(models(out@) =~= index_items(p@));
    out
}

/// Each member declaration of the generated struct begins with the
/// attributes of its member, then `#[allow(missing_docs)]`, then `pub`, the
/// member's name and a colon.
pub proof fn lemma_def_starts_with_attrs(mrp: Option<PathModel>, m: MemberModel)
    ensures
        ({
            let a = print_attrs(m.attrs);
            let ts = def_items(mrp, m);
            &&& ts.len() >= a.len() + 5
            &&& ts.subrange(0, a.len() as int) == a
            &&& ts[a.len() as int] == punct('#')
            &&& ts[a.len() + 1int] == group(
                Delimiter::Bracket,
                seq![word("allow"), group(Delimiter::Parenthesis, seq![word("missing_docs")])],
            )
            &&& ts[a.len() + 2int] == word("pub")
            &&& ts[a.len() + 3int] == name(m.field)
            &&& ts[a.len() + 4int] == punct(':')
        }),
{
    let a = print_attrs(m.attrs);
    let ts = def_items(mrp, m);
    assert(ts.subrange(0, a.len() as int) =~= a);
}

/// The declaration of the member for register `j` of block `i` begins with
/// the attributes written on that register's entry, followed by
/// `#[allow(missing_docs)]`.
pub proof fn lemma_entry_attrs_on_member(d: RegIndexModel, i: int, j: int)
    requires
        0 <= i < d.blocks.len(),
        0 <= j < d.blocks[i].regs.len(),
    ensures
        ({
            let p = index_plan(d);
            let k = total_regs(d.blocks.take(i)) + j;
            let a = print_attrs(d.blocks[i].regs[j].attrs);
            let ts = def_items(p.macro_root_path, p.members[k]);
            &&& 0 <= k < p.members.len()
            &&& ts.len() >= a.len() + 2
            &&& ts.subrange(0, a.len() as int) == a
            &&& ts[a.len() as int] == punct('#')
            &&& ts[a.len() + 1int] == group(
                Delimiter::Bracket,
                seq![word("allow"), group(Delimiter::Parenthesis, seq![word("missing_docs")])],
            )
        }),
{
    lemma_member_of_entry(d, i, j);
    let p = index_plan(d);
    let k = total_regs(d.blocks.take(i)) + j;
    lemma_def_starts_with_attrs(p.macro_root_path, p.members[k]);
}

/// `pub use root::long as short; pub use root::long::Reg as ty;`, token by
/// token after the root path.
pub open spec fn reexport_tokens(
    root: PathModel,
    long: Seq<char>,
    short: Seq<char>,
    ty: Seq<char>,
) -> Seq<TokenModel> {
    seq![word("pub"), word("use")] + print_path(root) + seq![
        punct(':'),
        punct(':'),
        name(long),
        word("as"),
        name(short),
        punct(';'),
        word("pub"),
        word("use"),
    ] + print_path(root) + seq![
        punct(':'),
        punct(':'),
        name(long),
        punct(':'),
        punct(':'),
        word("Reg"),
        word("as"),
        name(ty),
        punct(';'),
    ]
}

/// Each block becomes a module named after the block in snake case, and in
/// it every register of the block is re-exported from the root path: its
/// module, named after block and register, under the register's snake-case
/// name, and its register type under the register's Pascal-case name.
pub proof fn lemma_blocks_reexport_registers(d: RegIndexModel, i: int, j: int)
    requires
        0 <= i < d.blocks.len(),
        0 <= j < d.blocks[i].regs.len(),
    ensures
        ({
            let b = d.blocks[i];
            let r = b.regs[j];
            let long = snake_case(b.ident) + "_"@ + snake_case(r.ident);
            &&& occurs_within(
                index_items(index_plan(d)),
                seq![word("mod"), name(unkeywordized(snake_case(b.ident)))],
            )
            &&& occurs_within(
                index_items(index_plan(d)),
                reexport_tokens(
                    d.root_path,
                    long,
                    unkeywordized(snake_case(r.ident)),
                    pascal_case(r.ident),
                ),
            )
        }),
{
    let p = index_plan(d);
    let b = d.blocks[i];
    let r = b.regs[j];
    let bp = p.blocks[i];
    assert(bp == block_plan(b));
    let u = bp.uses[j];
    assert(u == reg_use(b, r));
    let root = p.root_path;
    let pat = reexport_tokens(root, u.long, u.short, u.ty);
    assert(use_items(root, u) =~= pat);
    let ucl = |x: RegUseModel| use_items(root, x);
    lemma_concat_map_at(bp.uses, j, ucl);
    let inner = concat_map(bp.uses, ucl);
    let k = concat_map(bp.uses.take(j), ucl).len() as int;
    assert(occurs_at(inner, pat, k));
    lemma_occurs_within_at(inner, pat, k);
    let bi = block_items(root, bp);
    let pre = print_attrs(bp.attrs) + print_vis(bp.vis);
    let modname = seq![word("mod"), name(bp.module)];
    assert(bi =~= pre + modname + seq![group(Delimiter::Brace, inner)]);
    assert(bi[bi.len() - 1] == group(Delimiter::Brace, inner));
    lemma_occurs_within_group(bi, bi.len() - 1, pat);
    lemma_occurs_in_concat(pre, modname, seq![group(Delimiter::Brace, inner)]);
    lemma_occurs_within_at(bi, modname, pre.len() as int);
    let bcl = |x: BlockPlanModel| block_items(root, x);
    lemma_concat_map_at(p.blocks, i, bcl);
    let all = concat_map(p.blocks, bcl);
    let kb = concat_map(p.blocks.take(i), bcl).len() as int;
    assert(occurs_at(all, bi, kb));
    lemma_occurs_within_part(bi, all, kb, pat);
    lemma_occurs_within_part(bi, all, kb, modname);
    let items = index_items(p);
    assert(items =~= Seq::<TokenModel>::empty() + all + macro_items(p));
    lemma_occurs_within_concat(Seq::empty(), all, macro_items(p), pat);
    lemma_occurs_within_concat(Seq::empty(), all, macro_items(p), modname);
}

/// The generated macro is `macro_rules! next_macro`, after the index's
/// attributes, and carries `#[macro_export]` exactly where the index is
/// declared `pub`.
pub proof fn lemma_macro_export(d: RegIndexModel)
    ensures
        ({
            let p = index_plan(d);
            let k = (concat_map(p.blocks, |b: BlockPlanModel| block_items(p.root_path, b)).len()
                + print_attrs(d.next_macro_attrs).len()) as int;
            let head = seq![word("macro_rules"), punct('!'), name(d.next_macro)];
            if d.next_macro_vis == VisModel::Public {
                occurs_at(
                    index_items(p),
                    seq![punct('#'), group(Delimiter::Bracket, seq![word("macro_export")])] + head,
                    k,
                )
            } else {
                occurs_at(index_items(p), head, k)
            }
        }),
{
    let p = index_plan(d);
    let all = concat_map(p.blocks, |b: BlockPlanModel| block_items(p.root_path, b));
    let pre = all + print_attrs(p.macro_attrs);
    let head = seq![word("macro_rules"), punct('!'), name(d.next_macro)];
    let rest = seq![group(Delimiter::Brace, macro_rules_body(p))];
    if p.exported {
        let x = seq![punct('#'), group(Delimiter::Bracket, seq![word("macro_export")])] + head;
        assert(index_items(p) =~= pre + x + rest);
        lemma_occurs_in_concat(pre, x, rest);
    } else {
        assert(index_items(p) =~= pre + head + rest);
        lemma_occurs_in_concat(pre, head, rest);
    }
}

} // verus!
