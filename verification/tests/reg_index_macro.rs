use drone_core::{reg_index, reg_index_items};
use drone_core::syntax::Visibility;
use drone_core::token::{Delimiter, Token};

fn id(s: &str) -> Token {
    Token::Ident(s.to_string())
}

fn lit(s: &str) -> Token {
    Token::Literal(s.to_string())
}

fn p(c: char) -> Token {
    Token::Punct(c)
}

fn doc(text: &str) -> Vec<Token> {
    vec![p('#'), Token::Group(Delimiter::Bracket, vec![id("doc"), p('='), lit(text)])]
}

/// The index of the register test: one block with one register.
fn test_index_tokens() -> Vec<Token> {
    let mut ts = Vec::new();
    ts.extend(doc("\" Test index doc attribute\""));
    ts.extend(doc("\"test index attribute\""));
    ts.extend(vec![id("pub"), id("macro"), id("reg_idx"), p(';'), id("super"), p(';'), p(';')]);
    ts.extend(doc("\" Test block doc attribute\""));
    ts.extend(doc("\"test block attribute\""));
    ts.extend(vec![
        id("pub"),
        id("mod"),
        id("TEST_BLOCK"),
        Token::Group(Delimiter::Brace, vec![id("TEST_REG"), p(';')]),
    ]);
    ts
}

#[test]
fn plans_test_index() {
    let plan = reg_index::proc_macro(&test_index_tokens()).expect("plan");
    assert_eq!(plan.macro_attrs.len(), 2);
    assert_eq!(plan.macro_name, "reg_idx");
    assert!(plan.exported);
    assert!(plan.prev_macro.is_none());
    assert!(!plan.root_path.leading_colon);
    assert_eq!(plan.root_path.segments, vec!["super".to_string()]);
    assert!(plan.macro_root_path.is_none());
    assert_eq!(plan.blocks.len(), 1);
    let b = &plan.blocks[0];
    assert_eq!(b.attrs.len(), 2);
    assert!(matches!(b.vis, Visibility::Public));
    assert_eq!(b.module, "test_block");
    assert_eq!(b.uses.len(), 1);
    assert_eq!(b.uses[0].long, "test_block_test_reg");
    assert_eq!(b.uses[0].short, "test_reg");
    assert_eq!(b.uses[0].ty, "TestReg");
    assert_eq!(plan.members.len(), 1);
    assert_eq!(plan.members[0].field, "test_block_test_reg");
    assert_eq!(plan.members[0].module, "test_block");
    assert_eq!(plan.members[0].ty, "TestReg");
}

#[test]
fn chained_index_with_macro_root() {
    let ts = vec![
        id("macro"),
        id("next"),
        p(';'),
        id("use"),
        id("macro"),
        id("prev"),
        p(';'),
        p(':'),
        p(':'),
        id("crate_a"),
        p(':'),
        p(':'),
        id("regs"),
        p(';'),
        id("periph"),
        p(':'),
        p(':'),
        id("map"),
        p(';'),
        id("mod"),
        id("RCC"),
        Token::Group(Delimiter::Brace, vec![id("CR"), p(';'), id("CFGR"), p(';')]),
        id("mod"),
        id("MOD"),
        Token::Group(Delimiter::Brace, vec![id("IN"), p(';')]),
    ];
    let plan = reg_index::proc_macro(&ts).expect("plan");
    assert!(!plan.exported);
    assert_eq!(plan.prev_macro.as_deref(), Some("prev"));
    assert!(plan.root_path.leading_colon);
    assert_eq!(plan.root_path.segments, vec!["crate_a".to_string(), "regs".to_string()]);
    let m = plan.macro_root_path.as_ref().expect("macro root");
    assert!(!m.leading_colon);
    assert_eq!(m.segments, vec!["periph".to_string(), "map".to_string()]);
    assert_eq!(plan.blocks.len(), 2);
    assert_eq!(plan.blocks[0].module, "rcc");
    assert_eq!(plan.blocks[0].uses[1].long, "rcc_cfgr");
    assert_eq!(plan.blocks[1].module, "_mod");
    assert_eq!(plan.blocks[1].uses[0].short, "_in");
    assert_eq!(plan.blocks[1].uses[0].long, "mod_in");
    let fields: Vec<&str> = plan.members.iter().map(|m| m.field.as_str()).collect();
    assert_eq!(fields, vec!["rcc_cr", "rcc_cfgr", "mod_in"]);
}

#[test]
fn restricted_index_macro_is_not_exported() {
    let ts = vec![
        id("pub"),
        Token::Group(Delimiter::Parenthesis, vec![id("crate")]),
        id("macro"),
        id("m"),
        p(';'),
        id("self"),
        p(';'),
        p(';'),
    ];
    let plan = reg_index::proc_macro(&ts).expect("plan");
    assert!(!plan.exported);
    assert!(plan.blocks.is_empty());
    assert!(plan.members.is_empty());
}

#[test]
fn refuses_missing_root_path() {
    let ts = vec![id("macro"), id("m"), p(';'), p(';'), p(';')];
    assert!(reg_index::proc_macro(&ts).is_err());
}

#[test]
fn refuses_trailing_path_separator() {
    let ts = vec![id("macro"), id("m"), p(';'), id("a"), p(':'), p(':'), p(';'), p(';')];
    assert!(reg_index::proc_macro(&ts).is_err());
}

#[test]
fn refuses_register_without_semicolon() {
    let ts = vec![
        id("macro"),
        id("m"),
        p(';'),
        id("super"),
        p(';'),
        p(';'),
        id("mod"),
        id("B"),
        Token::Group(Delimiter::Brace, vec![id("R")]),
    ];
    assert!(reg_index::proc_macro(&ts).is_err());
}

#[test]
fn refuses_incomplete_use_macro() {
    let ts = vec![id("macro"), id("m"), p(';'), id("use"), id("prev"), p(';'), id("super"), p(';'), p(';')];
    assert!(reg_index::proc_macro(&ts).is_err());
}

#[test]
fn refuses_separated_colons_in_path() {
    let ts = vec![
        id("macro"),
        id("m"),
        p(';'),
        id("super"),
        p(':'),
        Token::Space,
        p(':'),
        id("regs"),
        p(';'),
        p(';'),
    ];
    assert!(reg_index::proc_macro(&ts).is_err());
}

#[test]
fn accepts_async_dyn_as_names() {
    let ts = vec![id("macro"), id("M"), p(';'), id("dyn"), p(';'), p(';')];
    let plan = reg_index::proc_macro(&ts).expect("plan");
    assert_eq!(plan.root_path.segments, vec!["dyn".to_string()]);
}

/// The tokens as text: one space between tokens, none inside delimiters.
fn render(ts: &[Token]) -> String {
    let parts: Vec<String> = ts
        .iter()
        .filter(|t| !matches!(t, Token::Space))
        .map(|t| match t {
            Token::Ident(s) | Token::Literal(s) => s.clone(),
            Token::Punct(c) => c.to_string(),
            Token::Group(d, inner) => {
                let (open, close) = match d {
                    Delimiter::Parenthesis => ("(", ")"),
                    Delimiter::Brace => ("{", "}"),
                    Delimiter::Bracket => ("[", "]"),
                    Delimiter::Invisible => ("", ""),
                };
                format!("{}{}{}", open, render(inner), close)
            }
            Token::Space => String::new(),
        })
        .collect();
    parts.join(" ")
}

const FIRST_RULE: &str = "($ (# [$ attr : meta]) * $ vis : vis struct $ ty : ident ;) = > \
     {NAME ! {$ (# [$ attr]) * $ vis struct $ ty ; {} {}}} ;";
const SECOND_MATCHER: &str = "($ (# [$ attr : meta]) * $ vis : vis struct $ ty : ident ; \
     {$ ($ def : tt) *} {$ ($ ctor : tt) *}) = >";

#[test]
fn expands_test_index() {
    let plan = reg_index::proc_macro(&test_index_tokens()).expect("plan");
    let out = render(&reg_index_items::expand(&plan));
    let block = "# [doc = \" Test block doc attribute\"] # [doc = \"test block attribute\"] \
         pub mod test_block {pub use super : : test_block_test_reg as test_reg ; \
         pub use super : : test_block_test_reg : : Reg as TestReg ;}";
    let def = "# [allow (missing_docs)] pub test_block_test_reg : $ crate : : test_block : : \
         TestReg < : : drone_core : : reg : : Srt , > ,";
    let ctor = "test_block_test_reg : < $ crate : : test_block : : TestReg < _ > as : : \
         drone_core : : reg : : Reg < _ > > : : new () ,";
    let body = format!(
        "$ (# [$ attr]) * $ vis struct $ ty {{{} $ ($ def) *}} impl : : drone_core : : reg : : \
         RegTokens for $ ty {{unsafe fn new () - > Self {{Self {{{} $ ($ ctor) *}}}}}}",
        def, ctor
    );
    let expected = format!(
        "{} # [doc = \" Test index doc attribute\"] # [doc = \"test index attribute\"] \
         # [macro_export] macro_rules ! reg_idx {{{} {} {{{}}} ;}}",
        block,
        FIRST_RULE.replace("NAME", "reg_idx"),
        SECOND_MATCHER,
        body
    );
    assert_eq!(out, expected);
}

#[test]
fn expands_chained_index_into_previous_macro() {
    let ts = vec![
        id("macro"),
        id("next"),
        p(';'),
        id("use"),
        id("macro"),
        id("prev"),
        p(';'),
        id("crate"),
        p(';'),
        id("periph"),
        p(';'),
        id("mod"),
        id("MOD"),
        Token::Group(Delimiter::Brace, vec![id("IN"), p(';')]),
    ];
    let plan = reg_index::proc_macro(&ts).expect("plan");
    let out = render(&reg_index_items::expand(&plan));
    let block = "mod _mod {pub use crate : : mod_in as _in ; pub use crate : : mod_in : : Reg as In ;}";
    let def = "# [allow (missing_docs)] pub mod_in : $ crate : : periph : : _mod : : In < : : \
         drone_core : : reg : : Srt , > ,";
    let ctor = "mod_in : < $ crate : : periph : : _mod : : In < _ > as : : drone_core : : reg : : \
         Reg < _ > > : : new () ,";
    let body = format!(
        "prev ! {{$ (# [$ attr]) * $ vis struct $ ty ; {{{} $ ($ def) *}} {{{} $ ($ ctor) *}}}}",
        def, ctor
    );
    let expected = format!(
        "{} macro_rules ! next {{{} {} {{{}}} ;}}",
        block,
        FIRST_RULE.replace("NAME", "next"),
        SECOND_MATCHER,
        body
    );
    assert_eq!(out, expected);
}

#[test]
fn index_finds_register_module() {
    let reg_tokens = vec![
        id("mod"),
        id("TEST_BLOCK"),
        id("TEST_REG"),
        p(';'),
        lit("0x40"),
        lit("32"),
        lit("0"),
        p(';'),
    ];
    let reg_plan = drone_core::reg::proc_macro(&reg_tokens).expect("register plan");
    let index = reg_index::proc_macro(&test_index_tokens()).expect("index plan");
    assert_eq!(index.blocks[0].uses[0].long, reg_plan.module);
    assert_eq!(index.members[0].field, reg_plan.module);
    assert_eq!(index.blocks[0].uses[0].ty, "TestReg");
}
