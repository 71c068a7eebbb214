use drone_core::reg::{self, Accessor};
use drone_core::reg_items;
use drone_core::reg_syntax;
use drone_core::syntax::{ParseError, Visibility};
use drone_core::token::{Delimiter, Token};

fn id(s: &str) -> Token {
    Token::Ident(s.to_string())
}

fn lit(s: &str) -> Token {
    Token::Literal(s.to_string())
}

fn p(c: char) -> Token {
    Token::Punct(c)
}

fn group(d: Delimiter, ts: Vec<Token>) -> Token {
    Token::Group(d, ts)
}

fn doc(text: &str) -> Vec<Token> {
    vec![p('#'), group(Delimiter::Bracket, vec![id("doc"), p('='), lit(text)])]
}

/// The declaration of the register test: a 32-bit register with a one-bit
/// and a three-bit field.
fn test_reg_tokens() -> Vec<Token> {
    let mut ts = Vec::new();
    ts.extend(doc("\" Test reg doc attribute\""));
    ts.extend(doc("\"test reg attribute\""));
    ts.extend(vec![
        id("pub"),
        id("mod"),
        id("TEST_BLOCK"),
        id("TEST_REG"),
        p(';'),
        lit("0xDEAD_BEEF"),
        lit("0x20"),
        lit("0xBEEF_CACE"),
        id("RReg"),
        id("WReg"),
        p(';'),
        id("TEST_BIT"),
        group(Delimiter::Brace, vec![lit("0"), lit("1"), id("RRRegField"), id("WWRegField")]),
        id("TEST_BITS"),
        group(Delimiter::Brace, vec![lit("1"), lit("3"), id("RRRegField"), id("WWRegField")]),
    ]);
    ts
}

fn names(v: &[String]) -> Vec<&str> {
    v.iter().map(|s| s.as_str()).collect()
}

#[test]
fn parses_test_register() {
    let d = reg_syntax::parse(&test_reg_tokens()).expect("declaration");
    assert_eq!(d.attrs.len(), 2);
    assert!(matches!(d.vis, Visibility::Public));
    assert_eq!(d.block, "TEST_BLOCK");
    assert_eq!(d.ident, "TEST_REG");
    assert_eq!(d.address, "0xDEAD_BEEF");
    assert_eq!(d.size, "0x20");
    assert_eq!(d.reset, "0xBEEF_CACE");
    assert_eq!(names(&d.traits), vec!["RReg", "WReg"]);
    assert_eq!(d.fields.len(), 2);
    assert_eq!(d.fields[1].ident, "TEST_BITS");
    assert_eq!(d.fields[1].offset, "1");
    assert_eq!(d.fields[1].width, "3");
    assert_eq!(names(&d.fields[1].traits), vec!["RRRegField", "WWRegField"]);
}

#[test]
fn plans_test_register() {
    let plan = reg::proc_macro(&test_reg_tokens()).expect("plan");
    assert_eq!(plan.module, "test_block_test_reg");
    assert_eq!(plan.value_bits, 32);
    assert_eq!(plan.address, "0xDEAD_BEEF");
    assert_eq!(plan.reset, "0xBEEF_CACE");
    assert_eq!(names(&plan.traits), vec!["RReg", "WReg"]);
    assert_eq!(names(&plan.imports), vec!["RReg", "WReg", "RRRegField", "WWRegField"]);
    assert_eq!(plan.attrs.len(), 2);
    assert_eq!(plan.fields.len(), 2);
    assert!(!plan.marker);

    let bit = &plan.fields[0];
    assert_eq!(bit.member, "test_bit");
    assert_eq!(bit.ty, "TestBit");
    assert_eq!(bit.offset, "0");
    assert_eq!(bit.width, "1");
    assert!(bit.single_bit);
    assert_eq!(bit.accessors.len(), 4);
    assert!(matches!(&bit.accessors[0], Accessor::ReadBit(n) if n == "test_bit"));
    assert!(matches!(&bit.accessors[1], Accessor::SetBit(n) if n == "set_test_bit"));
    assert!(matches!(&bit.accessors[2], Accessor::ClearBit(n) if n == "clear_test_bit"));
    assert!(matches!(&bit.accessors[3], Accessor::ToggleBit(n) if n == "toggle_test_bit"));

    let bits = &plan.fields[1];
    assert_eq!(bits.member, "test_bits");
    assert_eq!(bits.ty, "TestBits");
    assert!(!bits.single_bit);
    assert_eq!(bits.accessors.len(), 2);
    assert!(matches!(&bits.accessors[0], Accessor::ReadBits(n) if n == "test_bits"));
    assert!(matches!(&bits.accessors[1], Accessor::WriteBits(n) if n == "write_test_bits"));
}

#[test]
fn field_without_traits_has_no_accessors() {
    let ts = vec![
        id("mod"),
        id("B"),
        id("R"),
        p(';'),
        lit("0"),
        lit("8"),
        lit("0"),
        p(';'),
        id("F"),
        group(Delimiter::Brace, vec![lit("2"), lit("1")]),
    ];
    let plan = reg::proc_macro(&ts).expect("plan");
    assert_eq!(plan.value_bits, 8);
    assert!(plan.imports.is_empty());
    assert_eq!(plan.fields.len(), 1);
    assert!(plan.fields[0].single_bit);
    assert!(plan.fields[0].accessors.is_empty());
}

#[test]
fn register_without_fields() {
    let ts = vec![
        id("crate"),
        id("mod"),
        id("B"),
        id("R"),
        p(';'),
        lit("0x4000_0000"),
        lit("16"),
        lit("0"),
        id("RReg"),
        p(';'),
    ];
    let d = reg_syntax::parse(&ts).expect("declaration");
    assert!(matches!(d.vis, Visibility::Crate));
    let plan = reg::proc_macro(&ts).expect("plan");
    assert!(plan.fields.is_empty());
    assert!(plan.marker);
    assert_eq!(plan.value_bits, 16);
    assert_eq!(names(&plan.imports), vec!["RReg"]);
}

#[test]
fn size_is_truncated_to_a_byte() {
    let ts = vec![
        id("mod"),
        id("B"),
        id("R"),
        p(';'),
        lit("0"),
        lit("264"),
        lit("0"),
        p(';'),
    ];
    let plan = reg::proc_macro(&ts).expect("plan");
    assert_eq!(plan.value_bits, 8);
}

#[test]
fn keyword_field_gets_underscore() {
    let ts = vec![
        id("mod"),
        id("B"),
        id("R"),
        p(';'),
        lit("0"),
        lit("32"),
        lit("0"),
        p(';'),
        id("TYPE"),
        group(Delimiter::Brace, vec![lit("0"), lit("4"), id("RRRegField"), id("WWRegField")]),
        id("VAL"),
        group(Delimiter::Brace, vec![lit("4"), lit("4")]),
    ];
    let plan = reg::proc_macro(&ts).expect("plan");
    assert_eq!(plan.fields[0].member, "_type");
    assert!(matches!(&plan.fields[0].accessors[0], Accessor::ReadBits(n) if n == "_type"));
    assert!(matches!(&plan.fields[0].accessors[1], Accessor::WriteBits(n) if n == "write_type"));
    assert_eq!(plan.fields[1].ty, "Val_");
}

#[test]
fn restricted_visibility() {
    let ts = vec![
        id("pub"),
        group(Delimiter::Parenthesis, vec![id("crate")]),
        id("mod"),
        id("B"),
        id("R"),
        p(';'),
        lit("0"),
        lit("32"),
        lit("0"),
        p(';'),
    ];
    let d = reg_syntax::parse(&ts).expect("declaration");
    assert!(matches!(&d.vis, Visibility::Restricted(c) if c.len() == 1));
}

#[test]
fn refuses_missing_semicolon() {
    let ts = vec![id("mod"), id("B"), id("R"), lit("0"), lit("32"), lit("0"), p(';')];
    assert_eq!(reg::proc_macro(&ts).err(), Some(ParseError));
}

#[test]
fn refuses_keyword_register_name() {
    let ts = vec![id("mod"), id("B"), id("type"), p(';'), lit("0"), lit("32"), lit("0"), p(';')];
    assert!(reg::proc_macro(&ts).is_err());
}

#[test]
fn refuses_non_integer_literal() {
    let ts = vec![id("mod"), id("B"), id("R"), p(';'), lit("\"x\""), lit("32"), lit("0"), p(';')];
    assert!(reg::proc_macro(&ts).is_err());
    let ts = vec![id("mod"), id("B"), id("R"), p(';'), lit("1.5"), lit("32"), lit("0"), p(';')];
    assert!(reg::proc_macro(&ts).is_err());
}

#[test]
fn refuses_unfinished_field() {
    let ts = vec![
        id("mod"),
        id("B"),
        id("R"),
        p(';'),
        lit("0"),
        lit("32"),
        lit("0"),
        p(';'),
        id("F"),
    ];
    assert!(reg::proc_macro(&ts).is_err());
}

#[test]
fn refuses_bad_attribute() {
    let mut ts = vec![p('#'), group(Delimiter::Bracket, vec![lit("1")])];
    ts.extend(vec![id("mod"), id("B"), id("R"), p(';'), lit("0"), lit("32"), lit("0"), p(';')]);
    assert!(reg::proc_macro(&ts).is_err());
}

#[test]
fn refuses_restricted_visibility_with_extra_tokens() {
    let ts = vec![
        id("pub"),
        group(Delimiter::Parenthesis, vec![id("crate"), id("x")]),
        id("mod"),
        id("B"),
        id("R"),
        p(';'),
        lit("0"),
        lit("32"),
        lit("0"),
        p(';'),
    ];
    assert!(reg::proc_macro(&ts).is_err());
}

fn sized(size: &str) -> Vec<Token> {
    vec![id("mod"), id("B"), id("R"), p(';'), lit("0"), lit(size), lit("0"), p(';')]
}

#[test]
fn size_literal_forms() {
    assert_eq!(reg::proc_macro(&sized("0b100000")).expect("plan").value_bits, 32);
    assert_eq!(reg::proc_macro(&sized("0o20")).expect("plan").value_bits, 16);
    assert_eq!(reg::proc_macro(&sized("6_4usize")).expect("plan").value_bits, 64);
    assert_eq!(reg::proc_macro(&sized("8u8")).expect("plan").value_bits, 8);
    assert_eq!(reg::proc_macro(&sized("32x")).expect("plan").value_bits, 32);
    assert!(reg::proc_macro(&sized("0b102")).is_err());
    assert!(reg::proc_macro(&sized("x")).is_err());
    assert!(reg::proc_macro(&sized("'a'")).is_err());
}

#[test]
fn accepts_await_as_register_name() {
    let ts = vec![id("mod"), id("B"), id("dyn"), p(';'), lit("0"), lit("32"), lit("0"), id("async"), p(';')];
    let plan = reg::proc_macro(&ts).expect("plan");
    assert_eq!(plan.module, "b_dyn");
}

/// The tokens as text: one space between tokens, none inside delimiters.
fn render(ts: &[Token]) -> String {
    let parts: Vec<String> = ts
        .iter()
        .filter(|t| !matches!(t, Token::Space))
        .map(|t| match t {
            Token::Ident(s) | Token::Literal(s) => s.clone(),
            Token::Punct(c) => c.to_string(),
            Token::Group(d, inner) => {
                let (open, close) = match d {
                    Delimiter::Parenthesis => ("(", ")"),
                    Delimiter::Brace => ("{", "}"),
                    Delimiter::Bracket => ("[", "]"),
                    Delimiter::Invisible => ("", ""),
                };
                format!("{}{}{}", open, render(inner), close)
            }
            Token::Space => String::new(),
        })
        .collect();
    parts.join(" ")
}

const REG_TAG: &str = ": : drone_core : : reg : : tag : : RegTag";

#[test]
fn expands_register_without_fields() {
    let ts = vec![
        id("mod"),
        id("B"),
        id("R"),
        p(';'),
        lit("0x40"),
        lit("32"),
        lit("0"),
        id("RReg"),
        p(';'),
    ];
    let plan = reg::proc_macro(&ts).expect("plan");
    let out = render(&reg_items::expand(&plan));
    let bounded = format!("< _T : {} >", REG_TAG);
    let tag = |t: &str| format!(": : drone_core : : reg : : tag : : {}", t);
    let expected = [
        "mod b_r {use super : : {RReg} ;".to_string(),
        "use : : drone_core : : bitfield : : Bitfield ;".to_string(),
        "# [derive (Bitfield , Clone , Copy)] pub struct Val (u32) ;".to_string(),
        format!(
            "# [derive (Clone , Copy)] pub struct Reg {} {{_marker : : : core : : marker : : \
             PhantomData < _T >}}",
            bounded
        ),
        format!(
            "unsafe impl {} : : drone_core : : token : : Token for Reg < _T > {{# [inline] unsafe \
             fn take () - > Self {{Self {{_marker : : : core : : marker : : PhantomData ,}}}}}}",
            bounded
        ),
        format!(
            "impl {} : : drone_core : : reg : : Reg < _T > for Reg < _T > {{type Val = Val ; \
             type UReg = Reg < {} > ; type SReg = Reg < {} > ; type CReg = Reg < {} > ; \
             const ADDRESS : usize = 0x40 ; const RESET : u32 = 0 ; # [inline] unsafe fn \
             val_from (bits : u32) - > Val {{Val (bits)}}}}",
            bounded,
            tag("Urt"),
            tag("Srt"),
            tag("Crt")
        ),
        format!(
            "impl < ' a , _T > : : drone_core : : reg : : RegRef < ' a , _T > for Reg < _T > \
             where _T : {} + ' a , {{type Hold = Hold < ' a , _T > ; # [inline] fn hold \
             (& ' a self , val : Self : : Val) - > Self : : Hold {{Hold {{reg : self , val}}}}}}",
            REG_TAG
        ),
        format!(
            "pub struct Hold < ' a , _T : {} > {{reg : & ' a Reg < _T > , val : Val ,}}",
            REG_TAG
        ),
        format!(
            "impl < ' a , _T > : : drone_core : : reg : : RegHold < ' a , _T , Reg < _T > > for \
             Hold < ' a , _T > where _T : {} , {{# [inline] fn val (& self) - > Val {{self . val}} \
             # [inline] fn set_val (& mut self , val : Val) {{self . val = val ;}}}}",
            REG_TAG
        ),
        format!("impl {} RReg < _T > for Reg < _T > {{}}}}", bounded),
    ]
    .join(" ");
    assert_eq!(out, expected);
}

#[test]
fn expands_field_accessors() {
    let ts = vec![
        id("mod"),
        id("B"),
        id("R"),
        p(';'),
        lit("0x40"),
        lit("16"),
        lit("0"),
        p(';'),
        id("EN"),
        group(Delimiter::Brace, vec![lit("0"), lit("1"), id("RRRegField")]),
        id("DATA"),
        group(Delimiter::Brace, vec![lit("1"), lit("4"), id("WWRegField")]),
    ];
    let plan = reg::proc_macro(&ts).expect("plan");
    let out = render(&reg_items::expand(&plan));
    assert!(out.starts_with("mod b_r {use super : : {RRRegField , WWRegField} ;"));
    assert!(out.contains(&format!(
        "pub struct Reg < _T : {} > {{pub en : En < _T > , pub data : Data < _T >}}",
        REG_TAG
    )));
    assert!(out.contains("Self {en : : : drone_core : : token : : Token : : take () , \
         data : : : drone_core : : token : : Token : : take () ,}"));
    assert!(out.contains(&format!(
        "# [derive (Clone , Copy)] pub struct En < _T : {} > (_T) ;",
        REG_TAG
    )));
    assert!(out.contains("const OFFSET : usize = 1 ; const WIDTH : usize = 4 ;"));
    assert!(out.contains(&format!(
        "impl < _T > : : drone_core : : reg : : field : : RegFieldBit < _T > for En < _T > where \
         _T : {} , {{}}",
        REG_TAG
    )));
    assert!(out.contains(&format!(
        "impl < ' a , _T : {} > Hold < ' a , _T > {{# [inline] pub fn en (& self) - > bool \
         {{: : drone_core : : reg : : field : : RRRegFieldBit : : read (& self . reg . en , \
         & self . val ,)}}}}",
        REG_TAG
    )));
    assert!(out.contains(
        "# [inline] pub fn write_data (& mut self , bits : u16) - > & mut Self {: : drone_core : : \
         reg : : field : : WWRegFieldBits : : write (& self . reg . data , & mut self . val , bits \
         ,) ; self}"
    ));
    assert!(!out.contains("_marker"));
}

#[test]
fn value_type_names() {
    assert_eq!(reg_items::value_type_name(8), "u8");
    assert_eq!(reg_items::value_type_name(32), "u32");
    assert_eq!(reg_items::value_type_name(128), "u128");
    assert_eq!(reg_items::value_type_name(0), "u0");
}

/// The expansion of the register test, as text.
fn test_reg_expansion() -> String {
    let plan = reg::proc_macro(&test_reg_tokens()).expect("plan");
    render(&reg_items::expand(&plan))
}

#[test]
fn reg_val_default() {
    let out = test_reg_expansion();
    assert!(out.contains("# [derive (Bitfield , Clone , Copy)] pub struct Val (u32) ;"));
    assert!(out.contains("const RESET : u32 = 0xBEEF_CACE ;"));
    assert!(out.contains("unsafe fn val_from (bits : u32) - > Val {Val (bits)}"));
}

#[test]
fn size_of_reg() {
    let out = test_reg_expansion();
    assert!(out.contains(&format!(
        "pub struct Reg < _T : {} > {{pub test_bit : TestBit < _T > , pub test_bits : TestBits < _T >}}",
        REG_TAG
    )));
    for field in ["TestBit", "TestBits"].iter() {
        assert!(out.contains(&format!("pub struct {} < _T : {} > (_T) ;", field, REG_TAG)));
    }
    for tag in ["Urt", "Srt", "Crt"].iter() {
        let short = &tag[..1];
        assert!(out.contains(&format!(
            "type {}Reg = Reg < : : drone_core : : reg : : tag : : {} > ;",
            short, tag
        )));
    }
    assert!(!out.contains("_marker"));
}

#[test]
fn size_of_reg_val() {
    let plan = reg::proc_macro(&test_reg_tokens()).expect("plan");
    assert_eq!(plan.value_bits, 32);
    assert_eq!(reg_items::value_type_name(plan.value_bits), "u32");
    assert!(test_reg_expansion().contains("pub struct Val (u32) ;"));
}
