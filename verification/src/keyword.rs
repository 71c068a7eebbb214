//! Reserved words: those that an identifier of the grammar may not be, and
//! those that a generated name must steer clear of.

use vstd::prelude::*;

verus! {

/// The words that the identifier parser refuses: `_`, the keywords and the
/// reserved words.
pub const IDENT_RESERVED: [&'static str; 48] = [
    "_", "abstract", "as", "become", "box", "break", "const", "continue", "crate", "do", "else",
    "enum", "extern", "false", "final", "fn", "for", "if", "impl", "in", "let", "loop", "macro",
    "match", "mod", "move", "mut", "override", "priv", "pub", "ref", "return", "Self", "self",
    "static", "struct", "super", "trait", "true", "type", "typeof", "unsafe", "unsized", "use",
    "virtual", "where", "while", "yield",
];

/// Whether `s` is one of `words`.
pub open spec fn one_of(words: Seq<&str>, s: Seq<char>) -> bool {
    exists|i: int| 0 <= i < words.len() && (#[trigger] words[i])@ == s
}

fn word_in(words: &[&str], s: &str) -> (r: bool)
    ensures
        r == one_of(words@, s@),
{
    let target = s.to_owned();
    let mut i: usize = 0;
    while i < words.len()
        invariant
            i <= words@.len(),
            target@ == s@,
            forall|j: int| 0 <= j < i ==> (#[trigger] words@[j])@ != s@,
        decreases words@.len() - i,
    {
        let w = words[i].to_owned();
        if w == target {
            return true;
        }
        i = i + 1;
    }
    false
}

pub open spec fn is_ident_reserved(s: Seq<char>) -> bool {
    one_of(IDENT_RESERVED@, s)
}

/// Whether the identifier parser refuses `s`.
pub fn ident_reserved(s: &str) -> (r: bool)
    ensures
        r == is_ident_reserved(s@),
{
    word_in(&IDENT_RESERVED, s)
}


/// The keywords of the language, strict and reserved: a generated name that
/// equals one of them is changed.
pub const KEYWORDS: [&'static str; 51] = [
    "as", "break", "const", "continue", "crate", "else", "enum", "extern", "false", "fn",
    "for", "if", "impl", "in", "let", "loop", "match", "mod", "move", "mut", "pub", "ref",
    "return", "self", "Self", "static", "struct", "super", "trait", "true", "type", "unsafe",
    "use", "where", "while", "async", "await", "dyn", "abstract", "become", "box", "do",
    "final", "macro", "override", "priv", "typeof", "unsized", "virtual", "yield", "try",
];

pub open spec fn is_keyword(s: Seq<char>) -> bool {
    one_of(KEYWORDS@, s)
}

/// Whether `s` is a keyword of the language.
pub fn keyword(s: &str) -> (r: bool)
    ensures
        r == is_keyword(s@),
{
    word_in(&KEYWORDS, s)
}

/// `s`, with an underscore put in front where `s` is a keyword.
pub open spec fn unkeywordized(s: Seq<char>) -> Seq<char> {
    if is_keyword(s) {
        seq!['_'] + s
    } else {
        s
    }
}

/// Makes `s` usable as a name: a keyword gets an underscore in front of it,
/// any other word is returned as it is.
pub fn unkeywordize(s: &str) -> (r: String)
    ensures
        r@ == unkeywordized(s@),
{
    if keyword(s) {
        let mut r = "_".to_owned();
        proof {
            reveal_strlit("_");
        }
        r.append(s);
        r
    } else {
        s.to_owned()
    }
}

/// No keyword starts with an underscore.
proof fn lemma_keywords_start_with_letter()
    ensures
        forall|i: int| 0 <= i < KEYWORDS@.len() ==> (#[trigger] KEYWORDS@[i])@[0] != '_',
{
    reveal_strlit("as");
    reveal_strlit("break");
    reveal_strlit("const");
    reveal_strlit("continue");
    reveal_strlit("crate");
    reveal_strlit("else");
    reveal_strlit("enum");
    reveal_strlit("extern");
    reveal_strlit("false");
    reveal_strlit("fn");
    reveal_strlit("for");
    reveal_strlit("if");
    reveal_strlit("impl");
    reveal_strlit("in");
    reveal_strlit("let");
    reveal_strlit("loop");
    reveal_strlit("match");
    reveal_strlit("mod");
    reveal_strlit("move");
    reveal_strlit("mut");
    reveal_strlit("pub");
    reveal_strlit("ref");
    reveal_strlit("return");
    reveal_strlit("self");
    reveal_strlit("Self");
    reveal_strlit("static");
    reveal_strlit("struct");
    reveal_strlit("super");
    reveal_strlit("trait");
    reveal_strlit("true");
    reveal_strlit("type");
    reveal_strlit("unsafe");
    reveal_strlit("use");
    reveal_strlit("where");
    reveal_strlit("while");
    reveal_strlit("async");
    reveal_strlit("await");
    reveal_strlit("dyn");
    reveal_strlit("abstract");
    reveal_strlit("become");
    reveal_strlit("box");
    reveal_strlit("do");
    reveal_strlit("final");
    reveal_strlit("macro");
    reveal_strlit("override");
    reveal_strlit("priv");
    reveal_strlit("typeof");
    reveal_strlit("unsized");
    reveal_strlit("virtual");
    reveal_strlit("yield");
    reveal_strlit("try");
}

/// A name made usable by `unkeywordize` is never a keyword.
pub proof fn lemma_unkeywordized_is_not_keyword(s: Seq<char>)
    ensures
        !is_keyword(unkeywordized(s)),
{
    lemma_keywords_start_with_letter();
    if is_keyword(s) {
        let t = seq!['_'] + s;
        assert(t[0] == '_');
        if is_keyword(t) {
            let i = choose|i: int| 0 <= i < KEYWORDS@.len() && (#[trigger] KEYWORDS@[i])@ == t;
            assert(KEYWORDS@[i]@[0] != '_');
        }
    }
}

} // verus!
