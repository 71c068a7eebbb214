//! Names of generated items: case conversion, and lists of words without
//! repetition.

use vstd::prelude::*;

verus! {

/// The snake-case form of a word, as the `Inflector` crate computes it.
pub uninterp spec fn snake_case(s: Seq<char>) -> Seq<char>;

/// The Pascal-case form of a word, as the `Inflector` crate computes it.
pub uninterp spec fn pascal_case(s: Seq<char>) -> Seq<char>;

/// `Inflector::to_snake_case`: the contract claims only that the result is a
/// function of the text, named `snake_case`.
#[verifier::external_body]
pub(crate) fn to_snake_case(s: &str) -> (r: String)
    ensures
        r@ == snake_case(s@),
{
    inflector::Inflector::to_snake_case(s)
}

/// `Inflector::to_pascal_case`: the contract claims only that the result is a
/// function of the text, named `pascal_case`.
#[verifier::external_body]
pub(crate) fn to_pascal_case(s: &str) -> (r: String)
    ensures
        r@ == pascal_case(s@),
{
    inflector::Inflector::to_pascal_case(s)
}

/// `a`, then `sep`, then `b`.
pub fn joined(a: &str, sep: &str, b: &str) -> (r: String)
    ensures
        r@ == a@ + sep@ + b@,
{
    let mut r = a.to_owned();
    r.append(sep);
    r.append(b);
    r
}

/// The words of `s` in the order of their first occurrence, each once.
pub open spec fn dedup(s: Seq<Seq<char>>) -> Seq<Seq<char>>
    decreases s.len(),
{
    if s.len() == 0 {
        Seq::empty()
    } else {
        let d = dedup(s.drop_last());
        if d.contains(s.last()) {
            d
        } else {
            d.push(s.last())
        }
    }
}

/// The words of a `dedup` are those of its argument, and none occurs twice.
pub proof fn lemma_dedup(s: Seq<Seq<char>>)
    ensures
        dedup(s).to_set() == s.to_set(),
        dedup(s).no_duplicates(),
    decreases s.len(),
{
    if s.len() > 0 {
        let init = s.drop_last();
        lemma_dedup(init);
        let d = dedup(init);
        assert(s =~= init.push(s.last()));
        assert(s.to_set() =~= init.to_set().insert(s.last())) by {
            assert forall|x| s.to_set().contains(x) <==> init.to_set().insert(s.last()).contains(x) by {
                if s.contains(x) {
                    let i = choose|i: int| 0 <= i < s.len() && s[i] == x;
                    if i < s.len() - 1 {
                        assert(init[i] == x);
                    }
                }
                if init.contains(x) {
                    let i = choose|i: int| 0 <= i < init.len() && init[i] == x;
                    assert(s[i] == x);
                }
            }
        }
        if d.contains(s.last()) {
            assert(d.to_set().contains(s.last()));
            assert(init.to_set().insert(s.last()) =~= init.to_set());
        } else {
            let e = d.push(s.last());
            assert(e.to_set() =~= d.to_set().insert(s.last())) by {
                assert forall|x| e.to_set().contains(x) <==> d.to_set().insert(s.last()).contains(x) by {
                    if e.contains(x) {
                        let i = choose|i: int| 0 <= i < e.len() && e[i] == x;
                        if i < e.len() - 1 {
                            assert(d[i] == x);
                        }
                    }
                    if d.contains(x) {
                        let i = choose|i: int| 0 <= i < d.len() && d[i] == x;
                        assert(e[i] == x);
                    }
                    if x == s.last() {
                        assert(e[e.len() - 1] == x);
                    }
                }
            }
            assert forall|i: int, j: int| 0 <= i < e.len() && 0 <= j < e.len() && i != j implies e[i]
                != e[j] by {
                if i == e.len() - 1 {
                    assert(d[j] == e[j]);
                } else if j == e.len() - 1 {
                    assert(d[i] == e[i]);
                }
            }
        }
    }
}

/// Whether `w` is one of `ws`.
pub fn contains_word(ws: &Vec<String>, w: &str) -> (r: bool)
    ensures
        r == strs(ws@).contains(w@),
{
    let target = w.to_owned();
    let mut i: usize = 0;
    while i < ws.len()
        invariant
            i <= ws.len(),
            target@ == w@,
            forall|j: int| 0 <= j < i ==> (#[trigger] ws@[j])@ != w@,
        decreases ws.len() - i,
    {
        if ws[i] == target {
            proof {
                assert(strs(ws@)[i as int] == w@);
            }
            return true;
        }
        i = i + 1;
    }
    proof {
        if strs(ws@).contains(w@) {
            let j = choose|j: int| 0 <= j < ws@.len() && strs(ws@)[j] == w@;
            assert(ws@[j]@ == w@);
        }
    }
    false
}

/// The models of a sequence of strings.
pub open spec fn strs(v: Seq<String>) -> Seq<Seq<char>> {
    v.map_values(|s: String| s@)
}

/// Appends to `acc` each word of `ws` that it does not hold yet: where `acc`
/// holds the words of `pre` each once, it then holds those of `pre` and `ws`.
pub(crate) fn extend_dedup(acc: &mut Vec<String>, ws: &Vec<String>, Ghost(pre): Ghost<Seq<Seq<char>>>)
    requires
        dedup(pre) == strs(old(acc)@),
    ensures
        strs(final(acc)@) == dedup(pre + strs(ws@)),
{
    let mut i: usize = 0;
    while i < ws.len()
        invariant
            i <= ws.len(),
            dedup(pre + strs(ws@).take(i as int)) == strs(acc@),
        decreases ws.len() - i,
    {
        let ghost before = strs(acc@);
        let w = ws[i].as_str();
        if !contains_word(acc, w) {
            acc.push(ws[i].clone());
        }
        proof {
            let s = pre + strs(ws@).take(i + 1);
            assert(s.drop_last() =~= pre + strs(ws@).take(i as int));
            assert(s.last() == w@);
            assert(strs(acc@) =~= (if before.contains(w@) {
                before
            } else {
                before.push(w@)
            }));
        }
        i = i + 1;
    }
    proof {
        assert(strs(ws@).take(ws.len() as int) =~= strs(ws@));
    }
}

} // verus!
