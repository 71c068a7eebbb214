//! Integer literals: their text and their value.
//!
//! A literal is read as an integer where it starts with a decimal digit and
//! does not read as a floating-point number. After an optional base prefix
//! (`0x`, `0o`, `0b`) its digits run, mixed with underscores, up to the first
//! other character; whatever follows is its suffix. Its value is that of its
//! digits, and there is none where a digit lies outside the base, where a
//! decimal literal's digits end in an exponent, or where the value does not
//! fit in a `u64`.

use vstd::prelude::*;

verus! {

/// The value of `c` as a digit, in any base up to 16; -1 where it is none.
pub open spec fn digit_of(c: char) -> int {
    if '0' <= c && c <= '9' {
        c as int - '0' as int
    } else if 'a' <= c && c <= 'f' {
        c as int - 'a' as int + 10
    } else if 'A' <= c && c <= 'F' {
        c as int - 'A' as int + 10
    } else {
        -1
    }
}

/// The base that the prefix of `t` selects.
pub open spec fn literal_base(t: Seq<char>) -> int {
    if t.len() >= 2 && t[0] == '0' && t[1] == 'x' {
        16
    } else if t.len() >= 2 && t[0] == '0' && t[1] == 'o' {
        8
    } else if t.len() >= 2 && t[0] == '0' && t[1] == 'b' {
        2
    } else {
        10
    }
}

/// Whether `c` is a decimal digit.
pub open spec fn is_dec(c: char) -> bool {
    '0' <= c && c <= '9'
}

/// Whether `c` continues the digits of a literal in `base`: an underscore, a
/// decimal digit, or in base 16 a letter from `a` to `f` in either case.
pub open spec fn in_digits(c: char, base: int) -> bool {
    c == '_' || is_dec(c) || (base == 16 && digit_of(c) >= 0)
}

/// Where the digits of `t` that start at `i` end.
pub open spec fn digits_end(t: Seq<char>, i: int, base: int) -> int
    decreases t.len() - i,
{
    if 0 <= i < t.len() && in_digits(t[i], base) {
        digits_end(t, i + 1, base)
    } else {
        i
    }
}

/// The value of the digits `s` in `base`; underscores count for nothing.
pub open spec fn digits_value(s: Seq<char>, base: int) -> int
    decreases s.len(),
{
    if s.len() == 0 {
        0
    } else if s.last() == '_' {
        digits_value(s.drop_last(), base)
    } else {
        digits_value(s.drop_last(), base) * base + digit_of(s.last())
    }
}

/// Whether the digits `s` hold a decimal digit that `base` does not have.
pub open spec fn has_foreign_digit(s: Seq<char>, base: int) -> bool {
    exists|i: int| 0 <= i < s.len() && is_dec(s[i]) && digit_of(s[i]) >= base
}

/// Whether `c` occurs in `t`.
pub open spec fn has_char(t: Seq<char>, c: char) -> bool {
    exists|i: int| 0 <= i < t.len() && t[i] == c
}

/// Whether `t` ends with `size`.
pub open spec fn ends_with_size(t: Seq<char>) -> bool {
    t.len() >= 4 && t.subrange(t.len() - 4, t.len() as int) == seq!['s', 'i', 'z', 'e']
}

/// Whether the literal `t` reads as a floating-point number: it holds a `.`,
/// or, unless it is hexadecimal or ends with `size`, an exponent mark `e` or
/// `E`.
pub open spec fn is_float_literal(t: Seq<char>) -> bool {
    has_char(t, '.') || (!(t.len() >= 2 && t[0] == '0' && t[1] == 'x') && !ends_with_size(t) && (
    has_char(t, 'e') || has_char(t, 'E')))
}

/// The value of the integer literal written `t`; `None` where `t` does not
/// read as an integer literal or its value does not fit in a `u64`.
pub open spec fn int_literal_value(t: Seq<char>) -> Option<u64> {
    let base = literal_base(t);
    let start = if base == 10 {
        0
    } else {
        2
    };
    let end = digits_end(t, start, base);
    let digits = t.subrange(start, end);
    if !(t.len() > 0 && is_dec(t[0])) || is_float_literal(t) {
        None
    } else if base == 10 && end < t.len() && (t[end] == 'e' || t[end] == 'E') {
        None
    } else if has_foreign_digit(digits, base) || digits_value(digits, base) > u64::MAX {
        None
    } else {
        Some(digits_value(digits, base) as u64)
    }
}

/// The characters of `s`.
pub fn chars_of(s: &str) -> (r: Vec<char>)
    ensures
        r@ == s@,
{
    let n = s.unicode_len();
    let mut r: Vec<char> = Vec::new();
    let mut i: usize = 0;
    while i < n
        invariant
            n == s@.len(),
            i <= n,
            r@ == s@.take(i as int),
        decreases n - i,
    {
        r.push(s.get_char(i));
        proof {
            assert(r@ =~= s@.take(i + 1));
        }
        i = i + 1;
    }
    proof {
        assert(s@.take(n as int) =~= s@);
    }
    r
}

fn digit_value(c: char) -> (r: u64)
    requires
        digit_of(c) >= 0,
    ensures
        r == digit_of(c),
{
    if '0' <= c && c <= '9' {
        (c as u32 - '0' as u32) as u64
    } else if 'a' <= c && c <= 'f' {
        (c as u32 - 'a' as u32 + 10) as u64
    } else {
        (c as u32 - 'A' as u32 + 10) as u64
    }
}

/// Whether `c` occurs in `t`.
fn contains_char(t: &Vec<char>, c: char) -> (r: bool)
    ensures
        r == has_char(t@, c),
{
    let mut i: usize = 0;
    while i < t.len()
        invariant
            i <= t.len(),
            forall|m: int| 0 <= m < i ==> t@[m] != c,
        decreases t.len() - i,
    {
        if t[i] == c {
            return true;
        }
        i = i + 1;
    }
    false
}

proof fn lemma_digits_end(t: Seq<char>, i: int, base: int)
    requires
        0 <= i <= t.len(),
    ensures
        i <= digits_end(t, i, base) <= t.len(),
        forall|m: int| i <= m < digits_end(t, i, base) ==> in_digits(#[trigger] t[m], base),
        digits_end(t, i, base) < t.len() ==> !in_digits(t[digits_end(t, i, base)], base),
    decreases t.len() - i,
{
    if i < t.len() && in_digits(t[i], base) {
        lemma_digits_end(t, i + 1, base);
    }
}

proof fn lemma_digits_end_at(t: Seq<char>, i: int, j: int, base: int)
    requires
        0 <= i <= j <= t.len(),
        forall|m: int| i <= m < j ==> in_digits(#[trigger] t[m], base),
        j < t.len() ==> !in_digits(t[j], base),
    ensures
        digits_end(t, i, base) == j,
    decreases j - i,
{
    if i < j {
        lemma_digits_end_at(t, i + 1, j, base);
    }
}

proof fn lemma_value_grows(v: int, base: int, d: int)
    requires
        v > u64::MAX,
        base >= 2,
        d >= 0,
    ensures
        v * base + d > u64::MAX,
{
    assert(v * base >= v) by (nonlinear_arith)
        requires
            v > 0,
            base >= 2,
    ;
}

/// The value of the integer literal written `text`.
pub fn literal_value(text: &str) -> (r: Option<u64>)
    ensures
        r == int_literal_value(text@),
{
    let t = chars_of(text);
    let n = t.len();
    if !(n > 0 && '0' <= t[0] && t[0] <= '9') {
        return None;
    }
    let hex = n >= 2 && t[0] == '0' && t[1] == 'x';
    let size_end = n >= 4 && t[n - 4] == 's' && t[n - 3] == 'i' && t[n - 2] == 'z' && t[n - 1]
        == 'e';
    proof {
        if size_end {
            assert(t@.subrange(n - 4, n as int) =~= seq!['s', 'i', 'z', 'e']);
        }
        if n >= 4 && t@.subrange(n - 4, n as int) == seq!['s', 'i', 'z', 'e'] {
            assert(t@.subrange(n - 4, n as int)[0] == t@[n - 4]);
            assert(t@.subrange(n - 4, n as int)[1] == t@[n - 3]);
            assert(t@.subrange(n - 4, n as int)[2] == t@[n - 2]);
            assert(t@.subrange(n - 4, n as int)[3] == t@[n - 1]);
        }
    }
    if contains_char(&t, '.') || (!hex && !size_end && (contains_char(&t, 'e') || contains_char(
        &t,
        'E',
    ))) {
        return None;
    }
    let base: u64 = if hex {
        16
    } else if n >= 2 && t[0] == '0' && t[1] == 'o' {
        8
    } else if n >= 2 && t[0] == '0' && t[1] == 'b' {
        2
    } else {
        10
    };
    let start: usize = if base == 10 {
        0
    } else {
        2
    };
    let mut i: usize = start;
    let mut value: u64 = 0;
    let mut overflow = false;
    let mut foreign = false;
    while i < n && (t[i] == '_' || ('0' <= t[i] && t[i] <= '9') || (base == 16 && (('a' <= t[i]
        && t[i] <= 'f') || ('A' <= t[i] && t[i] <= 'F'))))
        invariant
            n == t@.len(),
            t@ == text@,
            base == literal_base(t@),
            2 <= base <= 16,
            start == (if base == 10 { 0int } else { 2int }),
            start <= i <= n,
            forall|m: int| start <= m < i ==> in_digits(#[trigger] t@[m], base as int),
            foreign == has_foreign_digit(t@.subrange(start as int, i as int), base as int),
            !foreign && overflow ==> digits_value(t@.subrange(start as int, i as int), base as int)
                > u64::MAX,
            !foreign && !overflow ==> value == digits_value(
                t@.subrange(start as int, i as int),
                base as int,
            ),
        decreases n - i,
    {
        let c = t[i];
        let ghost before = t@.subrange(start as int, i as int);
        let ghost after = t@.subrange(start as int, i + 1);
        proof {
            assert(after.drop_last() =~= before);
            assert(after.last() == c);
            assert(forall|m: int| 0 <= m < before.len() ==> before[m] == after[m]);
        }
        if c != '_' {
            let d = digit_value(c);
            if d >= base {
                foreign = true;
                proof {
                    assert(is_dec(after[after.len() - 1]));
                }
            } else {
                proof {
                    if has_foreign_digit(after, base as int) {
                        let m = choose|m: int|
                            0 <= m < after.len() && is_dec(after[m]) && digit_of(after[m])
                                >= base;
                        assert(m < before.len());
                    }
                }
                if !foreign && !overflow {
                    match value.checked_mul(base) {
                        Some(m) => match m.checked_add(d) {
                            Some(v) => {
                                value = v;
                            },
                            None => {
                                overflow = true;
                            },
                        },
                        None => {
                            overflow = true;
                            proof {
                                assert(value * base + d > u64::MAX) by (nonlinear_arith)
                                    requires
                                        value * base > u64::MAX,
                                        d >= 0,
                                ;
                            }
                        },
                    }
                } else if !foreign {
                    proof {
                        lemma_value_grows(digits_value(before, base as int), base as int, d as int);
                    }
                }
            }
            proof {
                assert(after[after.len() - 1] != '_');
            }
        } else {
            proof {
                if has_foreign_digit(after, base as int) {
                    let m = choose|m: int|
                        0 <= m < after.len() && is_dec(after[m]) && digit_of(after[m]) >= base;
                    assert(m < before.len());
                }
            }
        }
        i = i + 1;
    }
    proof {
        lemma_digits_end_at(t@, start as int, i as int, base as int);
    }
    if base == 10 && i < n && (t[i] == 'e' || t[i] == 'E') {
        return None;
    }
    if foreign || overflow {
        None
    } else {
        Some(value)
    }
}

} // verus!
