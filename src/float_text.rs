use vstd::prelude::*;

use crate::text::{all_digits, is_digit, slice_chars};

verus! {

pub open spec fn is_sign(c: char) -> bool {
    c == '+' || c == '-'
}

pub open spec fn is_exp_mark(c: char) -> bool {
    c == 'e' || c == 'E'
}

/// `c` is the lower case letter `l`, or its upper case form.
pub open spec fn same_letter(c: char, l: char) -> bool {
    c == l || c as u32 + 32 == l as u32
}

/// `t` spells the lower case word `w`, ignoring case.
pub open spec fn word_ci(t: Seq<char>, w: Seq<char>) -> bool {
    t.len() == w.len() && forall|i: int| 0 <= i < t.len() ==> same_letter(#[trigger] t[i], w[i])
}

/// Digits with at most one decimal point, and at least one digit.
pub open spec fn mantissa_syntax(m: Seq<char>) -> bool {
    &&& exists|i: int| 0 <= i < m.len() && is_digit(#[trigger] m[i])
    &&& forall|i: int| 0 <= i < m.len() ==> is_digit(#[trigger] m[i]) || m[i] == '.'
    &&& forall|i: int, j: int|
        0 <= i < m.len() && 0 <= j < m.len() && #[trigger] m[i] == '.' && #[trigger] m[j] == '.'
            ==> i == j
}

/// An optional sign followed by one or more digits.
pub open spec fn exponent_syntax(x: Seq<char>) -> bool {
    let d = if x.len() > 0 && is_sign(x[0]) {
        x.drop_first()
    } else {
        x
    };
    d.len() > 0 && all_digits(d)
}

/// A decimal number without sign, with an optional exponent after `e` or `E`.
pub open spec fn number_syntax(b: Seq<char>) -> bool {
    ||| mantissa_syntax(b)
    ||| exists|k: int|
        0 <= k < b.len() && is_exp_mark(#[trigger] b[k]) && mantissa_syntax(b.take(k))
            && exponent_syntax(b.skip(k + 1))
}

/// The text after an optional leading sign.
pub open spec fn unsigned_part(s: Seq<char>) -> Seq<char> {
    if s.len() > 0 && is_sign(s[0]) {
        s.drop_first()
    } else {
        s
    }
}

/// The strings that `str::parse` accepts as a 64-bit float: an optional sign, then
/// `inf`, `infinity` or `nan` in any case, or a decimal number.
pub open spec fn float_syntax(s: Seq<char>) -> bool {
    let b = unsigned_part(s);
    ||| word_ci(b, seq!['i', 'n', 'f'])
    ||| word_ci(b, seq!['i', 'n', 'f', 'i', 'n', 'i', 't', 'y'])
    ||| word_ci(b, seq!['n', 'a', 'n'])
    ||| number_syntax(b)
}

fn all_digits_exec(d: &Vec<char>) -> (r: bool)
    ensures
        r == all_digits(d@),
{
    let mut i: usize = 0;
    while i < d.len()
        invariant
            i <= d@.len(),
            forall|k: int| 0 <= k < i ==> is_digit(#[trigger] d@[k]),
        decreases d@.len() - i,
    {
        if !('0' <= d[i] && d[i] <= '9') {
            assert(!is_digit(d@[i as int]));
            return false;
        }
        i = i + 1;
    }
    true
}

fn word_ci_exec(t: &Vec<char>, w: &Vec<char>) -> (r: bool)
    ensures
        r == word_ci(t@, w@),
{
    if t.len() != w.len() {
        return false;
    }
    let mut i: usize = 0;
    while i < t.len()
        invariant
            i <= t@.len(),
            t@.len() == w@.len(),
            forall|k: int| 0 <= k < i ==> same_letter(#[trigger] t@[k], w@[k]),
        decreases t@.len() - i,
    {
        let c = t[i];
        let l = w[i];
        if !(c == l || (l as u32 >= 32 && c as u32 == l as u32 - 32)) {
            assert(!same_letter(t@[i as int], w@[i as int]));
            return false;
        }
        i = i + 1;
    }
    true
}

fn mantissa_exec(m: &Vec<char>) -> (r: bool)
    ensures
        r == mantissa_syntax(m@),
{
    let mut seen_digit = false;
    let mut dot: Option<usize> = None;
    let mut i: usize = 0;
    while i < m.len()
        invariant
            i <= m@.len(),
            seen_digit ==> exists|k: int| 0 <= k < i && is_digit(#[trigger] m@[k]),
            !seen_digit ==> forall|k: int| 0 <= k < i ==> !is_digit(#[trigger] m@[k]),
            forall|k: int| 0 <= k < i ==> is_digit(#[trigger] m@[k]) || m@[k] == '.',
            dot matches Some(p) ==> p < i && m@[p as int] == '.' && forall|k: int|
                0 <= k < i && #[trigger] m@[k] == '.' ==> k == p,
            dot is None ==> forall|k: int| 0 <= k < i ==> #[trigger] m@[k] != '.',
        decreases m@.len() - i,
    {
        let c = m[i];
        if '0' <= c && c <= '9' {
            seen_digit = true;
        } else if c == '.' {
            if let Some(p) = dot {
                assert(m@[p as int] == '.' && m@[i as int] == '.' && p != i);
                return false;
            }
            dot = Some(i);
        } else {
            assert(!is_digit(m@[i as int]) && m@[i as int] != '.');
            return false;
        }
        i = i + 1;
    }
    seen_digit
}

fn exponent_exec(x: &Vec<char>) -> (r: bool)
    ensures
        r == exponent_syntax(x@),
{
    let start: usize = if x.len() > 0 && (x[0] == '+' || x[0] == '-') {
        1
    } else {
        0
    };
    let d = slice_chars(x, start, x.len());
    assert(start == 1 ==> d@ =~= x@.drop_first());
    assert(start == 0 ==> d@ =~= x@);
    d.len() > 0 && all_digits_exec(&d)
}

fn number_exec(b: &Vec<char>) -> (r: bool)
    ensures
        r == number_syntax(b@),
{
    let mut k: usize = 0;
    while k < b.len() && !(b[k] == 'e' || b[k] == 'E')
        invariant
            k <= b@.len(),
            forall|j: int| 0 <= j < k ==> !is_exp_mark(#[trigger] b@[j]),
        decreases b@.len() - k,
    {
        k = k + 1;
    }
    if k == b.len() {
        let r = mantissa_exec(b);
        proof {
            assert forall|j: int|
                0 <= j < b@.len() && is_exp_mark(#[trigger] b@[j]) implies !(mantissa_syntax(
                b@.take(j),
            ) && exponent_syntax(b@.skip(j + 1))) by {}
        }
        r
    } else {
        let head = slice_chars(b, 0, k);
        let tail = slice_chars(b, k + 1, b.len());
        assert(head@ =~= b@.take(k as int));
        assert(tail@ =~= b@.skip(k + 1));
        let r = mantissa_exec(&head) && exponent_exec(&tail);
        proof {
            assert(!is_digit(b@[k as int]) && b@[k as int] != '.');
            assert(!mantissa_syntax(b@));
            assert forall|j: int|
                0 <= j < b@.len() && j != k && is_exp_mark(#[trigger] b@[j]) implies !mantissa_syntax(
                b@.take(j),
            ) by {
                assert(j > k);
                assert(b@.take(j)[k as int] == b@[k as int]);
            }
        }
        r
    }
}

/// Tells whether `s` is text that reads as a 64-bit float.
pub fn float_text_ok(s: &Vec<char>) -> (r: bool)
    ensures
        r == float_syntax(s@),
{
    let start: usize = if s.len() > 0 && (s[0] == '+' || s[0] == '-') {
        1
    } else {
        0
    };
    let b = slice_chars(s, start, s.len());
    assert(b@ =~= unsigned_part(s@));
    let inf = vec!['i', 'n', 'f'];
    let infinity = vec!['i', 'n', 'f', 'i', 'n', 'i', 't', 'y'];
    let nan = vec!['n', 'a', 'n'];
    assert(inf@ =~= seq!['i', 'n', 'f']);
    assert(infinity@ =~= seq!['i', 'n', 'f', 'i', 'n', 'i', 't', 'y']);
    assert(nan@ =~= seq!['n', 'a', 'n']);
    word_ci_exec(&b, &inf) || word_ci_exec(&b, &infinity) || word_ci_exec(&b, &nan) || number_exec(&b)
}

} // verus!
