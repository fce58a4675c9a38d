use super::text::{all_digits, digit_value, is_digit};
use vstd::prelude::*;

verus! {

/// A decimal literal: digits, then optionally one point followed by digits.
pub open spec fn is_decimal_literal(s: Seq<char>) -> bool {
    &&& s.len() > 0
    &&& is_digit(s[0])
    &&& is_digit(s[s.len() - 1])
    &&& forall|i: int| 0 <= i < s.len() ==> is_digit(#[trigger] s[i]) || s[i] == '.'
    &&& forall|i: int, j: int|
        0 <= i < s.len() && 0 <= j < s.len() && #[trigger] s[i] == '.' && #[trigger] s[j] == '.'
            ==> i == j
}

/// `n` zeros.
pub open spec fn zeros(n: nat) -> Seq<char> {
    Seq::new(n, |i: int| '0')
}

/// `s` without its trailing zeros, but never shorter than one character.
pub open spec fn trim_zeros(s: Seq<char>) -> Seq<char>
    decreases s.len(),
{
    if s.len() > 1 && s[s.len() - 1] == '0' {
        trim_zeros(s.drop_last())
    } else {
        s
    }
}

/// The value of a run of decimal digits.
pub open spec fn digits_value(s: Seq<char>) -> nat
    decreases s.len(),
{
    if s.len() == 0 {
        0
    } else {
        digits_value(s.drop_last()) * 10 + digit_value(s[s.len() - 1])
    }
}

/// The index of the first `c` in `s`, or the length of `s` where there is none.
pub open spec fn first_index(s: Seq<char>, c: char) -> int
    decreases s.len(),
{
    if s.len() == 0 {
        0
    } else if s[0] == c {
        0
    } else {
        1 + first_index(s.drop_first(), c)
    }
}

proof fn lemma_first_index(s: Seq<char>, c: char, i: int)
    requires
        0 <= i <= s.len(),
        forall|k: int| 0 <= k < i ==> s[k] != c,
        i < s.len() ==> s[i] == c,
    ensures
        first_index(s, c) == i,
    decreases s.len(),
{
    if s.len() == 0 || i == 0 {
    } else {
        let t = s.drop_first();
        assert forall|k: int| 0 <= k < i - 1 implies t[k] != c by {
            assert(t[k] == s[k + 1]);
        }
        lemma_first_index(t, c, i - 1);
    }
}

/// The significant digits `d1 d2 .. dn` and the exponent `e` of a value
/// `d1.d2..dn x 10^e`.
pub struct Scientific {
    pub digits: Seq<char>,
    pub exponent: int,
}

/// Reads a text of the form `d.ddddE+x` or `d.ddddE-x`, with one to four
/// exponent digits; the trailing zeros of the significand are dropped.
pub open spec fn read_scientific(s: Seq<char>) -> Option<Scientific> {
    let e = first_index(s, 'E');
    if 3 <= e && e + 3 <= s.len() && s.len() - e <= 6
        && is_digit(s[0]) && s[1] == '.' && all_digits(s.subrange(2, e)) && (s[e + 1] == '+'
        || s[e + 1] == '-') && all_digits(s.subrange(e + 2, s.len() as int)) {
        let value = digits_value(s.subrange(e + 2, s.len() as int)) as int;
        Some(
            Scientific {
                digits: trim_zeros(seq![s[0]] + s.subrange(2, e)),
                exponent: if s[e + 1] == '-' {
                    -value
                } else {
                    value
                },
            },
        )
    } else {
        None
    }
}

/// The positional numeral of `d1.d2..dn x 10^e`: no exponent, no leading zeros
/// but the one before a leading point, no point when nothing follows it.
pub open spec fn positional(digits: Seq<char>, exponent: int) -> Seq<char> {
    let n = digits.len() as int;
    if exponent >= n - 1 {
        digits + zeros((exponent - (n - 1)) as nat)
    } else if exponent >= 0 {
        digits.subrange(0, exponent + 1) + seq!['.'] + digits.subrange(exponent + 1, n)
    } else {
        seq!['0', '.'] + zeros((-exponent - 1) as nat) + digits
    }
}

/// The positional numeral of a scientific text, where it is one.
pub open spec fn positional_of_scientific(s: Seq<char>) -> Option<Seq<char>> {
    match read_scientific(s) {
        Some(parts) => Some(positional(parts.digits, parts.exponent)),
        None => None,
    }
}

proof fn lemma_trim_zeros_digits(s: Seq<char>)
    requires
        s.len() > 0,
        all_digits(s),
    ensures
        trim_zeros(s).len() > 0,
        trim_zeros(s).len() <= s.len(),
        all_digits(trim_zeros(s)),
        trim_zeros(s) == s.subrange(0, trim_zeros(s).len() as int),
        trim_zeros(s).len() == 1 || trim_zeros(s)[trim_zeros(s).len() - 1] != '0',
        forall|i: int| trim_zeros(s).len() <= i < s.len() ==> s[i] == '0',
    decreases s.len(),
{
    if s.len() > 1 && s[s.len() - 1] == '0' {
        let t = s.drop_last();
        assert forall|i: int| 0 <= i < t.len() implies is_digit(#[trigger] t[i]) by {
            assert(t[i] == s[i]);
        }
        lemma_trim_zeros_digits(t);
        let r = trim_zeros(t);
        assert(r =~= s.subrange(0, r.len() as int));
        assert forall|i: int| r.len() <= i < s.len() implies s[i] == '0' by {
            if i < t.len() {
                assert(t[i] == s[i]);
            }
        }
    } else {
        assert(s =~= s.subrange(0, s.len() as int));
    }
}

/// A positional numeral made of digits is a decimal literal.
pub proof fn lemma_positional_is_literal(digits: Seq<char>, exponent: int)
    requires
        digits.len() > 0,
        all_digits(digits),
    ensures
        is_decimal_literal(positional(digits, exponent)),
{
    let n = digits.len() as int;
    let p = positional(digits, exponent);
    if exponent >= n - 1 {
        assert forall|i: int| 0 <= i < p.len() implies is_digit(#[trigger] p[i]) by {
            if i < n {
                assert(p[i] == digits[i]);
            }
        }
    } else if exponent >= 0 {
        assert forall|i: int| 0 <= i < p.len() implies (is_digit(#[trigger] p[i]) || p[i] == '.')
            && (p[i] == '.' ==> i == exponent + 1) by {
            if i <= exponent {
                assert(p[i] == digits[i]);
            } else if i > exponent + 1 {
                assert(p[i] == digits[i - 1]);
            }
        }
        assert(p[0] == digits[0]);
        assert(p[p.len() - 1] == digits[n - 1]);
    } else {
        assert forall|i: int| 0 <= i < p.len() implies (is_digit(#[trigger] p[i]) || p[i] == '.')
            && (p[i] == '.' ==> i == 1) by {
            if i >= 1 - exponent {
                assert(p[i] == digits[i - (1 - exponent)]);
            }
        }
        assert(p[p.len() - 1] == digits[n - 1]);
    }
}

/// Tests whether `text` is a decimal literal.
pub fn check_decimal_literal(text: &[char]) -> (r: bool)
    ensures
        r == is_decimal_literal(text@),
{
    let n = text.len();
    if n == 0 {
        return false;
    }
    let mut dot: Option<usize> = None;
    let mut i: usize = 0;
    while i < n
        invariant
            i <= n,
            n == text.len(),
            forall|k: int| 0 <= k < i ==> is_digit(#[trigger] text@[k]) || text@[k] == '.',
            match dot {
                Some(d) => d < i && text@[d as int] == '.' && forall|k: int|
                    0 <= k < i && #[trigger] text@[k] == '.' ==> k == d,
                None => forall|k: int| 0 <= k < i ==> #[trigger] text@[k] != '.',
            },
        decreases n - i,
    {
        let c = text[i];
        if c == '.' {
            if dot.is_some() {
                return false;
            }
            dot = Some(i);
        } else if !(c >= '0' && c <= '9') {
            return false;
        }
        i += 1;
    }
    let first = text[0];
    let last = text[n - 1];
    first >= '0' && first <= '9' && last >= '0' && last <= '9'
}

/// The index of the first `c` in `text`, or its length where there is none.
fn find_first(text: &[char], c: char) -> (r: usize)
    ensures
        r == first_index(text@, c),
        r <= text.len(),
{
    let mut i: usize = 0;
    while i < text.len() && text[i] != c
        invariant
            i <= text.len(),
            forall|k: int| 0 <= k < i ==> text@[k] != c,
        decreases text.len() - i,
    {
        i += 1;
    }
    proof {
        lemma_first_index(text@, c, i as int);
    }
    i
}

/// Tests whether the characters of `text` from `from` up to `to` are digits.
fn digits_between(text: &[char], from: usize, to: usize) -> (r: bool)
    requires
        from <= to <= text.len(),
    ensures
        r == all_digits(text@.subrange(from as int, to as int)),
{
    let mut i: usize = from;
    while i < to
        invariant
            from <= i <= to <= text.len(),
            forall|k: int| from <= k < i ==> is_digit(#[trigger] text@[k]),
        decreases to - i,
    {
        let c = text[i];
        if !(c >= '0' && c <= '9') {
            assert(text@.subrange(from as int, to as int)[i - from] == c);
            return false;
        }
        i += 1;
    }
    assert forall|k: int| 0 <= k < to - from implies is_digit(
        #[trigger] text@.subrange(from as int, to as int)[k],
    ) by {
        assert(text@.subrange(from as int, to as int)[k] == text@[from + k]);
    }
    true
}

proof fn lemma_digits_value_bound(s: Seq<char>)
    requires
        all_digits(s),
        s.len() <= 4,
    ensures
        digits_value(s) < 10000,
        s.len() <= 3 ==> digits_value(s) < 1000,
        s.len() <= 2 ==> digits_value(s) < 100,
        s.len() <= 1 ==> digits_value(s) < 10,
    decreases s.len(),
{
    if s.len() > 0 {
        let t = s.drop_last();
        assert forall|i: int| 0 <= i < t.len() implies is_digit(#[trigger] t[i]) by {
            assert(t[i] == s[i]);
        }
        lemma_digits_value_bound(t);
        assert(is_digit(s[s.len() - 1]));
    }
}

/// The value of the digits of `text` from `from` up to `to`, at most four of them.
fn value_between(text: &[char], from: usize, to: usize) -> (r: usize)
    requires
        from <= to <= text.len(),
        to - from <= 4,
        all_digits(text@.subrange(from as int, to as int)),
    ensures
        r == digits_value(text@.subrange(from as int, to as int)),
        r < 10000,
{
    let mut i: usize = from;
    let mut value: usize = 0;
    proof {
        lemma_digits_value_bound(text@.subrange(from as int, to as int));
    }
    while i < to
        invariant
            from <= i <= to <= text.len(),
            to - from <= 4,
            all_digits(text@.subrange(from as int, to as int)),
            value == digits_value(text@.subrange(from as int, i as int)),
            value < 10000,
        decreases to - i,
    {
        let c = text[i];
        proof {
            let whole = text@.subrange(from as int, to as int);
            let next = text@.subrange(from as int, i + 1);
            assert(whole[i - from] == c);
            assert(is_digit(c));
            assert(next.drop_last() =~= text@.subrange(from as int, i as int));
            assert(next[next.len() - 1] == c);
            assert forall|k: int| 0 <= k < next.len() implies is_digit(#[trigger] next[k]) by {
                assert(next[k] == whole[k]);
            }
            lemma_digits_value_bound(next);
            lemma_digits_value_bound(next.drop_last());
        }
        let d: usize = (c as u32 - '0' as u32) as usize;
        value = value * 10 + d;
        i += 1;
    }
    value
}

/// Rewrites a scientific text `d.ddddE+x` as a positional numeral.
pub fn scientific_to_positional(text: &[char]) -> (r: Option<Vec<char>>)
    ensures
        match r {
            Some(numeral) => positional_of_scientific(text@) == Some(numeral@)
                && is_decimal_literal(numeral@),
            None => positional_of_scientific(text@).is_none(),
        },
{
    let n = text.len();
    let e = find_first(text, 'E');
    if !(3 <= e && n >= 3 && e <= n - 3 && n - e <= 6) {
        return None;
    }
    let first = text[0];
    if !(first >= '0' && first <= '9') || text[1] != '.' {
        return None;
    }
    if !digits_between(text, 2, e) {
        return None;
    }
    let sign = text[e + 1];
    if sign != '+' && sign != '-' {
        return None;
    }
    if !digits_between(text, e + 2, n) {
        return None;
    }
    let value = value_between(text, e + 2, n);
    let ghost all = seq![text@[0]] + text@.subrange(2, e as int);
    let ghost kept = trim_zeros(all);
    proof {
        assert forall|i: int| 0 <= i < all.len() implies is_digit(#[trigger] all[i]) by {
            if i > 0 {
                assert(all[i] == text@.subrange(2, e as int)[i - 1]);
            }
        }
        lemma_trim_zeros_digits(all);
    }
    // The number of significant digits that stay: trailing zeros leave.
    let mut count: usize = e - 1;
    assert(all.subrange(0, count as int) =~= all);
    while count > 1 && text[count] == '0'
        invariant
            1 <= count <= e - 1,
            e <= text.len(),
            all == seq![text@[0]] + text@.subrange(2, e as int),
            trim_zeros(all) == trim_zeros(all.subrange(0, count as int)),
        decreases count,
    {
        proof {
            let cur = all.subrange(0, count as int);
            assert(cur[cur.len() - 1] == text@[count as int]);
            assert(cur.drop_last() =~= all.subrange(0, count - 1));
        }
        count -= 1;
    }
    proof {
        let cur = all.subrange(0, count as int);
        if count > 1 {
            assert(cur[cur.len() - 1] == text@[count as int]);
        }
        assert(trim_zeros(cur) == cur);
        assert(all.subrange(0, all.len() as int) =~= all);
    }
    let mut digits: Vec<char> = Vec::new();
    digits.push(first);
    let mut i: usize = 1;
    while i < count
        invariant
            1 <= i <= count <= e - 1,
            e <= text.len(),
            all == seq![text@[0]] + text@.subrange(2, e as int),
            digits@ == all.subrange(0, i as int),
        decreases count - i,
    {
        digits.push(text[i + 1]);
        i += 1;
        assert(digits@ =~= all.subrange(0, i as int));
    }
    assert(digits@ == kept);
    let mut out: Vec<char> = Vec::new();
    proof {
        lemma_positional_is_literal(kept, if sign == '-' { -(value as int) } else { value as int });
    }
    if sign == '-' && value > 0 {
        out.push('0');
        out.push('.');
        let mut z: usize = 1;
        while z < value
            invariant
                1 <= z <= value,
                out@ == seq!['0', '.'] + zeros((z - 1) as nat),
            decreases value - z,
        {
            out.push('0');
            z += 1;
            assert(out@ =~= seq!['0', '.'] + zeros((z - 1) as nat));
        }
        let mut k: usize = 0;
        while k < count
            invariant
                k <= count == digits.len(),
                out@ == seq!['0', '.'] + zeros((value - 1) as nat) + digits@.subrange(0, k as int),
            decreases count - k,
        {
            out.push(digits[k]);
            k += 1;
            assert(out@ =~= seq!['0', '.'] + zeros((value - 1) as nat) + digits@.subrange(
                0,
                k as int,
            ));
        }
        assert(digits@.subrange(0, count as int) =~= digits@);
    } else if value >= count - 1 {
        let mut k: usize = 0;
        while k < count
            invariant
                k <= count == digits.len(),
                out@ == digits@.subrange(0, k as int),
            decreases count - k,
        {
            out.push(digits[k]);
            k += 1;
            assert(out@ =~= digits@.subrange(0, k as int));
        }
        assert(digits@.subrange(0, count as int) =~= digits@);
        let pad: usize = value - (count - 1);
        let mut z: usize = 0;
        while z < pad
            invariant
                z <= pad,
                out@ == digits@ + zeros(z as nat),
            decreases pad - z,
        {
            out.push('0');
            z += 1;
            assert(out@ =~= digits@ + zeros(z as nat));
        }
    } else {
        let mut k: usize = 0;
        while k < count
            invariant
                k <= count == digits.len(),
                value < count - 1,
                k <= value ==> out@ == digits@.subrange(0, k as int),
                k > value ==> out@ == digits@.subrange(0, value + 1) + seq!['.']
                    + digits@.subrange(value + 1, k as int),
            decreases count - k,
        {
            out.push(digits[k]);
            if k == value {
                out.push('.');
            }
            k += 1;
            proof {
                if k <= value {
                    assert(out@ =~= digits@.subrange(0, k as int));
                } else {
                    assert(out@ =~= digits@.subrange(0, value + 1) + seq!['.'] + digits@.subrange(
                        value + 1,
                        k as int,
                    ));
                }
            }
        }
    }
    Some(out)
}

} // verus!
