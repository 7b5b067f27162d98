//! Reading the decimal numbers at the front of a text, as loose version
//! names are read.

use vstd::prelude::*;

verus! {

/// Whether `c` is an ASCII digit.
pub open spec fn is_digit(c: char) -> bool {
    '0' <= c && c <= '9'
}

/// How many ASCII digits stand at the front of `s`.
pub open spec fn leading_digits(s: Seq<char>) -> nat
    decreases s.len(),
{
    if s.len() > 0 && is_digit(s[0]) {
        1 + leading_digits(s.drop_first())
    } else {
        0
    }
}

/// The value of a text of decimal digits.
pub open spec fn digits_value(s: Seq<char>) -> nat
    decreases s.len(),
{
    if s.len() == 0 {
        0
    } else {
        digits_value(s.drop_last()) * 10 + ((s.last() as int - '0' as int) as nat)
    }
}

/// `n`, or the largest `u64` where `n` is larger.
pub open spec fn saturate(n: nat) -> u64 {
    if n > u64::MAX {
        u64::MAX
    } else {
        n as u64
    }
}

/// The number at the front of `s`, saturated at the largest `u64`; zero
/// where `s` does not start with a digit.
pub open spec fn leading_number(s: Seq<char>) -> u64 {
    saturate(digits_value(s.take(leading_digits(s) as int)))
}

/// What follows the number at the front of `s` and the dot after it; empty
/// where there is no number or no dot after it.
pub open spec fn after_number(s: Seq<char>) -> Seq<char> {
    let n = leading_digits(s) as int;
    if n > 0 && n < s.len() && s[n] == '.' {
        s.skip(n + 1)
    } else {
        Seq::empty()
    }
}

/// Where the first `k` characters are digits and the next is none (or
/// there is none), `k` digits lead.
pub proof fn lemma_leading_digits_at(s: Seq<char>, k: int)
    requires
        0 <= k <= s.len(),
        forall|j: int| 0 <= j < k ==> is_digit(#[trigger] s[j]),
        k == s.len() || !is_digit(s[k]),
    ensures
        leading_digits(s) == k,
    decreases k,
{
    if k > 0 {
        let t = s.drop_first();
        assert forall|j: int| 0 <= j < k - 1 implies is_digit(#[trigger] t[j]) by {
            assert(t[j] == s[j + 1]);
        }
        if k - 1 < t.len() {
            assert(t[k - 1] == s[k]);
        }
        lemma_leading_digits_at(t, k - 1);
    }
}

/// Reads the number at the front of `t@.skip(from)`: its value, saturated,
/// and where it ends.
pub fn read_number(t: &[char], from: usize) -> (r: (u64, usize))
    requires
        from <= t@.len(),
    ensures
        r.0 == leading_number(t@.skip(from as int)),
        r.1 == from + leading_digits(t@.skip(from as int)),
        r.1 <= t@.len(),
{
    let ghost s = t@.skip(from as int);
    let mut i: usize = from;
    let mut v: u64 = 0;
    assert(s.take(0) =~= Seq::<char>::empty());
    while i < t.len() && '0' <= t[i] && t[i] <= '9'
        invariant
            from <= i <= t@.len(),
            s == t@.skip(from as int),
            forall|j: int| 0 <= j < i - from ==> is_digit(#[trigger] s[j]),
            v == saturate(digits_value(s.take(i - from))),
        decreases t@.len() - i,
    {
        let c = t[i];
        let d: u32 = (c as u32) - ('0' as u32);
        let w: u128 = (v as u128) * 10 + (d as u128);
        let ghost before = s.take(i - from);
        let ghost after = s.take(i + 1 - from);
        assert(after.drop_last() =~= before);
        assert(after.last() == c);
        assert(s[i - from] == c);
        if w > u64::MAX as u128 {
            v = u64::MAX;
        } else {
            v = w as u64;
        }
        i = i + 1;
    }
    proof {
        lemma_leading_digits_at(s, i - from);
    }
    (v, i)
}

} // verus!
