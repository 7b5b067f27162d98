//! Character-level helpers on strings, shared by the parsers of the crate.

use vstd::prelude::*;

verus! {

/// Appends one character to a string.
///
/// Wraps `String::push`, which std documents as appending the given `char`
/// to the end of the `String`.
#[verifier::external_body]
pub(crate) fn push_char(s: &mut String, c: char)
    ensures
        final(s)@ == old(s)@.push(c),
{
    s.push(c)
}

/// The characters of `s`, in order.
pub fn to_chars(s: &str) -> (v: Vec<char>)
    ensures
        v@ == s@,
{
    let mut v: Vec<char> = Vec::new();
    for c in it: s.chars()
        invariant
            v@ == it.seq().take(it.index() as int),
            it.seq() == s@,
    {
        v.push(c);
    }
    v
}


/// A string holding exactly the characters of `v`.
pub fn from_chars(v: &[char]) -> (s: String)
    ensures
        s@ == v@,
{
    let mut s = String::new();
    let mut i: usize = 0;
    while i < v.len()
        invariant
            i <= v@.len(),
            s@ == v@.take(i as int),
        decreases v@.len() - i,
    {
        push_char(&mut s, v[i]);
        i = i + 1;
        assert(s@ =~= v@.take(i as int));
    }
    assert(v@.take(i as int) =~= v@);
    s
}

/// An owned copy of `s`.
pub fn owned(s: &str) -> (r: String)
    ensures
        r@ == s@,
{
    s.to_owned()
}

/// Whether two strings hold the same characters.
pub fn str_eq(a: &str, b: &str) -> (r: bool)
    ensures
        r == (a@ == b@),
{
    let x = to_chars(a);
    let y = to_chars(b);
    chars_eq(&x, &y)
}

/// Whether two character slices are equal.
pub fn chars_eq(x: &[char], y: &[char]) -> (r: bool)
    ensures
        r == (x@ == y@),
{
    if x.len() != y.len() {
        return false;
    }
    let mut i: usize = 0;
    while i < x.len()
        invariant
            x@.len() == y@.len(),
            i <= x@.len(),
            forall|j: int| 0 <= j < i ==> x@[j] == y@[j],
        decreases x@.len() - i,
    {
        if x[i] != y[i] {
            return false;
        }
        i = i + 1;
    }
    assert(x@ =~= y@);
    true
}


/// Whether `c` has the Unicode `White_Space` property, as `char::is_whitespace`
/// documents.
pub open spec fn is_whitespace_spec(c: char) -> bool {
    ||| c == '\t' || c == '\n' || c == '\u{0B}' || c == '\u{0C}' || c == '\r' || c == ' '
    ||| c == '\u{85}' || c == '\u{A0}' || c == '\u{1680}'
    ||| ('\u{2000}' <= c && c <= '\u{200A}')
    ||| c == '\u{2028}' || c == '\u{2029}' || c == '\u{202F}' || c == '\u{205F}'
    ||| c == '\u{3000}'
}

/// Whether `c` is white space in the sense of `is_whitespace_spec`.
pub fn is_whitespace(c: char) -> (r: bool)
    ensures
        r == is_whitespace_spec(c),
{
    c == '\t' || c == '\n' || c == '\u{0B}' || c == '\u{0C}' || c == '\r' || c == ' '
        || c == '\u{85}' || c == '\u{A0}' || c == '\u{1680}' || ('\u{2000}' <= c && c
        <= '\u{200A}') || c == '\u{2028}' || c == '\u{2029}' || c == '\u{202F}' || c
        == '\u{205F}' || c == '\u{3000}'
}

/// The number of white-space characters at the start of `s`.
pub open spec fn leading_ws(s: Seq<char>) -> nat
    decreases s.len(),
{
    if s.len() == 0 {
        0
    } else if is_whitespace_spec(s[0]) {
        1 + leading_ws(s.drop_first())
    } else {
        0
    }
}

/// The number of white-space characters at the end of `s`.
pub open spec fn trailing_ws(s: Seq<char>) -> nat
    decreases s.len(),
{
    if s.len() == 0 {
        0
    } else if is_whitespace_spec(s.last()) {
        1 + trailing_ws(s.drop_last())
    } else {
        0
    }
}

/// `s` without leading and trailing white space, as `str::trim` gives it.
pub open spec fn trim_spec(s: Seq<char>) -> Seq<char> {
    let t = s.skip(leading_ws(s) as int);
    t.take(t.len() - trailing_ws(t))
}

proof fn lemma_leading_ws(s: Seq<char>, k: int)
    requires
        0 <= k <= s.len(),
        forall|j: int| 0 <= j < k ==> is_whitespace_spec(#[trigger] s[j]),
        k == s.len() || !is_whitespace_spec(s[k]),
    ensures
        leading_ws(s) == k,
    decreases k,
{
    if k > 0 {
        let t = s.drop_first();
        assert forall|j: int| 0 <= j < k - 1 implies is_whitespace_spec(#[trigger] t[j]) by {
            assert(t[j] == s[j + 1]);
        }
        if k < s.len() {
            assert(t[k - 1] == s[k]);
        }
        lemma_leading_ws(t, k - 1);
    }
}

proof fn lemma_trailing_ws(s: Seq<char>, k: int)
    requires
        0 <= k <= s.len(),
        forall|j: int| s.len() - k <= j < s.len() ==> is_whitespace_spec(#[trigger] s[j]),
        k == s.len() || !is_whitespace_spec(s[s.len() - k - 1]),
    ensures
        trailing_ws(s) == k,
    decreases k,
{
    if k > 0 {
        let t = s.drop_last();
        assert forall|j: int| t.len() - (k - 1) <= j < t.len() implies is_whitespace_spec(
            #[trigger] t[j],
        ) by {
            assert(t[j] == s[j]);
        }
        lemma_trailing_ws(t, k - 1);
    }
}

/// The characters of `s` without leading and trailing white space.
pub fn trim_chars(s: &[char]) -> (r: Vec<char>)
    ensures
        r@ == trim_spec(s@),
{
    let mut i: usize = 0;
    while i < s.len() && is_whitespace(s[i])
        invariant
            i <= s@.len(),
            forall|j: int| 0 <= j < i ==> is_whitespace_spec(#[trigger] s@[j]),
        decreases s@.len() - i,
    {
        i = i + 1;
    }
    proof {
        lemma_leading_ws(s@, i as int);
    }
    let ghost t = s@.skip(i as int);
    let mut k: usize = 0;
    while k < s.len() - i && is_whitespace(s[s.len() - 1 - k])
        invariant
            i <= s@.len(),
            t == s@.skip(i as int),
            k <= t.len(),
            forall|j: int| t.len() - k <= j < t.len() ==> is_whitespace_spec(#[trigger] t[j]),
        decreases t.len() - k,
    {
        assert(t[t.len() - k - 1] == s@[s@.len() - 1 - k]);
        k = k + 1;
    }
    proof {
        if k < t.len() {
            assert(t[t.len() - k - 1] == s@[s@.len() - 1 - k]);
        }
        lemma_trailing_ws(t, k as int);
    }
    let mut r: Vec<char> = Vec::new();
    let end = s.len() - k;
    let mut p = i;
    while p < end
        invariant
            i <= p <= end <= s@.len(),
            end == s@.len() - k,
            r@ == s@.subrange(i as int, p as int),
        decreases end - p,
    {
        r.push(s[p]);
        p = p + 1;
        assert(r@ =~= s@.subrange(i as int, p as int));
    }
    assert(r@ =~= trim_spec(s@));
    r
}

/// `s` without leading and trailing white space.
pub fn trim(s: &str) -> (r: String)
    ensures
        r@ == trim_spec(s@),
{
    let v = to_chars(s);
    let t = trim_chars(v.as_slice());
    from_chars(t.as_slice())
}


/// The decimal digit of `d`, for `d < 10`.
pub open spec fn digit_char(d: nat) -> char {
    if d == 0 { '0' } else if d == 1 { '1' } else if d == 2 { '2' } else if d == 3 { '3' }
    else if d == 4 { '4' } else if d == 5 { '5' } else if d == 6 { '6' } else if d == 7 { '7' }
    else if d == 8 { '8' } else { '9' }
}

/// The decimal representation of `n`, without leading zeros.
pub open spec fn decimal_spec(n: nat) -> Seq<char>
    decreases n,
{
    if n < 10 {
        seq![digit_char(n)]
    } else {
        decimal_spec(n / 10).push(digit_char(n % 10))
    }
}

/// The decimal representation of `n`.
///
/// Wraps `usize::to_string`, which std documents as the `Display` of the
/// integer: its decimal digits without leading zeros.
#[verifier::external_body]
pub(crate) fn decimal(n: usize) -> (s: String)
    ensures
        s@ == decimal_spec(n as nat),
{
    n.to_string()
}


/// The position of the first `c` in `s`, if any.
pub open spec fn find_spec(s: Seq<char>, c: char) -> Option<int> {
    if exists|i: int| 0 <= i < s.len() && s[i] == c {
        Some(choose|i: int| first_at(s, c, i))
    } else {
        None
    }
}

/// Whether `i` is the position of the first `c` in `s`.
pub open spec fn first_at(s: Seq<char>, c: char, i: int) -> bool {
    &&& 0 <= i < s.len()
    &&& s[i] == c
    &&& forall|j: int| 0 <= j < i ==> s[j] != c
}

/// The position of the first `c` in `s`, or `0` where there is none.
pub open spec fn find_or_zero(s: Seq<char>, c: char) -> int {
    match find_spec(s, c) {
        Some(i) => i,
        None => 0,
    }
}

/// `s` from position `i + 1` on, or empty where `i + 1` is past its end.
pub open spec fn after(s: Seq<char>, i: int) -> Seq<char> {
    if i + 1 <= s.len() {
        s.subrange(i + 1, s.len() as int)
    } else {
        Seq::empty()
    }
}

/// The position of the first `c` in `s`, if any.
pub fn find_char(s: &[char], c: char) -> (r: Option<usize>)
    ensures
        r matches Some(i) ==> find_spec(s@, c) == Some(i as int) && first_at(s@, c, i as int),
        r is None ==> find_spec(s@, c) is None,
{
    let mut i: usize = 0;
    while i < s.len()
        invariant
            i <= s@.len(),
            forall|j: int| 0 <= j < i ==> s@[j] != c,
        decreases s@.len() - i,
    {
        if s[i] == c {
            proof {
                assert(first_at(s@, c, i as int));
                let k = choose|k: int| first_at(s@, c, k);
                assert(k == i) by {
                    if k < i {
                        assert(s@[k] != c);
                    } else if k > i {
                        assert(s@[i as int] != c);
                    }
                }
            }
            return Some(i);
        }
        i = i + 1;
    }
    None
}

/// The characters of `s` from `lo` up to `hi`.
pub fn slice_chars(s: &[char], lo: usize, hi: usize) -> (r: Vec<char>)
    requires
        lo <= hi <= s@.len(),
    ensures
        r@ == s@.subrange(lo as int, hi as int),
{
    let mut r: Vec<char> = Vec::new();
    let mut p = lo;
    while p < hi
        invariant
            lo <= p <= hi <= s@.len(),
            r@ == s@.subrange(lo as int, p as int),
        decreases hi - p,
    {
        r.push(s[p]);
        p = p + 1;
        assert(r@ =~= s@.subrange(lo as int, p as int));
    }
    r
}

/// The characters of `s` after position `i`, as `after` describes.
pub fn after_chars(s: &[char], i: usize) -> (r: Vec<char>)
    ensures
        r@ == after(s@, i as int),
{
    if i < s.len() {
        slice_chars(s, i + 1, s.len())
    } else {
        let r: Vec<char> = Vec::new();
        assert(r@ =~= after(s@, i as int));
        r
    }
}

proof fn lemma_leading_ws_props(s: Seq<char>)
    ensures
        leading_ws(s) <= s.len(),
        forall|j: int| 0 <= j < leading_ws(s) ==> is_whitespace_spec(#[trigger] s[j]),
        leading_ws(s) < s.len() ==> !is_whitespace_spec(s[leading_ws(s) as int]),
    decreases s.len(),
{
    if s.len() > 0 && is_whitespace_spec(s[0]) {
        let t = s.drop_first();
        lemma_leading_ws_props(t);
        assert forall|j: int| 0 <= j < leading_ws(s) implies is_whitespace_spec(#[trigger] s[j]) by {
            if j > 0 {
                assert(s[j] == t[j - 1]);
            }
        }
        if leading_ws(s) < s.len() {
            assert(s[leading_ws(s) as int] == t[leading_ws(t) as int]);
        }
    }
}

proof fn lemma_trailing_ws_props(s: Seq<char>)
    ensures
        trailing_ws(s) <= s.len(),
        forall|j: int| s.len() - trailing_ws(s) <= j < s.len() ==> is_whitespace_spec(
            #[trigger] s[j],
        ),
        trailing_ws(s) < s.len() ==> !is_whitespace_spec(s[s.len() - trailing_ws(s) - 1]),
    decreases s.len(),
{
    if s.len() > 0 && is_whitespace_spec(s.last()) {
        let t = s.drop_last();
        lemma_trailing_ws_props(t);
        assert forall|j: int| s.len() - trailing_ws(s) <= j < s.len() implies is_whitespace_spec(
            #[trigger] s[j],
        ) by {
            if j < s.len() - 1 {
                assert(s[j] == t[j]);
            }
        }
        if trailing_ws(s) < s.len() {
            assert(s[s.len() - trailing_ws(s) - 1] == t[t.len() - trailing_ws(t) - 1]);
        }
    }
}

/// Trimming a trimmed string changes nothing.
pub proof fn lemma_trim_idempotent(s: Seq<char>)
    ensures
        trim_spec(trim_spec(s)) == trim_spec(s),
{
    let t = trim_spec(s);
    lemma_trim_ends(s);
    if t.len() > 0 {
        lemma_leading_ws(t, 0);
        lemma_trailing_ws(t, 0);
    } else {
        lemma_leading_ws(t, 0);
        lemma_trailing_ws(t, 0);
    }
    assert(t.skip(0) =~= t);
    assert(t.take(t.len() as int) =~= t);
}

/// A trimmed string neither starts nor ends with white space.
pub proof fn lemma_trim_ends(s: Seq<char>)
    ensures
        trim_spec(s).len() > 0 ==> !is_whitespace_spec(trim_spec(s)[0]) && !is_whitespace_spec(
            trim_spec(s).last(),
        ),
{
    let l = leading_ws(s);
    lemma_leading_ws_props(s);
    let t = s.skip(l as int);
    lemma_trailing_ws_props(t);
    let u = trim_spec(s);
    if u.len() > 0 {
        assert(u[0] == s[l as int]);
        assert(u.last() == t[t.len() - trailing_ws(t) - 1]);
    }
}


/// `base` joined with `part` as `Path::join` does on Unix: an absolute
/// `part` replaces `base`; otherwise a separator is put between them unless
/// `base` is empty or already ends with one.
pub open spec fn join_spec(base: Seq<char>, part: Seq<char>) -> Seq<char> {
    if part.len() > 0 && part[0] == '/' {
        part
    } else if base.len() == 0 || base.last() == '/' {
        base + part
    } else {
        base + seq!['/'] + part
    }
}

/// `base` joined with `part`, as `join_spec` describes.
pub fn path_join(base: &str, part: &str) -> (r: String)
    ensures
        r@ == join_spec(base@, part@),
{
    let b = to_chars(base);
    let p = to_chars(part);
    if p.len() > 0 && p[0] == '/' {
        return owned(part);
    }
    let mut r = owned(base);
    if !(b.len() == 0 || b[b.len() - 1] == '/') {
        push_char(&mut r, '/');
    }
    r.append(part);
    r
}


/// The first occurrence is unique: where `i` is it, `find_spec` gives `i`.
pub proof fn lemma_find_first(s: Seq<char>, c: char, i: int)
    requires
        first_at(s, c, i),
    ensures
        find_spec(s, c) == Some(i),
{
    let k = choose|k: int| first_at(s, c, k);
    assert(k == i) by {
        if k < i {
            assert(s[k] != c);
        } else if k > i {
            assert(s[i] != c);
        }
    }
}

/// Where `find_spec` finds `c`, it is at its first occurrence.
pub proof fn lemma_find_found(s: Seq<char>, c: char)
    ensures
        find_spec(s, c) matches Some(i) ==> first_at(s, c, i),
        find_spec(s, c) is None ==> forall|j: int| 0 <= j < s.len() ==> s[j] != c,
{
    if exists|i: int| 0 <= i < s.len() && s[i] == c {
        let i = choose|i: int| 0 <= i < s.len() && s[i] == c;
        lemma_exists_first(s, c, i);
    }
}

proof fn lemma_exists_first(s: Seq<char>, c: char, i: int)
    requires
        0 <= i < s.len(),
        s[i] == c,
    ensures
        exists|k: int| first_at(s, c, k),
    decreases i,
{
    if exists|j: int| 0 <= j < i && s[j] == c {
        let j = choose|j: int| 0 <= j < i && s[j] == c;
        lemma_exists_first(s, c, j);
    } else {
        assert(first_at(s, c, i));
    }
}

/// Trimming keeps a contiguous part of a string.
pub proof fn lemma_trim_subrange(s: Seq<char>)
    ensures
        exists|a: int, b: int| 0 <= a <= b <= s.len() && trim_spec(s) == s.subrange(a, b),
{
    let l = leading_ws(s);
    lemma_leading_ws_props(s);
    let t = s.skip(l as int);
    lemma_trailing_ws_props(t);
    let b = l + t.len() - trailing_ws(t);
    assert(trim_spec(s) =~= s.subrange(l as int, b));
}

/// A character absent from a string is absent from it trimmed.
pub proof fn lemma_trim_absent(s: Seq<char>, c: char)
    requires
        forall|j: int| 0 <= j < s.len() ==> s[j] != c,
    ensures
        forall|j: int| 0 <= j < trim_spec(s).len() ==> trim_spec(s)[j] != c,
{
    lemma_trim_subrange(s);
    let (a, b) = choose|a: int, b: int| 0 <= a <= b <= s.len() && trim_spec(s) == s.subrange(a, b);
    assert forall|j: int| 0 <= j < trim_spec(s).len() implies trim_spec(s)[j] != c by {
        assert(trim_spec(s)[j] == s[a + j]);
    }
}


/// The decimal representation of `n`.
///
/// Wraps `u64::to_string`, which std documents as the `Display` of the
/// integer: its decimal digits without leading zeros.
#[verifier::external_body]
pub(crate) fn decimal_u64(n: u64) -> (s: String)
    ensures
        s@ == decimal_spec(n as nat),
{
    n.to_string()
}


/// Whether `a` comes before `b` in lexicographic order of their characters,
/// the order in which `String` compares.
pub open spec fn seq_lt(a: Seq<char>, b: Seq<char>) -> bool
    decreases a.len(),
{
    if a.len() == 0 {
        b.len() > 0
    } else if b.len() == 0 {
        false
    } else if a[0] != b[0] {
        a[0] < b[0]
    } else {
        seq_lt(a.drop_first(), b.drop_first())
    }
}

/// No string comes before itself.
pub proof fn lemma_seq_lt_irreflexive(a: Seq<char>)
    ensures
        !seq_lt(a, a),
    decreases a.len(),
{
    if a.len() > 0 {
        lemma_seq_lt_irreflexive(a.drop_first());
    }
}

/// The order is transitive.
pub proof fn lemma_seq_lt_transitive(a: Seq<char>, b: Seq<char>, c: Seq<char>)
    requires
        seq_lt(a, b),
        seq_lt(b, c),
    ensures
        seq_lt(a, c),
    decreases a.len(),
{
    if a.len() > 0 && b.len() > 0 && c.len() > 0 && a[0] == b[0] && b[0] == c[0] {
        lemma_seq_lt_transitive(a.drop_first(), b.drop_first(), c.drop_first());
    }
}

/// Any two distinct strings are ordered one way or the other.
pub proof fn lemma_seq_lt_total(a: Seq<char>, b: Seq<char>)
    ensures
        a == b || seq_lt(a, b) || seq_lt(b, a),
    decreases a.len(),
{
    if a.len() > 0 && b.len() > 0 {
        if a[0] == b[0] {
            lemma_seq_lt_total(a.drop_first(), b.drop_first());
            if a.drop_first() == b.drop_first() {
                assert(a =~= seq![a[0]] + a.drop_first());
                assert(b =~= seq![b[0]] + b.drop_first());
            }
        }
    } else if a.len() == 0 && b.len() == 0 {
        assert(a =~= b);
    }
}

/// The order is asymmetric.
pub proof fn lemma_seq_lt_asymmetric(a: Seq<char>, b: Seq<char>)
    requires
        seq_lt(a, b),
    ensures
        !seq_lt(b, a),
{
    if seq_lt(b, a) {
        lemma_seq_lt_transitive(a, b, a);
        lemma_seq_lt_irreflexive(a);
    }
}

/// Compares two strings: negative where `a` comes first, zero where they
/// are equal, positive where `b` comes first.
pub fn compare_chars(a: &[char], b: &[char]) -> (r: i8)
    ensures
        r < 0 <==> seq_lt(a@, b@),
        r == 0 <==> a@ == b@,
        r > 0 <==> seq_lt(b@, a@),
{
    let mut i: usize = 0;
    assert(a@.skip(0) =~= a@);
    assert(b@.skip(0) =~= b@);
    while i < a.len() && i < b.len()
        invariant
            i <= a@.len(),
            i <= b@.len(),
            a@.take(i as int) == b@.take(i as int),
            seq_lt(a@, b@) == seq_lt(a@.skip(i as int), b@.skip(i as int)),
            seq_lt(b@, a@) == seq_lt(b@.skip(i as int), a@.skip(i as int)),
        decreases a@.len() - i,
    {
        assert(a@.skip(i as int)[0] == a@[i as int]);
        assert(b@.skip(i as int)[0] == b@[i as int]);
        if a[i] != b[i] {
            proof {
                if a@ == b@ {
                    assert(a@[i as int] == b@[i as int]);
                }
            }
            if a[i] < b[i] {
                proof {
                    lemma_seq_lt_asymmetric(a@.skip(i as int), b@.skip(i as int));
                }
                return -1;
            } else {
                proof {
                    lemma_seq_lt_asymmetric(b@.skip(i as int), a@.skip(i as int));
                }
                return 1;
            }
        }
        assert(a@.skip(i as int).drop_first() =~= a@.skip(i + 1));
        assert(b@.skip(i as int).drop_first() =~= b@.skip(i + 1));
        i = i + 1;
        assert(a@.take(i as int) =~= a@.take(i - 1).push(a@[i - 1]));
        assert(b@.take(i as int) =~= b@.take(i - 1).push(b@[i - 1]));
    }
    if a.len() == b.len() {
        assert(a@ =~= a@.take(i as int));
        assert(b@ =~= b@.take(i as int));
        proof {
            lemma_seq_lt_irreflexive(a@);
        }
        0
    } else if i == a.len() {
        proof {
            assert(a@.skip(i as int).len() == 0);
            if a@ == b@ {
                assert(a@.len() == b@.len());
            }
        }
        -1
    } else {
        proof {
            assert(b@.skip(i as int).len() == 0);
            if a@ == b@ {
                assert(a@.len() == b@.len());
            }
        }
        1
    }
}

/// Compares two strings character by character, as `compare_chars` does.
pub fn compare_str(a: &str, b: &str) -> (r: i8)
    ensures
        r < 0 <==> seq_lt(a@, b@),
        r == 0 <==> a@ == b@,
        r > 0 <==> seq_lt(b@, a@),
{
    let x = to_chars(a);
    let y = to_chars(b);
    compare_chars(x.as_slice(), y.as_slice())
}

/// `pat` occurs in `s` at position `i`.
pub open spec fn occurs_at(s: Seq<char>, pat: Seq<char>, i: int) -> bool {
    0 <= i && i + pat.len() <= s.len() && s.subrange(i, i + pat.len()) == pat
}

/// `pat` occurs somewhere in `s`.
pub open spec fn contains_spec(s: Seq<char>, pat: Seq<char>) -> bool {
    exists|i: int| occurs_at(s, pat, i)
}

/// Whether `pat` occurs in `s` at position `i`.
fn occurs_at_exec(s: &[char], pat: &[char], i: usize) -> (r: bool)
    requires
        i + pat@.len() <= s@.len(),
    ensures
        r == occurs_at(s@, pat@, i as int),
{
    let mut j: usize = 0;
    while j < pat.len()
        invariant
            i + pat@.len() <= s@.len(),
            s@.len() == s.len(),
            j <= pat@.len(),
            forall|k: int| 0 <= k < j ==> s@[i + k] == pat@[k],
        decreases pat@.len() - j,
    {
        assert(i + j < s.len());
        if s[i + j] != pat[j] {
            assert(s@.subrange(i as int, i + pat@.len())[j as int] != pat@[j as int]);
            return false;
        }
        j = j + 1;
    }
    assert(s@.subrange(i as int, i + pat@.len()) =~= pat@);
    true
}

/// Whether `pat` occurs somewhere in `s`, as `str::contains` answers.
pub fn contains(s: &str, pat: &str) -> (r: bool)
    ensures
        r == contains_spec(s@, pat@),
{
    let x = to_chars(s);
    let y = to_chars(pat);
    if y.len() > x.len() {
        assert forall|k: int| !occurs_at(s@, pat@, k) by {}
        return false;
    }
    let last = x.len() - y.len();
    let mut i: usize = 0;
    while i < last
        invariant
            last == x@.len() - y@.len(),
            x@ == s@,
            y@ == pat@,
            i <= last,
            forall|k: int| 0 <= k < i ==> !occurs_at(s@, pat@, k),
        decreases last - i,
    {
        if occurs_at_exec(x.as_slice(), y.as_slice(), i) {
            return true;
        }
        i = i + 1;
    }
    if occurs_at_exec(x.as_slice(), y.as_slice(), last) {
        return true;
    }
    assert forall|k: int| !occurs_at(s@, pat@, k) by {
        if 0 <= k && k + pat@.len() <= s@.len() {
            assert(k <= last);
        }
    }
    false
}

/// How many bytes UTF-8 takes for `c`.
pub open spec fn char_utf8_len(c: char) -> nat {
    if (c as u32) < 0x80 {
        1
    } else if (c as u32) < 0x800 {
        2
    } else if (c as u32) < 0x10000 {
        3
    } else {
        4
    }
}

/// How many bytes UTF-8 takes for `s`: what `str::len` gives.
pub open spec fn utf8_len(s: Seq<char>) -> nat
    decreases s.len(),
{
    if s.len() == 0 {
        0
    } else {
        utf8_len(s.drop_last()) + char_utf8_len(s.last())
    }
}

/// A longer prefix takes more bytes.
pub proof fn lemma_utf8_len_prefix(s: Seq<char>, i: int, j: int)
    requires
        0 <= i < j <= s.len(),
    ensures
        utf8_len(s.take(i)) < utf8_len(s.take(j)),
    decreases j - i,
{
    assert(s.take(j).drop_last() =~= s.take(j - 1));
    if i < j - 1 {
        lemma_utf8_len_prefix(s, i, j - 1);
    }
}

/// How many bytes UTF-8 takes for `s`.
pub fn utf8_len_of(s: &[char]) -> (r: u128)
    ensures
        r == utf8_len(s@),
{
    let mut r: u128 = 0;
    let mut i: usize = 0;
    assert(s@.take(0) =~= Seq::<char>::empty());
    while i < s.len()
        invariant
            i <= s@.len(),
            r == utf8_len(s@.take(i as int)),
            r <= 4 * i,
        decreases s@.len() - i,
    {
        let c = s[i];
        let n: u128 = if (c as u32) < 0x80 {
            1
        } else if (c as u32) < 0x800 {
            2
        } else if (c as u32) < 0x10000 {
            3
        } else {
            4
        };
        assert(s@.take(i + 1).drop_last() =~= s@.take(i as int));
        assert(s@.take(i + 1).last() == c);
        r = r + n;
        i = i + 1;
    }
    assert(s@.take(i as int) =~= s@);
    r
}

} // verus!
