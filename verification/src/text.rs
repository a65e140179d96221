//! Character-level text helpers: decimal formatting, whitespace trimming,
//! searching and slicing character sequences.

use vstd::prelude::*;

verus! {

/// The decimal digit character for `d < 10`.
pub open spec fn digit_char(d: nat) -> char {
    ((48 + d) as u32) as char
}

/// The decimal representation of `n`, most significant digit first, without leading zeros.
pub open spec fn decimal_digits(n: nat) -> Seq<char>
    decreases n,
{
    if n < 10 {
        seq![digit_char(n)]
    } else {
        decimal_digits(n / 10).push(digit_char(n % 10))
    }
}

/// The number that a sequence of decimal digit characters denotes.
pub open spec fn digits_value(s: Seq<char>) -> int
    decreases s.len(),
{
    if s.len() == 0 {
        0
    } else {
        digits_value(s.drop_last()) * 10 + (s.last() as u32 - 48)
    }
}

/// Whether every character of `s` is one of `'0'..='9'`.
pub open spec fn all_digits(s: Seq<char>) -> bool {
    forall|i: int| 0 <= i < s.len() ==> 48 <= #[trigger] (s[i] as u32) <= 57
}

/// Decimal formatting can be read back: the digits denote `n`, they are all
/// decimal digits, and there is no leading zero except in `"0"` itself.
pub proof fn lemma_decimal_digits_value(n: nat)
    ensures
        digits_value(decimal_digits(n)) == n,
        all_digits(decimal_digits(n)),
        decimal_digits(n).len() >= 1,
        n >= 10 ==> decimal_digits(n).len() > 1,
        decimal_digits(n).len() > 1 ==> decimal_digits(n)[0] != '0',
    decreases n,
{
    if n < 10 {
        let s = decimal_digits(n);
        assert(s.drop_last() =~= Seq::<char>::empty());
        assert(s.last() as u32 == 48 + n);
        assert(digits_value(s) == digits_value(s.drop_last()) * 10 + (s.last() as u32 - 48));
    } else {
        lemma_decimal_digits_value(n / 10);
        let prev = decimal_digits(n / 10);
        let s = prev.push(digit_char(n % 10));
        assert(s.drop_last() =~= prev);
        assert(s.last() as u32 == 48 + n % 10);
        assert(digits_value(s) == digits_value(prev) * 10 + (s.last() as u32 - 48));
        assert((n / 10) * 10 + n % 10 == n) by (nonlinear_arith);
        assert(s[0] == prev[0]);
        if n / 10 < 10 {
            assert(prev[0] == digit_char(n / 10));
        }
        assert forall|i: int| 0 <= i < s.len() implies 48 <= #[trigger] (s[i] as u32) <= 57 by {
            if i < prev.len() {
                assert(s[i] == prev[i]);
            }
        }
    }
}

/// Pairs of strings as pairs of texts.
pub open spec fn pair_texts(pairs: Seq<(String, String)>) -> Seq<(Seq<char>, Seq<char>)> {
    pairs.map_values(|p: (String, String)| (p.0@, p.1@))
}

/// Appends one character to a string (`String::push`).
#[verifier::external_body]
pub(crate) fn push_char(s: &mut String, c: char)
    ensures
        final(s)@ == old(s)@.push(c),
{
    s.push(c);
}

/// Formats an unsigned integer in decimal, as `to_string` does.
pub fn decimal_string(n: u128) -> (r: String)
    ensures
        r@ == decimal_digits(n as nat),
    decreases n,
{
    if n < 10 {
        let mut s = String::new();
        let c = ((n as u8) + 48u8) as char;
        push_char(&mut s, c);
        s
    } else {
        let mut s = decimal_string(n / 10);
        let c = (((n % 10) as u8) + 48u8) as char;
        push_char(&mut s, c);
        s
    }
}

/// The characters of a string slice, in order.
pub fn chars_of(s: &str) -> (r: Vec<char>)
    ensures
        r@ == s@,
{
    let mut r: Vec<char> = Vec::new();
    for c in it: s.chars()
        invariant
            r@ == it.seq().take(it.index() as int),
    {
        r.push(c);
    }
    r
}

/// The string made of `v[lo..hi]`.
pub fn string_of_range(v: &Vec<char>, lo: usize, hi: usize) -> (r: String)
    requires
        lo <= hi <= v@.len(),
    ensures
        r@ == v@.subrange(lo as int, hi as int),
{
    let mut r = String::new();
    let mut i = lo;
    while i < hi
        invariant
            lo <= i <= hi <= v@.len(),
            r@ == v@.subrange(lo as int, i as int),
        decreases hi - i,
    {
        push_char(&mut r, v[i]);
        assert(v@.subrange(lo as int, i + 1) =~= v@.subrange(lo as int, i as int).push(v@[i as int]));
        i = i + 1;
    }
    r
}

/// Unicode `White_Space`, the property that `char::is_whitespace` tests.
pub open spec fn is_white(c: char) -> bool {
    let u = c as u32;
    ||| 9 <= u <= 13
    ||| u == 32
    ||| u == 0x85
    ||| u == 0xA0
    ||| u == 0x1680
    ||| 0x2000 <= u <= 0x200A
    ||| u == 0x2028
    ||| u == 0x2029
    ||| u == 0x202F
    ||| u == 0x205F
    ||| u == 0x3000
}

/// `s` without its leading whitespace.
pub open spec fn trim_start(s: Seq<char>) -> Seq<char>
    decreases s.len(),
{
    if s.len() > 0 && is_white(s[0]) {
        trim_start(s.drop_first())
    } else {
        s
    }
}

/// `s` without its trailing whitespace.
pub open spec fn trim_end(s: Seq<char>) -> Seq<char>
    decreases s.len(),
{
    if s.len() > 0 && is_white(s.last()) {
        trim_end(s.drop_last())
    } else {
        s
    }
}

/// `s` without leading and trailing whitespace, as `str::trim` returns it.
pub open spec fn trimmed(s: Seq<char>) -> Seq<char> {
    trim_end(trim_start(s))
}

/// After `trim_start`, a text is empty or starts with a character that is not whitespace.
pub proof fn lemma_trim_start_head(s: Seq<char>)
    ensures
        trim_start(s).len() > 0 ==> !is_white(trim_start(s)[0]),
        trim_start(s).len() <= s.len(),
    decreases s.len(),
{
    if s.len() > 0 && is_white(s[0]) {
        lemma_trim_start_head(s.drop_first());
    }
}

/// After `trim_end`, a text is empty or ends with a character that is not
/// whitespace; and a text that starts with such a character keeps it.
pub proof fn lemma_trim_end_ends(s: Seq<char>)
    ensures
        trim_end(s).len() > 0 ==> !is_white(trim_end(s).last()),
        s.len() > 0 && !is_white(s[0]) ==> trim_end(s).len() > 0 && trim_end(s)[0] == s[0],
    decreases s.len(),
{
    if s.len() > 0 && is_white(s.last()) {
        lemma_trim_end_ends(s.drop_last());
    }
}

/// A trimmed text has no whitespace at either end, so trimming it again changes nothing.
pub proof fn lemma_trimmed_idempotent(s: Seq<char>)
    ensures
        trimmed(s).len() > 0 ==> !is_white(trimmed(s)[0]) && !is_white(trimmed(s).last()),
        trimmed(trimmed(s)) == trimmed(s),
{
    let u = trim_start(s);
    let t = trim_end(u);
    lemma_trim_start_head(s);
    lemma_trim_end_ends(u);
    lemma_trim_end_ends(t);
    if t.len() > 0 {
        if u.len() == 0 {
            assert(t.len() == 0);
        }
        assert(trim_start(t) == t);
        assert(trim_end(t) == t);
    }
}

/// `trim_start` removes exactly the leading run of whitespace: it gives the
/// text from the first character that is not whitespace (index `k`) on.
pub proof fn lemma_trim_start_index(s: Seq<char>) -> (k: int)
    ensures
        0 <= k <= s.len(),
        trim_start(s) == s.skip(k),
        forall|m: int| 0 <= m < k ==> is_white(#[trigger] s[m]),
        k < s.len() ==> !is_white(s[k]),
    decreases s.len(),
{
    if s.len() > 0 && is_white(s[0]) {
        let k0 = lemma_trim_start_index(s.drop_first());
        assert(s.drop_first().skip(k0) =~= s.skip(k0 + 1));
        assert forall|m: int| 0 <= m < k0 + 1 implies is_white(#[trigger] s[m]) by {
            if m > 0 {
                assert(s[m] == s.drop_first()[m - 1]);
            }
        }
        k0 + 1
    } else {
        assert(s.skip(0) =~= s);
        0
    }
}

/// `trim_end` removes exactly the trailing run of whitespace: it gives the
/// text up to the last character that is not whitespace (before index `j`).
pub proof fn lemma_trim_end_index(s: Seq<char>) -> (j: int)
    ensures
        0 <= j <= s.len(),
        trim_end(s) == s.take(j),
        forall|m: int| j <= m < s.len() ==> is_white(#[trigger] s[m]),
        j > 0 ==> !is_white(s[j - 1]),
    decreases s.len(),
{
    if s.len() > 0 && is_white(s.last()) {
        let j0 = lemma_trim_end_index(s.drop_last());
        assert(s.drop_last().take(j0) =~= s.take(j0));
        assert forall|m: int| j0 <= m < s.len() implies is_white(#[trigger] s[m]) by {
            if m < s.len() - 1 {
                assert(s[m] == s.drop_last()[m]);
            }
        }
        j0
    } else {
        assert(s.take(s.len() as int) =~= s);
        s.len() as int
    }
}

/// `trimmed(s)` is the part `s[i..j]` of `s` with only whitespace before `i`
/// and from `j` on, and, unless it is empty, no whitespace at either end.
pub proof fn lemma_trimmed_range(s: Seq<char>) -> (r: (int, int))
    ensures
        0 <= r.0 <= r.1 <= s.len(),
        trimmed(s) == s.subrange(r.0, r.1),
        forall|m: int| 0 <= m < r.0 ==> is_white(#[trigger] s[m]),
        forall|m: int| r.1 <= m < s.len() ==> is_white(#[trigger] s[m]),
        r.0 < r.1 ==> !is_white(s[r.0]) && !is_white(s[r.1 - 1]),
{
    let k = lemma_trim_start_index(s);
    let t = s.skip(k);
    let j = lemma_trim_end_index(t);
    assert(t.take(j) =~= s.subrange(k, k + j));
    assert forall|m: int| k + j <= m < s.len() implies is_white(#[trigger] s[m]) by {
        assert(s[m] == t[m - k]);
    }
    if j > 0 {
        assert(s[k] == t[0]);
        assert(s[k + j - 1] == t[j - 1]);
    }
    (k, k + j)
}

/// Whether `c` is whitespace (`char::is_whitespace`).
pub fn is_whitespace(c: char) -> (r: bool)
    ensures
        r == is_white(c),
{
    let u = c as u32;
    (9 <= u && u <= 13) || u == 32 || u == 0x85 || u == 0xA0 || u == 0x1680 || (0x2000 <= u && u
        <= 0x200A) || u == 0x2028 || u == 0x2029 || u == 0x202F || u == 0x205F || u == 0x3000
}

/// The bounds of the trimmed part of `v[lo..hi]`.
pub fn trim_range(v: &Vec<char>, lo: usize, hi: usize) -> (r: (usize, usize))
    requires
        lo <= hi <= v@.len(),
    ensures
        lo <= r.0 <= r.1 <= hi,
        v@.subrange(r.0 as int, r.1 as int) == trimmed(v@.subrange(lo as int, hi as int)),
{
    let mut a = lo;
    while a < hi && is_whitespace(v[a])
        invariant
            lo <= a <= hi <= v@.len(),
            trim_start(v@.subrange(lo as int, hi as int)) == trim_start(
                v@.subrange(a as int, hi as int),
            ),
        decreases hi - a,
    {
        assert(v@.subrange(a as int, hi as int).drop_first() =~= v@.subrange(a + 1, hi as int));
        a = a + 1;
    }
    assert(trim_start(v@.subrange(lo as int, hi as int)) == v@.subrange(a as int, hi as int));
    let mut b = hi;
    while b > a && is_whitespace(v[b - 1])
        invariant
            lo <= a <= b <= hi <= v@.len(),
            trim_start(v@.subrange(lo as int, hi as int)) == v@.subrange(a as int, hi as int),
            trimmed(v@.subrange(lo as int, hi as int)) == trim_end(v@.subrange(a as int, b as int)),
        decreases b - a,
    {
        assert(v@.subrange(a as int, b as int).drop_last() =~= v@.subrange(a as int, b - 1));
        b = b - 1;
    }
    (a, b)
}

/// The string `s` without leading and trailing whitespace (`str::trim`).
pub fn trim(s: &str) -> (r: String)
    ensures
        r@ == trimmed(s@),
{
    let v = chars_of(s);
    let (a, b) = trim_range(&v, 0, v.len());
    assert(v@.subrange(0, v@.len() as int) =~= v@);
    string_of_range(&v, a, b)
}

/// The index of the first occurrence of `c` in `s`, if any.
pub open spec fn first_index(s: Seq<char>, c: char) -> Option<int>
    decreases s.len(),
{
    if s.len() == 0 {
        None
    } else if s[0] == c {
        Some(0)
    } else {
        match first_index(s.drop_first(), c) {
            Some(i) => Some(i + 1),
            None => None,
        }
    }
}

/// `first_index` finds `m` when `s[m] == c` and no earlier character is `c`,
/// and finds nothing when no character of `s` is `c`.
pub proof fn lemma_first_index(s: Seq<char>, c: char, m: int)
    requires
        0 <= m <= s.len(),
        forall|k: int| 0 <= k < m ==> s[k] != c,
    ensures
        m < s.len() && s[m] == c ==> first_index(s, c) == Some(m),
        m == s.len() ==> first_index(s, c) is None,
    decreases s.len(),
{
    if s.len() > 0 && m > 0 {
        lemma_first_index(s.drop_first(), c, m - 1);
    }
}

/// The first index `k` in `lo..hi` with `v[k] == c`, or `hi` when there is none.
pub fn find_char(v: &Vec<char>, c: char, lo: usize, hi: usize) -> (r: usize)
    requires
        lo <= hi <= v@.len(),
    ensures
        lo <= r <= hi,
        r < hi ==> v@[r as int] == c,
        forall|k: int| lo <= k < r ==> v@[k] != c,
        r < hi ==> first_index(v@.subrange(lo as int, hi as int), c) == Some(r - lo),
        r == hi ==> first_index(v@.subrange(lo as int, hi as int), c) is None,
{
    let mut i = lo;
    while i < hi && v[i] != c
        invariant
            lo <= i <= hi <= v@.len(),
            forall|k: int| lo <= k < i ==> v@[k] != c,
        decreases hi - i,
    {
        i = i + 1;
    }
    proof {
        lemma_first_index(v@.subrange(lo as int, hi as int), c, i - lo);
    }
    i
}

} // verus!
