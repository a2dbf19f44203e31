//! Character-level string helpers with contracts over `Seq<char>`.
use vstd::prelude::*;

verus! {

/// `p` is a prefix of `s`.
pub open spec fn has_prefix(s: Seq<char>, p: Seq<char>) -> bool {
    p.is_prefix_of(s)
}

/// The view of an optional string.
pub open spec fn opt_view(o: Option<String>) -> Option<Seq<char>> {
    match o {
        Some(s) => Some(s@),
        None => None,
    }
}

/// Decimal digit character for `d < 10`.
pub open spec fn digit_char(d: nat) -> char {
    if d == 0 { '0' }
    else if d == 1 { '1' }
    else if d == 2 { '2' }
    else if d == 3 { '3' }
    else if d == 4 { '4' }
    else if d == 5 { '5' }
    else if d == 6 { '6' }
    else if d == 7 { '7' }
    else if d == 8 { '8' }
    else { '9' }
}

/// Decimal digits of a natural number, most significant first, no leading zeros.
pub open spec fn nat_decimal(n: nat) -> Seq<char>
    decreases n,
{
    if n < 10 {
        seq![digit_char(n)]
    } else {
        nat_decimal(n / 10).push(digit_char(n % 10))
    }
}

/// Decimal text of an integer, with a leading `-` when it is negative.
pub open spec fn int_decimal(i: int) -> Seq<char> {
    if i < 0 {
        seq!['-'] + nat_decimal((-i) as nat)
    } else {
        nat_decimal(i as nat)
    }
}

/// Text of a boolean: `true` or `false`.
pub open spec fn bool_text(b: bool) -> Seq<char> {
    if b {
        seq!['t', 'r', 'u', 'e']
    } else {
        seq!['f', 'a', 'l', 's', 'e']
    }
}

/// Whether the two strings hold the same characters.
pub fn str_eq(a: &str, b: &str) -> (r: bool)
    ensures
        r == (a@ == b@),
{
    let n = a.unicode_len();
    let m = b.unicode_len();
    if n != m {
        return false;
    }
    let mut i: usize = 0;
    while i < n
        invariant
            n == a@.len(),
            m == b@.len(),
            n == m,
            i <= n,
            forall|j: int| 0 <= j < i ==> a@[j] == b@[j],
        decreases n - i,
    {
        if a.get_char(i) != b.get_char(i) {
            return false;
        }
        i = i + 1;
    }
    assert(a@ =~= b@);
    true
}

/// Whether `p` is a prefix of `s`.
pub fn starts_with(s: &str, p: &str) -> (r: bool)
    ensures
        r == has_prefix(s@, p@),
{
    let n = s.unicode_len();
    let m = p.unicode_len();
    if m > n {
        return false;
    }
    let mut i: usize = 0;
    while i < m
        invariant
            n == s@.len(),
            m == p@.len(),
            m <= n,
            i <= m,
            forall|j: int| 0 <= j < i ==> s@[j] == p@[j],
        decreases m - i,
    {
        if s.get_char(i) != p.get_char(i) {
            return false;
        }
        i = i + 1;
    }
    assert(s@.subrange(0, m as int) =~= p@);
    true
}

/// Whether `s` begins with the character `c`.
pub fn starts_with_char(s: &str, c: char) -> (r: bool)
    ensures
        r == (s@.len() > 0 && s@[0] == c),
{
    let n = s.unicode_len();
    n > 0 && s.get_char(0) == c
}

/// The characters of `s` from position `k` on.
pub fn suffix_from(s: &str, k: usize) -> (r: String)
    requires
        k <= s@.len(),
    ensures
        r@ == s@.subrange(k as int, s@.len() as int),
{
    let n = s.unicode_len();
    s.substring_char(k, n).to_owned()
}

/// An owned copy of `s`.
pub fn owned(s: &str) -> (r: String)
    ensures
        r@ == s@,
{
    s.to_owned()
}

/// `a` followed by `b`.
pub fn concat2(a: &str, b: &str) -> (r: String)
    ensures
        r@ == a@ + b@,
{
    let mut r = a.to_owned();
    r.append(b);
    r
}

/// `a`, `b` and `c` one after the other.
pub fn concat3(a: &str, b: &str, c: &str) -> (r: String)
    ensures
        r@ == a@ + b@ + c@,
{
    let mut r = a.to_owned();
    r.append(b);
    r.append(c);
    r
}

/// The text `true` or `false`.
pub fn bool_to_string(b: bool) -> (r: String)
    ensures
        r@ == bool_text(b),
{
    let s = if b {
        "true"
    } else {
        "false"
    };
    proof {
        reveal_strlit("true");
        reveal_strlit("false");
    }
    s.to_owned()
}

/// The character of the decimal digit `d`.
fn digit(d: u64) -> (c: char)
    requires
        d < 10,
    ensures
        c == digit_char(d as nat),
{
    if d == 0 { '0' }
    else if d == 1 { '1' }
    else if d == 2 { '2' }
    else if d == 3 { '3' }
    else if d == 4 { '4' }
    else if d == 5 { '5' }
    else if d == 6 { '6' }
    else if d == 7 { '7' }
    else if d == 8 { '8' }
    else { '9' }
}

/// The decimal digits of `n`, most significant first.
fn nat_to_string(n: u64) -> (r: String)
    ensures
        r@ == nat_decimal(n as nat),
    decreases n,
{
    if n < 10 {
        let mut s = String::new();
        push_char(&mut s, digit(n));
        assert(s@ =~= seq![digit_char(n as nat)]);
        s
    } else {
        let mut s = nat_to_string(n / 10);
        push_char(&mut s, digit(n % 10));
        s
    }
}

/// The decimal text of `v`, with `-` before a negative number.
pub(crate) fn i32_to_string(v: i32) -> (r: String)
    ensures
        r@ == int_decimal(v as int),
{
    if v < 0 {
        let m = nat_to_string((-(v as i64)) as u64);
        let mut s = String::new();
        push_char(&mut s, '-');
        s.append(m.as_str());
        assert(s@ =~= seq!['-'] + nat_decimal((-(v as int)) as nat));
        s
    } else {
        nat_to_string(v as u64)
    }
}

/// `p` is a suffix of `s`.
pub open spec fn has_suffix(s: Seq<char>, p: Seq<char>) -> bool {
    p.len() <= s.len() && s.subrange(s.len() - p.len(), s.len() as int) == p
}

/// `s` with every `c` replaced by `t`.
pub open spec fn replace_char_spec(s: Seq<char>, c: char, t: Seq<char>) -> Seq<char>
    decreases s.len(),
{
    if s.len() == 0 {
        s
    } else {
        replace_char_spec(s.drop_last(), c, t) + (if s.last() == c {
            t
        } else {
            seq![s.last()]
        })
    }
}

/// `s` with `p` removed from its start as many times as it is there.
pub open spec fn trim_start_spec(s: Seq<char>, p: Seq<char>) -> Seq<char>
    decreases s.len(),
{
    if p.len() > 0 && has_prefix(s, p) {
        trim_start_spec(s.subrange(p.len() as int, s.len() as int), p)
    } else {
        s
    }
}

/// `s` with `p` removed from its end as many times as it is there.
pub open spec fn trim_end_spec(s: Seq<char>, p: Seq<char>) -> Seq<char>
    decreases s.len(),
{
    if p.len() > 0 && has_suffix(s, p) {
        trim_end_spec(s.subrange(0, s.len() - p.len()), p)
    } else {
        s
    }
}

/// The position of the last `c` in `s`, if there is one.
pub open spec fn last_index_of(s: Seq<char>, c: char) -> Option<int>
    decreases s.len(),
{
    if s.len() == 0 {
        None
    } else if s.last() == c {
        Some(s.len() - 1)
    } else {
        last_index_of(s.drop_last(), c)
    }
}

/// `String::push`: `c` is added at the end, as its documentation says.
#[verifier::external_body]
pub(crate) fn push_char(s: &mut String, c: char)
    ensures
        final(s)@ == old(s)@.push(c),
{
    s.push(c)
}

/// Whether `p` is a suffix of `s`.
pub fn ends_with(s: &str, p: &str) -> (r: bool)
    ensures
        r == has_suffix(s@, p@),
{
    let n = s.unicode_len();
    let m = p.unicode_len();
    if m > n {
        return false;
    }
    let d = n - m;
    let mut i: usize = 0;
    while i < m
        invariant
            n == s@.len(),
            m == p@.len(),
            d == n - m,
            i <= m,
            forall|j: int| 0 <= j < i ==> s@[d + j] == p@[j],
        decreases m - i,
    {
        if s.get_char(d + i) != p.get_char(i) {
            assert(s@.subrange(d as int, n as int)[i as int] == s@[d + i]);
            return false;
        }
        i = i + 1;
    }
    assert(s@.subrange(d as int, n as int) =~= p@);
    true
}

/// `s` without the suffix `p`, if it ends with it.
pub fn strip_suffix(s: &str, p: &str) -> (r: Option<String>)
    ensures
        has_suffix(s@, p@) <==> r is Some,
        r matches Some(t) ==> t@ == s@.subrange(0, s@.len() - p@.len()),
{
    if ends_with(s, p) {
        let n = s.unicode_len();
        let m = p.unicode_len();
        Some(s.substring_char(0, n - m).to_owned())
    } else {
        None
    }
}

/// `s` with every `c` replaced by `t`.
pub fn replace_char(s: &str, c: char, t: &str) -> (r: String)
    ensures
        r@ == replace_char_spec(s@, c, t@),
{
    let mut out = String::new();
    let n = s.unicode_len();
    let mut i: usize = 0;
    while i < n
        invariant
            n == s@.len(),
            i <= n,
            out@ == replace_char_spec(s@.take(i as int), c, t@),
        decreases n - i,
    {
        let x = s.get_char(i);
        assert(s@.take(i + 1).drop_last() =~= s@.take(i as int));
        if x == c {
            out.append(t);
        } else {
            push_char(&mut out, x);
            assert(out@ =~= replace_char_spec(s@.take(i as int), c, t@) + seq![x]);
        }
        i = i + 1;
    }
    assert(s@.take(n as int) =~= s@);
    out
}

/// `s` split at its last `c`: what comes before it and what comes after.
pub fn rsplit_once_char(s: &str, c: char) -> (r: Option<(String, String)>)
    ensures
        last_index_of(s@, c) is None <==> r is None,
        r matches Some(p) ==> ({
            let k = last_index_of(s@, c)->0;
            &&& p.0@ == s@.subrange(0, k)
            &&& p.1@ == s@.subrange(k + 1, s@.len() as int)
        }),
{
    let n = s.unicode_len();
    let mut i: usize = n;
    assert(s@.take(n as int) =~= s@);
    while i > 0
        invariant
            n == s@.len(),
            i <= n,
            last_index_of(s@, c) == last_index_of(s@.take(i as int), c),
        decreases i,
    {
        assert(s@.take(i as int).drop_last() =~= s@.take(i - 1));
        if s.get_char(i - 1) == c {
            let before = s.substring_char(0, i - 1).to_owned();
            let after = s.substring_char(i, n).to_owned();
            return Some((before, after));
        }
        i = i - 1;
    }
    None
}

/// `s` with `p` removed from its start as many times as it is there.
pub fn trim_start_matches(s: &str, p: &str) -> (r: String)
    ensures
        r@ == trim_start_spec(s@, p@),
{
    let m = p.unicode_len();
    let mut cur = s.to_owned();
    if m == 0 {
        return cur;
    }
    while starts_with(cur.as_str(), p)
        invariant
            m == p@.len(),
            m > 0,
            trim_start_spec(cur@, p@) == trim_start_spec(s@, p@),
        decreases cur@.len(),
    {
        cur = suffix_from(cur.as_str(), m);
    }
    cur
}

/// `s` with `p` removed from its end as many times as it is there.
pub fn trim_end_matches(s: &str, p: &str) -> (r: String)
    ensures
        r@ == trim_end_spec(s@, p@),
{
    let m = p.unicode_len();
    let mut cur = s.to_owned();
    if m == 0 {
        return cur;
    }
    while ends_with(cur.as_str(), p)
        invariant
            m == p@.len(),
            m > 0,
            trim_end_spec(cur@, p@) == trim_end_spec(s@, p@),
        decreases cur@.len(),
    {
        let n = cur.as_str().unicode_len();
        cur = cur.as_str().substring_char(0, n - m).to_owned();
    }
    cur
}

/// `p` stands in `s` at position `k`.
pub open spec fn occurs_at(s: Seq<char>, p: Seq<char>, k: int) -> bool {
    0 <= k && k + p.len() <= s.len() && s.subrange(k, k + p.len()) == p
}

/// `k` is the first position where `p` stands in `s`.
pub open spec fn is_first_occurrence(s: Seq<char>, p: Seq<char>, k: int) -> bool {
    occurs_at(s, p, k) && forall|j: int| 0 <= j < k ==> !occurs_at(s, p, j)
}

/// `s` split around the first `p` in it, when `p` stands in it.
pub open spec fn split_once_str_spec(s: Seq<char>, p: Seq<char>) -> Option<(Seq<char>, Seq<char>)> {
    if exists|k: int| occurs_at(s, p, k) {
        let k = choose|k: int| is_first_occurrence(s, p, k);
        Some((s.subrange(0, k), s.subrange(k + p.len(), s.len() as int)))
    } else {
        None
    }
}

proof fn lemma_first_occurrence(s: Seq<char>, p: Seq<char>, k: int)
    requires
        is_first_occurrence(s, p, k),
    ensures
        (choose|j: int| is_first_occurrence(s, p, j)) == k,
{
    let j = choose|j: int| is_first_occurrence(s, p, j);
    assert(is_first_occurrence(s, p, j));
    if j < k {
        assert(!occurs_at(s, p, j));
    }
    if k < j {
        assert(!occurs_at(s, p, k));
    }
}

fn occurs_at_exec(s: &str, n: usize, p: &str, m: usize, k: usize) -> (r: bool)
    requires
        n == s@.len(),
        m == p@.len(),
        k + m <= n,
    ensures
        r == occurs_at(s@, p@, k as int),
{
    let mut i: usize = 0;
    while i < m
        invariant
            n == s@.len(),
            m == p@.len(),
            k + m <= n,
            i <= m,
            forall|j: int| 0 <= j < i ==> s@[k + j] == p@[j],
        decreases m - i,
    {
        if s.get_char(k + i) != p.get_char(i) {
            assert(s@.subrange(k as int, k + m)[i as int] == s@[k + i]);
            return false;
        }
        i = i + 1;
    }
    assert(s@.subrange(k as int, k + m) =~= p@);
    true
}

/// `s` split around the first `p` in it, when `p` stands in it.
pub fn split_once_str(s: &str, p: &str) -> (r: Option<(String, String)>)
    ensures
        match r {
            Some(t) => split_once_str_spec(s@, p@) == Some((t.0@, t.1@)),
            None => split_once_str_spec(s@, p@) is None,
        },
{
    let n = s.unicode_len();
    let m = p.unicode_len();
    if m > n {
        return None;
    }
    if m == 0 {
        proof {
            assert(s@.subrange(0, 0) =~= p@);
            assert(occurs_at(s@, p@, 0));
            lemma_first_occurrence(s@, p@, 0);
            assert(s@.subrange(0, s@.len() as int) =~= s@);
        }
        let e = String::new();
        assert(e@ =~= s@.subrange(0, 0));
        return Some((e, s.to_owned()));
    }
    let mut k: usize = 0;
    while k <= n - m
        invariant
            n == s@.len(),
            m == p@.len(),
            1 <= m <= n,
            k <= n - m + 1,
            forall|j: int| 0 <= j < k ==> !occurs_at(s@, p@, j),
        decreases n - m + 1 - k,
    {
        if occurs_at_exec(s, n, p, m, k) {
            proof {
                lemma_first_occurrence(s@, p@, k as int);
            }
            let before = s.substring_char(0, k).to_owned();
            let after = s.substring_char(k + m, n).to_owned();
            return Some((before, after));
        }
        k = k + 1;
    }
    proof {
        assert forall|j: int| !occurs_at(s@, p@, j) by {
            if 0 <= j < k {
            }
        }
    }
    None
}

/// `s` with every `p` replaced by `t`, matches taken from the left without overlap.
pub open spec fn replace_spec(s: Seq<char>, p: Seq<char>, t: Seq<char>) -> Seq<char>
    decreases s.len(),
{
    if s.len() == 0 {
        s
    } else if p.len() > 0 && has_prefix(s, p) {
        t + replace_spec(s.subrange(p.len() as int, s.len() as int), p, t)
    } else {
        seq![s[0]] + replace_spec(s.drop_first(), p, t)
    }
}

/// `s` with every `p` replaced by `t`, matches taken from the left without overlap;
/// `p` is not empty.
pub fn replace_str(s: &str, p: &str, t: &str) -> (r: String)
    requires
        p@.len() > 0,
    ensures
        r@ == replace_spec(s@, p@, t@),
{
    let n = s.unicode_len();
    let m = p.unicode_len();
    let mut out = String::new();
    let mut i: usize = 0;
    assert(s@.subrange(0, n as int) =~= s@);
    while i < n
        invariant
            n == s@.len(),
            m == p@.len(),
            m > 0,
            i <= n,
            out@ + replace_spec(s@.subrange(i as int, n as int), p@, t@) == replace_spec(s@, p@, t@),
        decreases n - i,
    {
        let rest = s.substring_char(i, n);
        let ghost r = s@.subrange(i as int, n as int);
        if starts_with(rest, p) {
            out.append(t);
            assert(r.subrange(m as int, r.len() as int) =~= s@.subrange(i + m, n as int));
            assert(out@ + replace_spec(s@.subrange(i + m, n as int), p@, t@) =~= replace_spec(s@, p@, t@));
            i = i + m;
        } else {
            let c = s.get_char(i);
            push_char(&mut out, c);
            assert(r.drop_first() =~= s@.subrange(i + 1, n as int));
            assert(out@ + replace_spec(s@.subrange(i + 1, n as int), p@, t@) =~= replace_spec(s@, p@, t@));
            i = i + 1;
        }
    }
    assert(s@.subrange(n as int, n as int) =~= Seq::<char>::empty());
    assert(out@ =~= replace_spec(s@, p@, t@));
    out
}

/// Whether `c` is white space, as `char::is_whitespace` says: the characters of
/// Unicode's `White_Space` property.
pub open spec fn is_white_space(c: char) -> bool {
    ('\u{9}' <= c && c <= '\u{d}') || c == ' ' || c == '\u{85}' || c == '\u{a0}' || c
        == '\u{1680}' || ('\u{2000}' <= c && c <= '\u{200a}') || c == '\u{2028}' || c
        == '\u{2029}' || c == '\u{202f}' || c == '\u{205f}' || c == '\u{3000}'
}

/// Whether `c` is white space.
pub fn char_is_white_space(c: char) -> (r: bool)
    ensures
        r == is_white_space(c),
{
    ('\u{9}' <= c && c <= '\u{d}') || c == ' ' || c == '\u{85}' || c == '\u{a0}' || c
        == '\u{1680}' || ('\u{2000}' <= c && c <= '\u{200a}') || c == '\u{2028}' || c
        == '\u{2029}' || c == '\u{202f}' || c == '\u{205f}' || c == '\u{3000}'
}

/// `s` without white space at its start.
pub open spec fn trim_start_ws(s: Seq<char>) -> Seq<char>
    decreases s.len(),
{
    if s.len() > 0 && is_white_space(s[0]) {
        trim_start_ws(s.drop_first())
    } else {
        s
    }
}

/// `s` without white space at its end.
pub open spec fn trim_end_ws(s: Seq<char>) -> Seq<char>
    decreases s.len(),
{
    if s.len() > 0 && is_white_space(s.last()) {
        trim_end_ws(s.drop_last())
    } else {
        s
    }
}

/// `s` without white space at either end.
pub fn trim(s: &str) -> (r: String)
    ensures
        r@ == trim_end_ws(trim_start_ws(s@)),
{
    let n = s.unicode_len();
    let mut a: usize = 0;
    assert(s@.subrange(0, n as int) =~= s@);
    while a < n && char_is_white_space(s.get_char(a))
        invariant
            n == s@.len(),
            a <= n,
            trim_start_ws(s@.subrange(a as int, n as int)) == trim_start_ws(s@),
        decreases n - a,
    {
        assert(s@.subrange(a as int, n as int).drop_first() =~= s@.subrange(a + 1, n as int));
        a = a + 1;
    }
    let mut b: usize = n;
    assert(trim_start_ws(s@) == s@.subrange(a as int, n as int));
    while b > a && char_is_white_space(s.get_char(b - 1))
        invariant
            n == s@.len(),
            a <= b <= n,
            trim_end_ws(s@.subrange(a as int, b as int)) == trim_end_ws(trim_start_ws(s@)),
        decreases b,
    {
        assert(s@.subrange(a as int, b as int).drop_last() =~= s@.subrange(a as int, b - 1));
        b = b - 1;
    }
    s.substring_char(a, b).to_owned()
}

} // verus!
