//! Character-level helpers shared by the parsers and formatters.

use vstd::prelude::*;
use vstd::string::*;

verus! {

pub assume_specification[ String::push ](s: &mut String, ch: char)
    ensures
        final(s)@ == old(s)@.push(ch),
;

/// The characters of `s`, in order.
pub fn chars_of(s: &str) -> (v: Vec<char>)
    ensures
        v@ == s@,
{
    let mut v: Vec<char> = Vec::new();
    for c in it: s.chars()
        invariant
            v@ == it.seq().take(it.index() as int),
            it.seq() == s@,
    {
        v.push(c);
    }
    v
}

/// A `String` holding exactly the characters of `v`.
pub fn string_of(v: &[char]) -> (s: String)
    ensures
        s@ == v@,
{
    let mut s = String::new();
    let mut i: usize = 0;
    while i < v.len()
        invariant
            i <= v@.len(),
            s@ == v@.take(i as int),
        decreases v@.len() - i,
    {
        s.push(v[i]);
        i += 1;
        assert(v@.take(i as int) == v@.take((i - 1) as int).push(v@[i - 1]));
    }
    assert(v@.take(v@.len() as int) == v@);
    s
}

/// Whether `a` and `b` hold the same characters.
pub fn same_chars(a: &[char], b: &[char]) -> (r: bool)
    ensures
        r == (a@ == b@),
{
    if a.len() != b.len() {
        return false;
    }
    let mut i: usize = 0;
    while i < a.len()
        invariant
            a@.len() == b@.len(),
            i <= a@.len(),
            forall|j: int| 0 <= j < i ==> a@[j] == b@[j],
        decreases a@.len() - i,
    {
        if a[i] != b[i] {
            return false;
        }
        i += 1;
    }
    assert(a@ =~= b@);
    true
}

/// Unicode White_Space, the set of characters that `str::trim` removes.
pub open spec fn is_ws(c: char) -> bool {
    let u = c as u32;
    (0x09 <= u <= 0x0D) || u == 0x20 || u == 0x85 || u == 0xA0 || u == 0x1680 || (0x2000 <= u
        <= 0x200A) || u == 0x2028 || u == 0x2029 || u == 0x202F || u == 0x205F || u == 0x3000
}

pub fn is_whitespace(c: char) -> (r: bool)
    ensures
        r == is_ws(c),
{
    let u = c as u32;
    (0x09 <= u && u <= 0x0D) || u == 0x20 || u == 0x85 || u == 0xA0 || u == 0x1680 || (0x2000 <= u
        && u <= 0x200A) || u == 0x2028 || u == 0x2029 || u == 0x202F || u == 0x205F || u == 0x3000
}

/// `s` without its leading whitespace.
pub open spec fn trim_start(s: Seq<char>) -> Seq<char>
    decreases s.len(),
{
    if s.len() > 0 && is_ws(s[0]) {
        trim_start(s.drop_first())
    } else {
        s
    }
}

/// `s` without its trailing whitespace.
pub open spec fn trim_end(s: Seq<char>) -> Seq<char>
    decreases s.len(),
{
    if s.len() > 0 && is_ws(s.last()) {
        trim_end(s.drop_last())
    } else {
        s
    }
}

/// `s` without leading and trailing whitespace, as `str::trim` gives it.
pub open spec fn trim(s: Seq<char>) -> Seq<char> {
    trim_end(trim_start(s))
}

/// The characters of `v` without leading and trailing whitespace.
pub fn trim_chars(v: &[char]) -> (r: Vec<char>)
    ensures
        r@ == trim(v@),
{
    let n = v.len();
    let mut i: usize = 0;
    assert(v@.subrange(0, n as int) == v@);
    while i < n && is_whitespace(v[i])
        invariant
            n == v@.len(),
            i <= n,
            trim_start(v@) == trim_start(v@.subrange(i as int, n as int)),
        decreases n - i,
    {
        proof {
            let t = v@.subrange(i as int, n as int);
            assert(t.drop_first() == v@.subrange(i + 1, n as int));
        }
        i += 1;
    }
    let ghost t = v@.subrange(i as int, n as int);
    assert(trim_start(t) == t);
    let mut j: usize = n;
    while j > i && is_whitespace(v[j - 1])
        invariant
            n == v@.len(),
            i <= j <= n,
            t == v@.subrange(i as int, n as int),
            trim_end(t) == trim_end(v@.subrange(i as int, j as int)),
        decreases j,
    {
        proof {
            let u = v@.subrange(i as int, j as int);
            assert(u.drop_last() == v@.subrange(i as int, j - 1));
            assert(u.last() == v@[j - 1]);
        }
        j -= 1;
    }
    let mut r: Vec<char> = Vec::new();
    let mut k: usize = i;
    while k < j
        invariant
            i <= k <= j <= n,
            n == v@.len(),
            r@ == v@.subrange(i as int, k as int),
        decreases j - k,
    {
        r.push(v[k]);
        k += 1;
        assert(v@.subrange(i as int, k as int) == v@.subrange(i as int, k - 1).push(v@[k - 1]));
    }
    proof {
        let u = v@.subrange(i as int, j as int);
        if u.len() > 0 {
            assert(u.last() == v@[j - 1]);
        }
        assert(trim_end(u) == u);
    }
    r
}

/// Whether `a` and `b` hold the same text.
pub fn str_is(a: &str, b: &str) -> (r: bool)
    ensures
        r == (a@ == b@),
{
    let va = chars_of(a);
    let vb = chars_of(b);
    same_chars(&va, &vb)
}

/// Whether `p` is a prefix of `s`.
pub open spec fn has_prefix(s: Seq<char>, p: Seq<char>) -> bool {
    p.len() <= s.len() && s.subrange(0, p.len() as int) == p
}

pub fn starts_with(s: &[char], p: &[char]) -> (r: bool)
    ensures
        r == has_prefix(s@, p@),
{
    if p.len() > s.len() {
        return false;
    }
    let mut i: usize = 0;
    while i < p.len()
        invariant
            p@.len() <= s@.len(),
            i <= p@.len(),
            forall|j: int| 0 <= j < i ==> s@[j] == p@[j],
        decreases p@.len() - i,
    {
        if s[i] != p[i] {
            assert(s@.subrange(0, p@.len() as int)[i as int] != p@[i as int]);
            return false;
        }
        i += 1;
    }
    assert(s@.subrange(0, p@.len() as int) =~= p@);
    true
}

/// Whether `p` occurs in `s` at position `k`.
pub open spec fn occurs_at<T>(s: Seq<T>, p: Seq<T>, k: int) -> bool {
    0 <= k && k + p.len() <= s.len() && s.subrange(k, k + p.len()) == p
}

/// The first position at or after `i` where `p` occurs in `s`, or -1.
pub open spec fn find_from<T>(s: Seq<T>, p: Seq<T>, i: int) -> int
    decreases s.len() + 1 - i,
{
    if i < 0 || i + p.len() > s.len() {
        -1
    } else if occurs_at(s, p, i) {
        i
    } else {
        find_from(s, p, i + 1)
    }
}

/// The first position where `p` occurs in `s`, or -1.
pub open spec fn find<T>(s: Seq<T>, p: Seq<T>) -> int {
    find_from(s, p, 0)
}

pub proof fn lemma_find_from<T>(s: Seq<T>, p: Seq<T>, i: int)
    requires
        0 <= i,
    ensures
        find_from(s, p, i) == -1 || (i <= find_from(s, p, i) && occurs_at(s, p, find_from(s, p, i))),
        find_from(s, p, i) == -1 ==> forall|k: int| i <= k ==> !occurs_at(s, p, k),
        find_from(s, p, i) >= 0 ==> forall|k: int| i <= k < find_from(s, p, i) ==> !occurs_at(s, p, k),
    decreases s.len() + 1 - i,
{
    if i + p.len() <= s.len() && !occurs_at(s, p, i) {
        lemma_find_from(s, p, i + 1);
    }
}

/// The first position where `p` occurs in `s`.
pub fn find_chars(s: &[char], p: &[char]) -> (r: Option<usize>)
    ensures
        r matches Some(k) ==> k as int == find(s@, p@),
        r is None ==> find(s@, p@) == -1,
{
    if p.len() > s.len() {
        return None;
    }
    let mut i: usize = 0;
    let n = s.len();
    let last = n - p.len();
    while i <= last
        invariant
            n == s@.len(),
            p@.len() <= s@.len(),
            last == s@.len() - p@.len(),
            i <= s@.len() - p@.len() + 1,
            find(s@, p@) == find_from(s@, p@, i as int),
        decreases s@.len() - i,
    {
        let mut j: usize = 0;
        let mut ok = true;
        while j < p.len()
            invariant
                i + p@.len() <= s@.len(),
                i + p@.len() <= n,
                n == s@.len(),
                j <= p@.len(),
                ok == forall|m: int| 0 <= m < j ==> s@[i + m] == p@[m],
            decreases p@.len() - j,
        {
            if s[i + j] != p[j] {
                ok = false;
            }
            j += 1;
        }
        if ok {
            assert(s@.subrange(i as int, i + p@.len()) =~= p@);
            return Some(i);
        }
        assert(!occurs_at(s@, p@, i as int)) by {
            let k = choose|m: int| 0 <= m < p@.len() && s@[i + m] != p@[m];
            assert(s@.subrange(i as int, i + p@.len())[k] != p@[k]);
        }
        i += 1;
    }
    None
}

/// The first position where the bytes `p` occur in `s`.
pub fn find_bytes(s: &[u8], p: &[u8]) -> (r: Option<usize>)
    ensures
        r matches Some(k) ==> k as int == find(s@, p@),
        r is None ==> find(s@, p@) == -1,
{
    if p.len() > s.len() {
        return None;
    }
    let mut i: usize = 0;
    let n = s.len();
    let last = n - p.len();
    while i <= last
        invariant
            n == s@.len(),
            p@.len() <= s@.len(),
            last == s@.len() - p@.len(),
            i <= s@.len() - p@.len() + 1,
            find(s@, p@) == find_from(s@, p@, i as int),
        decreases s@.len() - i,
    {
        let mut j: usize = 0;
        let mut ok = true;
        while j < p.len()
            invariant
                i + p@.len() <= s@.len(),
                i + p@.len() <= n,
                n == s@.len(),
                j <= p@.len(),
                ok == forall|m: int| 0 <= m < j ==> s@[i + m] == p@[m],
            decreases p@.len() - j,
        {
            if s[i + j] != p[j] {
                ok = false;
            }
            j += 1;
        }
        if ok {
            assert(s@.subrange(i as int, i + p@.len()) =~= p@);
            return Some(i);
        }
        assert(!occurs_at(s@, p@, i as int)) by {
            let k = choose|m: int| 0 <= m < p@.len() && s@[i + m] != p@[m];
            assert(s@.subrange(i as int, i + p@.len())[k] != p@[k]);
        }
        i += 1;
    }
    None
}

/// Whether `p` occurs anywhere in `s`.
pub open spec fn contains<T>(s: Seq<T>, p: Seq<T>) -> bool {
    find(s, p) >= 0
}

/// The ASCII lower-case of a character (other characters are unchanged).
pub open spec fn ascii_lower(c: char) -> char {
    if 'A' <= c <= 'Z' { ((c as u32) + 32) as char } else { c }
}

/// The ASCII upper-case of a character (other characters are unchanged).
pub open spec fn ascii_upper(c: char) -> char {
    if 'a' <= c <= 'z' { ((c as u32) - 32) as char } else { c }
}

pub open spec fn ascii_lower_seq(s: Seq<char>) -> Seq<char> {
    s.map_values(|c: char| ascii_lower(c))
}

pub open spec fn ascii_upper_seq(s: Seq<char>) -> Seq<char> {
    s.map_values(|c: char| ascii_upper(c))
}

pub fn to_ascii_lower(c: char) -> (r: char)
    ensures
        r == ascii_lower(c),
{
    if 'A' <= c && c <= 'Z' {
        let u = (c as u32) + 32;
        char_from_ascii(u)
    } else {
        c
    }
}

pub fn to_ascii_upper(c: char) -> (r: char)
    ensures
        r == ascii_upper(c),
{
    if 'a' <= c && c <= 'z' {
        let u = (c as u32) - 32;
        char_from_ascii(u)
    } else {
        c
    }
}

fn char_from_ascii(u: u32) -> (c: char)
    requires
        u < 128,
    ensures
        c == u as char,
{
    (u as u8) as char
}

pub fn lower_chars(v: &[char]) -> (r: Vec<char>)
    ensures
        r@ == ascii_lower_seq(v@),
{
    let mut r: Vec<char> = Vec::new();
    let mut i: usize = 0;
    while i < v.len()
        invariant
            i <= v@.len(),
            r@ == ascii_lower_seq(v@.take(i as int)),
        decreases v@.len() - i,
    {
        r.push(to_ascii_lower(v[i]));
        i += 1;
        assert(ascii_lower_seq(v@.take(i as int)) =~= ascii_lower_seq(v@.take(i - 1)).push(ascii_lower(v@[i - 1])));
    }
    assert(v@.take(v@.len() as int) == v@);
    r
}

pub fn upper_chars(v: &[char]) -> (r: Vec<char>)
    ensures
        r@ == ascii_upper_seq(v@),
{
    let mut r: Vec<char> = Vec::new();
    let mut i: usize = 0;
    while i < v.len()
        invariant
            i <= v@.len(),
            r@ == ascii_upper_seq(v@.take(i as int)),
        decreases v@.len() - i,
    {
        r.push(to_ascii_upper(v[i]));
        i += 1;
        assert(ascii_upper_seq(v@.take(i as int)) =~= ascii_upper_seq(v@.take(i - 1)).push(ascii_upper(v@[i - 1])));
    }
    assert(v@.take(v@.len() as int) == v@);
    r
}

/// A copy of `v[from..to]`.
pub fn slice_chars(v: &[char], from: usize, to: usize) -> (r: Vec<char>)
    requires
        from <= to <= v@.len(),
    ensures
        r@ == v@.subrange(from as int, to as int),
{
    let mut r: Vec<char> = Vec::new();
    let mut k: usize = from;
    while k < to
        invariant
            from <= k <= to <= v@.len(),
            r@ == v@.subrange(from as int, k as int),
        decreases to - k,
    {
        r.push(v[k]);
        k += 1;
        assert(v@.subrange(from as int, k as int) == v@.subrange(from as int, k - 1).push(v@[k - 1]));
    }
    r
}

/// Append the characters of `v` to `s`.
pub fn push_chars(s: &mut String, v: &[char])
    ensures
        final(s)@ == old(s)@ + v@,
{
    let mut i: usize = 0;
    while i < v.len()
        invariant
            i <= v@.len(),
            s@ == old(s)@ + v@.take(i as int),
        decreases v@.len() - i,
    {
        s.push(v[i]);
        i += 1;
        assert(old(s)@ + v@.take(i as int) == (old(s)@ + v@.take(i - 1)).push(v@[i - 1]));
    }
    assert(v@.take(v@.len() as int) == v@);
}

/// The decimal digit character of `d` (0..=9).
pub open spec fn digit_char(d: int) -> char {
    (d + 48) as char
}

/// The decimal representation of `n`, without leading zeros.
pub open spec fn decimal(n: nat) -> Seq<char>
    decreases n,
{
    if n < 10 {
        seq![digit_char(n as int)]
    } else {
        decimal(n / 10).push(digit_char((n % 10) as int))
    }
}

/// The decimal representation of a signed integer, with '-' for negatives.
pub open spec fn signed_decimal(n: int) -> Seq<char> {
    if n < 0 { seq!['-'] + decimal((-n) as nat) } else { decimal(n as nat) }
}

/// `n` in decimal, as `format!("{n}")` writes it.
pub fn u64_decimal(n: u64) -> (r: Vec<char>)
    ensures
        r@ == decimal(n as nat),
    decreases n,
{
    if n < 10 {
        let c = char_from_ascii((n as u32) + 48);
        let mut r: Vec<char> = Vec::new();
        r.push(c);
        assert(r@ =~= seq![digit_char(n as int)]);
        r
    } else {
        let mut r = u64_decimal(n / 10);
        let c = char_from_ascii(((n % 10) as u32) + 48);
        r.push(c);
        r
    }
}

/// `n` in decimal with a leading '-' when negative.
pub fn i64_decimal(n: i64) -> (r: Vec<char>)
    ensures
        r@ == signed_decimal(n as int),
{
    if n < 0 {
        let m: u64 = if n == i64::MIN { 9223372036854775808u64 } else { (-n) as u64 };
        let d = u64_decimal(m);
        let mut r: Vec<char> = Vec::new();
        r.push('-');
        let mut i: usize = 0;
        while i < d.len()
            invariant
                i <= d@.len(),
                r@ == seq!['-'] + d@.take(i as int),
            decreases d@.len() - i,
        {
            r.push(d[i]);
            i += 1;
            assert(seq!['-'] + d@.take(i as int) == (seq!['-'] + d@.take(i - 1)).push(d@[i - 1]));
        }
        assert(d@.take(d@.len() as int) == d@);
        r
    } else {
        u64_decimal(n as u64)
    }
}

} // verus!
