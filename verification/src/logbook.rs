//! Logbook helpers: picking callsigns and Maidenhead grids out of decoded
//! text, the ADIF and CSV field formats, and the band of a frequency.

use vstd::prelude::*;
use vstd::string::*;
use crate::model::{Lane, lane_name};
use crate::text::{
    ascii_lower, ascii_upper, ascii_upper_seq, chars_of, decimal, digit_char, push_chars, slice_chars,
    string_of, to_ascii_lower, to_ascii_upper, trim, trim_chars, u64_decimal, upper_chars,
};

verus! {

pub open spec fn is_ascii_alpha(c: char) -> bool {
    ('a' <= c <= 'z') || ('A' <= c <= 'Z')
}

pub open spec fn is_ascii_digit(c: char) -> bool {
    '0' <= c <= '9'
}

pub open spec fn is_ascii_alnum(c: char) -> bool {
    is_ascii_alpha(c) || is_ascii_digit(c)
}

pub fn ascii_alpha(c: char) -> (r: bool)
    ensures
        r == is_ascii_alpha(c),
{
    ('a' <= c && c <= 'z') || ('A' <= c && c <= 'Z')
}

pub fn ascii_digit(c: char) -> (r: bool)
    ensures
        r == is_ascii_digit(c),
{
    '0' <= c && c <= '9'
}

/// Whether `c` separates tokens: anything but an ASCII letter or digit, and
/// but '/' when `keep_slash`.
pub open spec fn is_separator(c: char, keep_slash: bool) -> bool {
    !is_ascii_alnum(c) && !(keep_slash && c == '/')
}

/// The pieces of `s` between separators, as `str::split` gives them: `n`
/// separators make `n + 1` pieces, empty pieces included.
pub open spec fn tokens(s: Seq<char>, keep_slash: bool) -> Seq<Seq<char>>
    decreases s.len(),
{
    if s.len() == 0 {
        seq![Seq::empty()]
    } else {
        let init = tokens(s.drop_last(), keep_slash);
        if is_separator(s.last(), keep_slash) {
            init.push(Seq::empty())
        } else {
            init.update(init.len() - 1, init.last().push(s.last()))
        }
    }
}

pub proof fn lemma_tokens_nonempty(s: Seq<char>, keep_slash: bool)
    ensures
        tokens(s, keep_slash).len() >= 1,
    decreases s.len(),
{
    if s.len() > 0 {
        lemma_tokens_nonempty(s.drop_last(), keep_slash);
    }
}

/// Tokens that a separator has closed stay the same as the text goes on.
pub proof fn lemma_tokens_stable(s: Seq<char>, j: int, keep_slash: bool)
    requires
        0 <= j <= s.len(),
    ensures
        tokens(s.take(j), keep_slash).len() <= tokens(s, keep_slash).len(),
        forall|k: int| 0 <= k < tokens(s.take(j), keep_slash).len() - 1
            ==> tokens(s, keep_slash)[k] == tokens(s.take(j), keep_slash)[k],
    decreases s.len() - j,
{
    if j == s.len() {
        assert(s.take(j) == s);
    } else {
        lemma_tokens_stable(s, j + 1, keep_slash);
        let t1 = s.take(j + 1);
        assert(t1.drop_last() == s.take(j));
        lemma_tokens_nonempty(s.take(j), keep_slash);
    }
}

/// The number of leading characters of `t` that are ASCII letters.
pub open spec fn leading_alpha_count(t: Seq<char>) -> nat
    decreases t.len(),
{
    if t.len() > 0 && is_ascii_alpha(t[0]) { 1 + leading_alpha_count(t.drop_first()) } else { 0 }
}

/// `t` without leading and trailing '/'.
pub open spec fn trim_slash(t: Seq<char>) -> Seq<char> {
    trim_slash_end(trim_slash_start(t))
}

pub open spec fn trim_slash_start(t: Seq<char>) -> Seq<char>
    decreases t.len(),
{
    if t.len() > 0 && t[0] == '/' { trim_slash_start(t.drop_first()) } else { t }
}

pub open spec fn trim_slash_end(t: Seq<char>) -> Seq<char>
    decreases t.len(),
{
    if t.len() > 0 && t.last() == '/' { trim_slash_end(t.drop_last()) } else { t }
}

/// A callsign-shaped token: one or two letters, one digit, then one to three
/// letters (K1ABC, W3ILT, DL1XYZ, VK2DEF).
pub open spec fn is_callsign(t: Seq<char>) -> bool {
    let lead = leading_alpha_count(t);
    let post = t.subrange(lead as int + 1, t.len() as int);
    &&& 3 <= t.len() <= 7
    &&& 1 <= lead <= 2
    &&& lead < t.len()
    &&& is_ascii_digit(t[lead as int])
    &&& 1 <= post.len() <= 3
    &&& leading_alpha_count(post) == post.len()
}

/// The position of the first token that is callsign-shaped once its outer
/// '/' are trimmed, or -1.
pub open spec fn first_callsign(ts: Seq<Seq<char>>) -> int
    decreases ts.len(),
{
    if ts.len() == 0 {
        -1
    } else if is_callsign(trim_slash(ts[0])) {
        0
    } else {
        let k = first_callsign(ts.drop_first());
        if k < 0 { -1 } else { k + 1 }
    }
}

pub proof fn lemma_first_callsign(ts: Seq<Seq<char>>, m: int)
    requires
        0 <= m <= ts.len(),
        forall|k: int| 0 <= k < m ==> !is_callsign(trim_slash(#[trigger] ts[k])),
    ensures
        m < ts.len() && is_callsign(trim_slash(ts[m])) ==> first_callsign(ts) == m,
        m == ts.len() ==> first_callsign(ts) == -1,
    decreases m,
{
    if m > 0 {
        assert forall|k: int| 0 <= k < m - 1 implies !is_callsign(trim_slash(#[trigger] ts.drop_first()[k])) by {
            assert(ts.drop_first()[k] == ts[k + 1]);
        }
        lemma_first_callsign(ts.drop_first(), m - 1);
    }
}

/// The first callsign-shaped token of a text (tokens are runs of ASCII
/// letters, digits and '/', with outer '/' trimmed), upper-cased.
pub open spec fn callsign_in(text: Seq<char>) -> Option<Seq<char>> {
    let ts = tokens(text, true);
    let k = first_callsign(ts);
    if k < 0 { None } else { Some(ascii_upper_seq(trim_slash(ts[k]))) }
}

fn leading_alpha(t: &[char], from: usize) -> (n: usize)
    requires
        from <= t@.len(),
    ensures
        n as int == leading_alpha_count(t@.subrange(from as int, t@.len() as int)),
        from + n <= t@.len(),
    decreases t@.len() - from,
{
    let ghost s = t@.subrange(from as int, t@.len() as int);
    if from < t.len() && ascii_alpha(t[from]) {
        assert(s.drop_first() == t@.subrange(from + 1, t@.len() as int));
        assert(s[0] == t@[from as int]);
        1 + leading_alpha(t, from + 1)
    } else {
        proof {
            if from < t@.len() {
                assert(s[0] == t@[from as int]);
            }
        }
        0
    }
}

fn trim_slash_chars(v: &[char]) -> (r: Vec<char>)
    ensures
        r@ == trim_slash(v@),
{
    let n = v.len();
    let mut i: usize = 0;
    assert(v@.subrange(0, n as int) == v@);
    while i < n && v[i] == '/'
        invariant
            n == v@.len(),
            i <= n,
            trim_slash_start(v@) == trim_slash_start(v@.subrange(i as int, n as int)),
        decreases n - i,
    {
        proof {
            let t = v@.subrange(i as int, n as int);
            assert(t.drop_first() == v@.subrange(i + 1, n as int));
        }
        i += 1;
    }
    let ghost t = v@.subrange(i as int, n as int);
    let mut j: usize = n;
    while j > i && v[j - 1] == '/'
        invariant
            n == v@.len(),
            i <= j <= n,
            t == v@.subrange(i as int, n as int),
            trim_slash_end(t) == trim_slash_end(v@.subrange(i as int, j as int)),
        decreases j,
    {
        proof {
            let u = v@.subrange(i as int, j as int);
            assert(u.drop_last() == v@.subrange(i as int, j - 1));
            assert(u.last() == v@[j - 1]);
        }
        j -= 1;
    }
    proof {
        let u = v@.subrange(i as int, j as int);
        if u.len() > 0 {
            assert(u.last() == v@[j - 1]);
        }
    }
    slice_chars(v, i, j)
}

fn check_callsign(t: &[char]) -> (r: bool)
    ensures
        r == is_callsign(t@),
{
    if t.len() < 3 || t.len() > 7 {
        return false;
    }
    let lead = leading_alpha(t, 0);
    assert(t@.subrange(0, t@.len() as int) == t@);
    if !(1 <= lead && lead <= 2) || lead >= t.len() || !ascii_digit(t[lead]) {
        return false;
    }
    let post_alpha = leading_alpha(t, lead + 1);
    let post_len = t.len() - (lead + 1);
    post_alpha == post_len && 1 <= post_len && post_len <= 3
}

/// The first callsign-shaped token of a text, upper-cased (a best-effort
/// heuristic, not a validator).
pub fn find_callsign(text: &str) -> (r: Option<String>)
    ensures
        r matches Some(c) ==> callsign_in(text@) == Some(c@),
        r is None ==> callsign_in(text@) is None,
{
    let v = chars_of(text);
    match first_callsign_chars(&v) {
        Some(c) => Some(string_of(&c)),
        None => None,
    }
}

fn first_callsign_chars(text: &[char]) -> (r: Option<Vec<char>>)
    ensures
        r matches Some(v) ==> callsign_in(text@) == Some(v@),
        r is None ==> callsign_in(text@) is None,
{
    let mut cur: Vec<char> = Vec::new();
    let mut i: usize = 0;
    assert(text@.take(0) == Seq::<char>::empty());
    while i < text.len()
        invariant
            i <= text@.len(),
            tokens(text@.take(i as int), true).len() >= 1,
            tokens(text@.take(i as int), true).last() == cur@,
            forall|k: int| 0 <= k < tokens(text@.take(i as int), true).len() - 1
                ==> !is_callsign(trim_slash(#[trigger] tokens(text@.take(i as int), true)[k])),
        decreases text@.len() - i,
    {
        let c = text[i];
        let is_sep = !(ascii_alpha(c) || ascii_digit(c)) && c != '/';
        let ghost pre = tokens(text@.take(i as int), true);
        proof {
            let t1 = text@.take(i + 1);
            assert(t1.drop_last() == text@.take(i as int));
            assert(t1.last() == c);
        }
        if is_sep {
            let tok = trim_slash_chars(&cur);
            if check_callsign(&tok) {
                proof {
                    lemma_tokens_stable(text@, i + 1, true);
                    let all = tokens(text@, true);
                    let m = pre.len() - 1;
                    assert(tokens(text@.take(i + 1), true) == pre.push(Seq::<char>::empty()));
                    assert(all[m] == pre[m]);
                    assert forall|k: int| 0 <= k < m implies !is_callsign(trim_slash(#[trigger] all[k])) by {
                        assert(all[k] == pre[k]);
                    }
                    lemma_first_callsign(all, m);
                }
                return Some(upper_chars(&tok));
            }
            cur = Vec::new();
            proof {
                let post = tokens(text@.take(i + 1), true);
                assert(post == pre.push(Seq::<char>::empty()));
                assert forall|k: int| 0 <= k < post.len() - 1 implies !is_callsign(trim_slash(#[trigger] post[k])) by {
                    assert(post[k] == pre[k]);
                }
            }
        } else {
            cur.push(c);
            proof {
                let post = tokens(text@.take(i + 1), true);
                assert(post == pre.update(pre.len() - 1, pre.last().push(c)));
                assert forall|k: int| 0 <= k < post.len() - 1 implies !is_callsign(trim_slash(#[trigger] post[k])) by {
                    assert(post[k] == pre[k]);
                }
            }
        }
        i += 1;
    }
    assert(text@.take(text@.len() as int) == text@);
    let tok = trim_slash_chars(&cur);
    let all = Ghost(tokens(text@, true));
    if check_callsign(&tok) {
        proof {
            lemma_first_callsign(all@, all@.len() - 1);
        }
        Some(upper_chars(&tok))
    } else {
        proof {
            assert forall|k: int| 0 <= k < all@.len() implies !is_callsign(trim_slash(#[trigger] all@[k])) by {
                if k < all@.len() - 1 {
                } else {
                    assert(all@[k] == cur@);
                }
            }
            lemma_first_callsign(all@, all@.len() as int);
        }
        None
    }
}

/// A Maidenhead-grid-shaped token: two field letters A-R (either case), two
/// digits, and optionally two subsquare letters a-x (either case).
pub open spec fn is_grid(t: Seq<char>) -> bool {
    &&& (t.len() == 4 || t.len() == 6)
    &&& 'A' <= ascii_upper(t[0]) <= 'R'
    &&& 'A' <= ascii_upper(t[1]) <= 'R'
    &&& is_ascii_digit(t[2])
    &&& is_ascii_digit(t[3])
    &&& (t.len() == 6 ==> 'a' <= ascii_lower(t[4]) <= 'x' && 'a' <= ascii_lower(t[5]) <= 'x')
}

/// A grid as written to the log: field letters upper-cased, the rest as found.
pub open spec fn grid_text(t: Seq<char>) -> Seq<char> {
    seq![ascii_upper(t[0]), ascii_upper(t[1])] + t.subrange(2, t.len() as int)
}

/// The position of the first grid-shaped token, or -1.
pub open spec fn first_grid(ts: Seq<Seq<char>>) -> int
    decreases ts.len(),
{
    if ts.len() == 0 {
        -1
    } else if is_grid(ts[0]) {
        0
    } else {
        let k = first_grid(ts.drop_first());
        if k < 0 { -1 } else { k + 1 }
    }
}

pub proof fn lemma_first_grid(ts: Seq<Seq<char>>, m: int)
    requires
        0 <= m <= ts.len(),
        forall|k: int| 0 <= k < m ==> !is_grid(#[trigger] ts[k]),
    ensures
        m < ts.len() && is_grid(ts[m]) ==> first_grid(ts) == m,
        m == ts.len() ==> first_grid(ts) == -1,
    decreases m,
{
    if m > 0 {
        assert forall|k: int| 0 <= k < m - 1 implies !is_grid(#[trigger] ts.drop_first()[k]) by {
            assert(ts.drop_first()[k] == ts[k + 1]);
        }
        lemma_first_grid(ts.drop_first(), m - 1);
    }
}

/// The first grid-shaped token of a text (tokens are runs of ASCII letters and
/// digits).
pub open spec fn grid_in(text: Seq<char>) -> Option<Seq<char>> {
    let ts = tokens(text, false);
    let k = first_grid(ts);
    if k < 0 { None } else { Some(grid_text(ts[k])) }
}

fn check_grid(t: &[char]) -> (r: bool)
    ensures
        r == is_grid(t@),
{
    if !(t.len() == 4 || t.len() == 6) {
        return false;
    }
    let f1 = to_ascii_upper(t[0]);
    let f2 = to_ascii_upper(t[1]);
    if !('A' <= f1 && f1 <= 'R') || !('A' <= f2 && f2 <= 'R') {
        return false;
    }
    if !ascii_digit(t[2]) || !ascii_digit(t[3]) {
        return false;
    }
    if t.len() == 6 {
        let s1 = to_ascii_lower(t[4]);
        let s2 = to_ascii_lower(t[5]);
        if !('a' <= s1 && s1 <= 'x') || !('a' <= s2 && s2 <= 'x') {
            return false;
        }
    }
    true
}

fn grid_chars(t: &[char]) -> (r: Vec<char>)
    requires
        is_grid(t@),
    ensures
        r@ == grid_text(t@),
{
    let mut r: Vec<char> = Vec::new();
    r.push(to_ascii_upper(t[0]));
    r.push(to_ascii_upper(t[1]));
    let mut k: usize = 2;
    while k < t.len()
        invariant
            2 <= k <= t@.len(),
            r@ == seq![ascii_upper(t@[0]), ascii_upper(t@[1])] + t@.subrange(2, k as int),
        decreases t@.len() - k,
    {
        r.push(t[k]);
        k += 1;
        assert(seq![ascii_upper(t@[0]), ascii_upper(t@[1])] + t@.subrange(2, k as int)
            =~= (seq![ascii_upper(t@[0]), ascii_upper(t@[1])] + t@.subrange(2, k - 1)).push(t@[k - 1]));
    }
    r
}

/// The first Maidenhead-grid-shaped token of a text, with its field letters
/// upper-cased (a best-effort heuristic).
pub fn find_grid(text: &str) -> (r: Option<String>)
    ensures
        r matches Some(g) ==> grid_in(text@) == Some(g@),
        r is None ==> grid_in(text@) is None,
{
    let v = chars_of(text);
    match first_grid_chars(&v) {
        Some(g) => Some(string_of(&g)),
        None => None,
    }
}

fn first_grid_chars(text: &[char]) -> (r: Option<Vec<char>>)
    ensures
        r matches Some(g) ==> grid_in(text@) == Some(g@),
        r is None ==> grid_in(text@) is None,
{
    let mut cur: Vec<char> = Vec::new();
    let mut i: usize = 0;
    assert(text@.take(0) == Seq::<char>::empty());
    while i < text.len()
        invariant
            i <= text@.len(),
            tokens(text@.take(i as int), false).len() >= 1,
            tokens(text@.take(i as int), false).last() == cur@,
            forall|k: int| 0 <= k < tokens(text@.take(i as int), false).len() - 1
                ==> !is_grid(#[trigger] tokens(text@.take(i as int), false)[k]),
        decreases text@.len() - i,
    {
        let c = text[i];
        let is_sep = !(ascii_alpha(c) || ascii_digit(c));
        let ghost pre = tokens(text@.take(i as int), false);
        proof {
            let t1 = text@.take(i + 1);
            assert(t1.drop_last() == text@.take(i as int));
            assert(t1.last() == c);
        }
        if is_sep {
            if check_grid(&cur) {
                proof {
                    lemma_tokens_stable(text@, i + 1, false);
                    let all = tokens(text@, false);
                    let m = pre.len() - 1;
                    assert(tokens(text@.take(i + 1), false) == pre.push(Seq::<char>::empty()));
                    assert(all[m] == pre[m]);
                    assert forall|k: int| 0 <= k < m implies !is_grid(#[trigger] all[k]) by {
                        assert(all[k] == pre[k]);
                    }
                    lemma_first_grid(all, m);
                }
                let g = grid_chars(&cur);
                return Some(g);
            }
            cur = Vec::new();
            proof {
                let post = tokens(text@.take(i + 1), false);
                assert(post == pre.push(Seq::<char>::empty()));
                assert forall|k: int| 0 <= k < post.len() - 1 implies !is_grid(#[trigger] post[k]) by {
                    assert(post[k] == pre[k]);
                }
            }
        } else {
            cur.push(c);
            proof {
                let post = tokens(text@.take(i + 1), false);
                assert(post == pre.update(pre.len() - 1, pre.last().push(c)));
                assert forall|k: int| 0 <= k < post.len() - 1 implies !is_grid(#[trigger] post[k]) by {
                    assert(post[k] == pre[k]);
                }
            }
        }
        i += 1;
    }
    assert(text@.take(text@.len() as int) == text@);
    let all = Ghost(tokens(text@, false));
    if check_grid(&cur) {
        proof {
            lemma_first_grid(all@, all@.len() - 1);
        }
        let g = grid_chars(&cur);
        Some(g)
    } else {
        proof {
            assert forall|k: int| 0 <= k < all@.len() implies !is_grid(#[trigger] all@[k]) by {
                if k == all@.len() - 1 {
                    assert(all@[k] == cur@);
                }
            }
            lemma_first_grid(all@, all@.len() as int);
        }
        None
    }
}

/// The amateur band of a frequency in Hz, by its ADIF name; empty outside
/// the bands. Each band is a half-open range [low, high).
pub open spec fn band_of(f: int) -> Seq<char> {
    if 135000 <= f < 138000 {
        "2190m"@
    } else if 1800000 <= f < 2000000 {
        "160m"@
    } else if 3500000 <= f < 4000000 {
        "80m"@
    } else if 5000000 <= f < 5500000 {
        "60m"@
    } else if 7000000 <= f < 7300000 {
        "40m"@
    } else if 10100000 <= f < 10150000 {
        "30m"@
    } else if 14000000 <= f < 14350000 {
        "20m"@
    } else if 18000000 <= f < 18200000 {
        "17m"@
    } else if 21000000 <= f < 21450000 {
        "15m"@
    } else if 24800000 <= f < 25000000 {
        "12m"@
    } else if 28000000 <= f < 29700000 {
        "10m"@
    } else if 50000000 <= f < 54000000 {
        "6m"@
    } else if 144000000 <= f < 148000000 {
        "2m"@
    } else {
        ""@
    }
}

/// The ADIF band of a frequency, by the ADIF band table: each amateur band
/// from 2190 m to 2 m has its range in Hz (lower edge included, upper edge
/// excluded), and a frequency in none of them has no band.
pub proof fn lemma_band_table(f: int)
    ensures
        135000 <= f < 138000 ==> band_of(f) == seq!['2', '1', '9', '0', 'm'],
        1800000 <= f < 2000000 ==> band_of(f) == seq!['1', '6', '0', 'm'],
        3500000 <= f < 4000000 ==> band_of(f) == seq!['8', '0', 'm'],
        5000000 <= f < 5500000 ==> band_of(f) == seq!['6', '0', 'm'],
        7000000 <= f < 7300000 ==> band_of(f) == seq!['4', '0', 'm'],
        10100000 <= f < 10150000 ==> band_of(f) == seq!['3', '0', 'm'],
        14000000 <= f < 14350000 ==> band_of(f) == seq!['2', '0', 'm'],
        18000000 <= f < 18200000 ==> band_of(f) == seq!['1', '7', 'm'],
        21000000 <= f < 21450000 ==> band_of(f) == seq!['1', '5', 'm'],
        24800000 <= f < 25000000 ==> band_of(f) == seq!['1', '2', 'm'],
        28000000 <= f < 29700000 ==> band_of(f) == seq!['1', '0', 'm'],
        50000000 <= f < 54000000 ==> band_of(f) == seq!['6', 'm'],
        144000000 <= f < 148000000 ==> band_of(f) == seq!['2', 'm'],
        !(135000 <= f < 138000) && !(1800000 <= f < 2000000) && !(3500000 <= f < 4000000) && !(5000000 <= f < 5500000) && !(7000000 <= f < 7300000) && !(10100000 <= f < 10150000) && !(14000000 <= f < 14350000) && !(18000000 <= f < 18200000) && !(21000000 <= f < 21450000) && !(24800000 <= f < 25000000) && !(28000000 <= f < 29700000) && !(50000000 <= f < 54000000) && !(144000000 <= f < 148000000) ==> band_of(f) == Seq::<char>::empty(),
{
    reveal_strlit("2190m");
    reveal_strlit("160m");
    reveal_strlit("80m");
    reveal_strlit("60m");
    reveal_strlit("40m");
    reveal_strlit("30m");
    reveal_strlit("20m");
    reveal_strlit("17m");
    reveal_strlit("15m");
    reveal_strlit("12m");
    reveal_strlit("10m");
    reveal_strlit("6m");
    reveal_strlit("2m");
    reveal_strlit("");
}

/// The ADIF band name of a frequency in Hz (empty outside the amateur bands).
pub fn adif_band(freq_hz: u64) -> (r: &'static str)
    ensures
        r@ == band_of(freq_hz as int),
{
    let f = freq_hz;
    if 135000 <= f && f < 138000 {
        "2190m"
    } else if 1800000 <= f && f < 2000000 {
        "160m"
    } else if 3500000 <= f && f < 4000000 {
        "80m"
    } else if 5000000 <= f && f < 5500000 {
        "60m"
    } else if 7000000 <= f && f < 7300000 {
        "40m"
    } else if 10100000 <= f && f < 10150000 {
        "30m"
    } else if 14000000 <= f && f < 14350000 {
        "20m"
    } else if 18000000 <= f && f < 18200000 {
        "17m"
    } else if 21000000 <= f && f < 21450000 {
        "15m"
    } else if 24800000 <= f && f < 25000000 {
        "12m"
    } else if 28000000 <= f && f < 29700000 {
        "10m"
    } else if 50000000 <= f && f < 54000000 {
        "6m"
    } else if 144000000 <= f && f < 148000000 {
        "2m"
    } else {
        ""
    }
}

/// `s` with every '"' doubled.
pub open spec fn double_quotes(s: Seq<char>) -> Seq<char>
    decreases s.len(),
{
    if s.len() == 0 {
        Seq::empty()
    } else if s.last() == '"' {
        double_quotes(s.drop_last()) + seq!['"', '"']
    } else {
        double_quotes(s.drop_last()).push(s.last())
    }
}

fn double_quote_chars(v: &[char]) -> (r: Vec<char>)
    ensures
        r@ == double_quotes(v@),
{
    let mut r: Vec<char> = Vec::new();
    let mut i: usize = 0;
    while i < v.len()
        invariant
            i <= v@.len(),
            r@ == double_quotes(v@.take(i as int)),
        decreases v@.len() - i,
    {
        let ghost prev = r@;
        if v[i] == '"' {
            r.push('"');
            r.push('"');
        } else {
            r.push(v[i]);
        }
        i += 1;
        proof {
            let t = v@.take(i as int);
            assert(t.drop_last() == v@.take(i - 1));
            assert(t.last() == v@[i - 1]);
            assert(r@ =~= double_quotes(t));
        }
    }
    assert(v@.take(v@.len() as int) == v@);
    r
}

/// Whether a CSV field must be quoted: it holds a '"', ',' or newline.
pub open spec fn needs_csv_quotes(s: Seq<char>) -> bool {
    exists|i: int| 0 <= i < s.len() && (s[i] == '"' || s[i] == ',' || s[i] == '\n')
}

/// A CSV field: quoted, with inner quotes doubled, when it needs quoting.
pub open spec fn csv_field(s: Seq<char>) -> Seq<char> {
    if needs_csv_quotes(s) { seq!['"'] + double_quotes(s) + seq!['"'] } else { s }
}

fn csv_escape_chars(v: &[char]) -> (r: Vec<char>)
    ensures
        r@ == csv_field(v@),
{
    let mut special = false;
    let mut i: usize = 0;
    while i < v.len()
        invariant
            i <= v@.len(),
            special == exists|j: int| 0 <= j < i && (v@[j] == '"' || v@[j] == ',' || v@[j] == '\n'),
        decreases v@.len() - i,
    {
        if v[i] == '"' || v[i] == ',' || v[i] == '\n' {
            special = true;
        }
        i += 1;
    }
    if special {
        let mut r: Vec<char> = Vec::new();
        r.push('"');
        let d = double_quote_chars(v);
        let mut k: usize = 0;
        while k < d.len()
            invariant
                k <= d@.len(),
                r@ == seq!['"'] + d@.take(k as int),
            decreases d@.len() - k,
        {
            r.push(d[k]);
            k += 1;
            assert(seq!['"'] + d@.take(k as int) =~= (seq!['"'] + d@.take(k - 1)).push(d@[k - 1]));
        }
        r.push('"');
        assert(d@.take(d@.len() as int) == d@);
        assert(r@ =~= seq!['"'] + double_quotes(v@) + seq!['"']);
        r
    } else {
        let mut r: Vec<char> = Vec::new();
        let mut k: usize = 0;
        while k < v.len()
            invariant
                k <= v@.len(),
                r@ == v@.take(k as int),
            decreases v@.len() - k,
        {
            r.push(v[k]);
            k += 1;
            assert(v@.take(k as int) == v@.take(k - 1).push(v@[k - 1]));
        }
        assert(v@.take(v@.len() as int) == v@);
        r
    }
}

/// A CSV field (see `csv_field`).
pub fn csv_escape(s: &str) -> (r: String)
    ensures
        r@ == csv_field(s@),
{
    let v = chars_of(s);
    let e = csv_escape_chars(&v);
    string_of(&e)
}

/// The UTF-8 length of a text, in bytes.
pub open spec fn utf8_len(s: Seq<char>) -> nat {
    vstd::utf8::encode_utf8(s).len()
}

/// An ADIF field `<NAME:len>value`, where `len` is the value's length in
/// bytes; nothing at all for an empty value.
pub open spec fn adif_field_text(name: Seq<char>, val: Seq<char>) -> Seq<char> {
    if val.len() == 0 {
        Seq::empty()
    } else {
        seq!['<'] + name + seq![':'] + decimal((utf8_len(val) as usize) as nat) + seq!['>'] + val
    }
}

pub fn adif_field(name: &str, val: &str) -> (r: String)
    ensures
        r@ == adif_field_text(name@, val@),
{
    let v = chars_of(val);
    if v.len() == 0 {
        return String::new();
    }
    let mut out = String::new();
    out.push('<');
    out.append(name);
    out.push(':');
    let d = u64_decimal(val.len() as u64);
    push_chars(&mut out, &d);
    out.push('>');
    out.append(val);
    assert(out@ =~= seq!['<'] + name@ + seq![':'] + decimal((utf8_len(val@) as usize) as nat) + seq!['>'] + val@);
    out
}

// ---- logbook export ----

/// One decoded or transcribed line, as the logbook export reads it. The SNR
/// comes already rounded to whole dB and written out.
pub struct LogEntry {
    pub ts_start: i64,
    pub receiver_id: String,
    pub lane: Lane,
    pub mode: String,
    pub text_en: String,
    pub snr_text: Option<String>,
}

/// What the export knows of a receiver: its current frequency and the name
/// shown for it (its label, else its URL).
pub struct StationMeta {
    pub id: String,
    pub freq_hz: u64,
    pub label: String,
}

/// Text that chrono's UTC formatting gives for a unix-ms timestamp (the epoch
/// when the timestamp is out of chrono's range) and a format pattern.
pub uninterp spec fn utc_time_text(ts_ms: int, pattern: Seq<char>) -> Seq<char>;

/// The timestamp formatted in UTC by chrono, with one of the three patterns
/// the log uses.
///
/// Trusted: calls `chrono::DateTime::<Utc>::from_timestamp_millis`, falls back
/// to the epoch (`unwrap_or_default`) and formats with `format`; the result is
/// named `utc_time_text`, a function of the timestamp and the pattern alone.
#[verifier::external_body]
fn format_utc(ts_ms: i64, pattern: &str) -> (r: String)
    requires
        pattern@ == "%Y%m%d"@ || pattern@ == "%H%M%S"@ || pattern@ == "%Y-%m-%d %H:%M:%S"@,
    ensures
        r@ == utc_time_text(ts_ms as int, pattern@),
{
    chrono::DateTime::<chrono::Utc>::from_timestamp_millis(ts_ms).unwrap_or_default().format(pattern).to_string()
}

/// The Unicode upper case of a text, as `str::to_uppercase` gives it.
pub uninterp spec fn unicode_upper(s: Seq<char>) -> Seq<char>;

/// Trusted: calls `str::to_uppercase`; the result is named `unicode_upper`.
#[verifier::external_body]
fn to_uppercase(s: &str) -> (r: String)
    ensures
        r@ == unicode_upper(s@),
{
    s.to_uppercase()
}

/// The position of the last station entry with the given id, or -1.
pub open spec fn meta_index(meta: Seq<StationMeta>, id: Seq<char>) -> int
    decreases meta.len(),
{
    if meta.len() == 0 {
        -1
    } else if meta.last().id@ == id {
        meta.len() - 1
    } else {
        meta_index(meta.drop_last(), id)
    }
}

pub proof fn lemma_meta_index(meta: Seq<StationMeta>, id: Seq<char>)
    ensures
        -1 <= meta_index(meta, id) < meta.len(),
    decreases meta.len(),
{
    if meta.len() > 0 {
        lemma_meta_index(meta.drop_last(), id);
    }
}

fn find_meta(meta: &[StationMeta], id: &str) -> (r: Option<usize>)
    ensures
        r matches Some(k) ==> k as int == meta_index(meta@, id@),
        r is None ==> meta_index(meta@, id@) == -1,
{
    let mut i: usize = meta.len();
    assert(meta@.take(i as int) == meta@);
    while i > 0
        invariant
            i <= meta@.len(),
            meta_index(meta@, id@) == meta_index(meta@.take(i as int), id@),
        decreases i,
    {
        let t = Ghost(meta@.take(i as int));
        assert(t@.last() == meta@[i - 1]);
        assert(t@.drop_last() == meta@.take(i - 1));
        if crate::text::str_is(meta[i - 1].id.as_str(), id) {
            return Some(i - 1);
        }
        i -= 1;
    }
    None
}

/// A frequency in MHz with six decimals, as `{:.6}` writes `freq_hz / 1e6`
/// (exactly, for frequencies below 2^33 MHz).
pub open spec fn mhz_text(freq_hz: nat) -> Seq<char> {
    let f = (freq_hz % 1000000) as int;
    decimal(freq_hz / 1000000) + seq![
        '.',
        digit_char(f / 100000),
        digit_char((f / 10000) % 10),
        digit_char((f / 1000) % 10),
        digit_char((f / 100) % 10),
        digit_char((f / 10) % 10),
        digit_char(f % 10),
    ]
}

fn digit(d: u64) -> (c: char)
    requires
        d < 10,
    ensures
        c == digit_char(d as int),
{
    ((d as u8) + 48) as char
}

pub fn mhz_string(freq_hz: u64) -> (r: String)
    ensures
        r@ == mhz_text(freq_hz as nat),
{
    let mut out = String::new();
    let d = u64_decimal(freq_hz / 1000000);
    push_chars(&mut out, &d);
    let f = freq_hz % 1000000;
    out.push('.');
    out.push(digit(f / 100000));
    out.push(digit((f / 10000) % 10));
    out.push(digit((f / 1000) % 10));
    out.push(digit((f / 100) % 10));
    out.push(digit((f / 10) % 10));
    out.push(digit(f % 10));
    assert(out@ =~= mhz_text(freq_hz as nat));
    out
}

/// The first line and header of an ADIF export.
pub open spec fn adif_header() -> Seq<char> {
    "ADIF export from HamHawk — received/decoded traffic (monitoring log, not 2-way QSOs).\n<ADIF_VER:5>3.1.4<PROGRAMID:7>HamHawk<EOH>\n"@
}

pub open spec fn opt_text(o: Option<Seq<char>>) -> Seq<char> {
    match o {
        Some(t) => t,
        None => Seq::empty(),
    }
}

pub open spec fn entry_freq(e: LogEntry, meta: Seq<StationMeta>) -> nat {
    let k = meta_index(meta, e.receiver_id@);
    if k < 0 { 0 } else { meta[k].freq_hz as nat }
}

pub open spec fn snr_of(e: LogEntry) -> Seq<char> {
    match e.snr_text {
        Some(t) => t@,
        None => Seq::empty(),
    }
}

/// One ADIF record: date, time, callsign, grid, upper-cased mode, frequency
/// and band (from the receiver's current frequency), the SNR when known, the
/// text as comment; empty fields are left out.
pub open spec fn adif_record(e: LogEntry, meta: Seq<StationMeta>) -> Seq<char> {
    let f = entry_freq(e, meta);
    let text = e.text_en@;
    adif_field_text("QSO_DATE"@, utc_time_text(e.ts_start as int, "%Y%m%d"@))
        + adif_field_text("TIME_ON"@, utc_time_text(e.ts_start as int, "%H%M%S"@))
        + adif_field_text("CALL"@, opt_text(callsign_in(text)))
        + adif_field_text("GRIDSQUARE"@, opt_text(grid_in(text)))
        + adif_field_text("MODE"@, unicode_upper(e.mode@))
        + adif_field_text("FREQ"@, if f > 0 { mhz_text(f) } else { Seq::empty() })
        + adif_field_text("BAND"@, band_of(f as int))
        + adif_field_text("APP_HAMHAWK_SNR"@, snr_of(e))
        + adif_field_text("COMMENT"@, trim(text))
        + "<EOR>\n"@
}

pub open spec fn adif_records(rows: Seq<LogEntry>, meta: Seq<StationMeta>) -> Seq<char>
    decreases rows.len(),
{
    if rows.len() == 0 {
        Seq::empty()
    } else {
        adif_records(rows.drop_last(), meta) + adif_record(rows.last(), meta)
    }
}

fn opt_string(o: Option<String>) -> (r: String)
    ensures
        r@ == (match o {
            Some(t) => t@,
            None => Seq::<char>::empty(),
        }),
{
    match o {
        Some(t) => t,
        None => String::new(),
    }
}

fn trimmed(s: &str) -> (r: String)
    ensures
        r@ == trim(s@),
{
    let v = chars_of(s);
    let t = trim_chars(&v);
    string_of(&t)
}

fn adif_entry(e: &LogEntry, meta: &[StationMeta]) -> (r: String)
    ensures
        r@ == adif_record(*e, meta@),
{
    proof {
        lemma_meta_index(meta@, e.receiver_id@);
    }
    let f: u64 = match find_meta(meta, e.receiver_id.as_str()) {
        Some(k) => meta[k].freq_hz,
        None => 0,
    };
    let text = e.text_en.as_str();
    let date = format_utc(e.ts_start, "%Y%m%d");
    let time = format_utc(e.ts_start, "%H%M%S");
    let call = opt_string(find_callsign(text));
    let grid = opt_string(find_grid(text));
    let freq = if f > 0 { mhz_string(f) } else { String::new() };
    let snr = match &e.snr_text {
        Some(t) => t.clone(),
        None => String::new(),
    };
    let mode = to_uppercase(e.mode.as_str());
    let comment = trimmed(text);
    let mut rec = adif_field("QSO_DATE", date.as_str());
    rec.append(adif_field("TIME_ON", time.as_str()).as_str());
    rec.append(adif_field("CALL", call.as_str()).as_str());
    rec.append(adif_field("GRIDSQUARE", grid.as_str()).as_str());
    rec.append(adif_field("MODE", mode.as_str()).as_str());
    rec.append(adif_field("FREQ", freq.as_str()).as_str());
    rec.append(adif_field("BAND", adif_band(f)).as_str());
    let snr_chars = chars_of(snr.as_str());
    if snr_chars.len() > 0 {
        rec.append(adif_field("APP_HAMHAWK_SNR", snr.as_str()).as_str());
    }
    rec.append(adif_field("COMMENT", comment.as_str()).as_str());
    rec.append("<EOR>\n");
    rec
}

/// The ADIF logbook of the given rows: the header, then one record per row,
/// in order.
pub fn export_adif(rows: &[LogEntry], meta: &[StationMeta]) -> (r: String)
    ensures
        r@ == adif_header() + adif_records(rows@, meta@),
{
    let mut out = String::from_str(
        "ADIF export from HamHawk — received/decoded traffic (monitoring log, not 2-way QSOs).\n<ADIF_VER:5>3.1.4<PROGRAMID:7>HamHawk<EOH>\n",
    );
    let mut i: usize = 0;
    while i < rows.len()
        invariant
            i <= rows@.len(),
            out@ == adif_header() + adif_records(rows@.take(i as int), meta@),
        decreases rows@.len() - i,
    {
        let rec = adif_entry(&rows[i], meta);
        out.append(rec.as_str());
        i += 1;
        proof {
            let t = rows@.take(i as int);
            assert(t.drop_last() == rows@.take(i - 1));
            assert(t.last() == rows@[i - 1]);
        }
    }
    assert(rows@.take(rows@.len() as int) == rows@);
    out
}

pub open spec fn csv_header() -> Seq<char> {
    "timestamp_utc,station,freq_mhz,mode,lane,snr_db,callsign,grid,text\n"@
}

/// One CSV line: UTC time, station (label, else the receiver id), frequency
/// in MHz, mode, lane, SNR, callsign, grid and text, each field escaped.
pub open spec fn csv_record(e: LogEntry, meta: Seq<StationMeta>) -> Seq<char> {
    let k = meta_index(meta, e.receiver_id@);
    let f: nat = if k < 0 { 0 } else { meta[k].freq_hz as nat };
    let station = if k < 0 { e.receiver_id@ } else { meta[k].label@ };
    let text = e.text_en@;
    csv_field(utc_time_text(e.ts_start as int, "%Y-%m-%d %H:%M:%S"@)) + seq![',']
        + csv_field(station) + seq![',']
        + csv_field(if f > 0 { mhz_text(f) } else { Seq::empty() }) + seq![',']
        + csv_field(e.mode@) + seq![',']
        + csv_field(lane_name(e.lane)) + seq![',']
        + csv_field(snr_of(e)) + seq![',']
        + csv_field(opt_text(callsign_in(text))) + seq![',']
        + csv_field(opt_text(grid_in(text))) + seq![',']
        + csv_field(trim(text)) + seq!['\n']
}

pub open spec fn csv_records(rows: Seq<LogEntry>, meta: Seq<StationMeta>) -> Seq<char>
    decreases rows.len(),
{
    if rows.len() == 0 {
        Seq::empty()
    } else {
        csv_records(rows.drop_last(), meta) + csv_record(rows.last(), meta)
    }
}

fn push_csv(out: &mut String, field: &str, sep: char)
    ensures
        final(out)@ == old(out)@ + csv_field(field@) + seq![sep],
{
    let e = csv_escape(field);
    out.append(e.as_str());
    out.push(sep);
}

fn csv_entry(e: &LogEntry, meta: &[StationMeta]) -> (r: String)
    ensures
        r@ == csv_record(*e, meta@),
{
    proof {
        lemma_meta_index(meta@, e.receiver_id@);
    }
    let (f, station): (u64, String) = match find_meta(meta, e.receiver_id.as_str()) {
        Some(k) => (meta[k].freq_hz, meta[k].label.clone()),
        None => (0, e.receiver_id.clone()),
    };
    let text = e.text_en.as_str();
    let when = format_utc(e.ts_start, "%Y-%m-%d %H:%M:%S");
    let freq = if f > 0 { mhz_string(f) } else { String::new() };
    let snr = match &e.snr_text {
        Some(t) => t.clone(),
        None => String::new(),
    };
    let call = opt_string(find_callsign(text));
    let grid = opt_string(find_grid(text));
    let body = trimmed(text);
    let mut out = String::new();
    push_csv(&mut out, when.as_str(), ',');
    push_csv(&mut out, station.as_str(), ',');
    push_csv(&mut out, freq.as_str(), ',');
    push_csv(&mut out, e.mode.as_str(), ',');
    push_csv(&mut out, crate::model::lane_str(&e.lane), ',');
    push_csv(&mut out, snr.as_str(), ',');
    push_csv(&mut out, call.as_str(), ',');
    push_csv(&mut out, grid.as_str(), ',');
    push_csv(&mut out, body.as_str(), '\n');
    assert(out@ =~= csv_record(*e, meta@));
    out
}

/// The CSV logbook of the given rows: the header, then one line per row, in
/// order.
pub fn export_csv(rows: &[LogEntry], meta: &[StationMeta]) -> (r: String)
    ensures
        r@ == csv_header() + csv_records(rows@, meta@),
{
    let mut out = String::from_str("timestamp_utc,station,freq_mhz,mode,lane,snr_db,callsign,grid,text\n");
    let mut i: usize = 0;
    while i < rows.len()
        invariant
            i <= rows@.len(),
            out@ == csv_header() + csv_records(rows@.take(i as int), meta@),
        decreases rows@.len() - i,
    {
        let rec = csv_entry(&rows[i], meta);
        out.append(rec.as_str());
        i += 1;
        proof {
            let t = rows@.take(i as int);
            assert(t.drop_last() == rows@.take(i - 1));
            assert(t.last() == rows@[i - 1]);
        }
    }
    assert(rows@.take(rows@.len() as int) == rows@);
    out
}

// ---- which rows, in which order ----

pub open spec fn row_kept(e: LogEntry, digital_only: bool) -> bool {
    !digital_only || e.lane == Lane::Digital
}

/// The rows that go into the log: all of them, or only the digital lane
/// (the rows that carry callsigns and grids).
pub open spec fn kept_rows(s: Seq<LogEntry>, digital_only: bool) -> Seq<LogEntry>
    decreases s.len(),
{
    if s.len() == 0 {
        Seq::empty()
    } else if row_kept(s[0], digital_only) {
        seq![s[0]] + kept_rows(s.drop_first(), digital_only)
    } else {
        kept_rows(s.drop_first(), digital_only)
    }
}

/// Where a row with start time `t` goes in a list sorted by start time: before
/// the first row that starts at `t` or later.
pub open spec fn insert_pos(s: Seq<LogEntry>, t: i64) -> int
    decreases s.len(),
{
    if s.len() == 0 {
        0
    } else if s[0].ts_start >= t {
        0
    } else {
        1 + insert_pos(s.drop_first(), t)
    }
}

/// Rows sorted by start time, rows with equal start times keeping their
/// order (a stable sort).
pub open spec fn sorted_by_start(s: Seq<LogEntry>) -> Seq<LogEntry>
    decreases s.len(),
{
    if s.len() == 0 {
        Seq::empty()
    } else {
        let rest = sorted_by_start(s.drop_first());
        rest.insert(insert_pos(rest, s[0].ts_start), s[0])
    }
}

pub proof fn lemma_insert_pos(s: Seq<LogEntry>, t: i64)
    ensures
        0 <= insert_pos(s, t) <= s.len(),
        forall|m: int| 0 <= m < insert_pos(s, t) ==> s[m].ts_start < t,
        insert_pos(s, t) < s.len() ==> s[insert_pos(s, t)].ts_start >= t,
    decreases s.len(),
{
    if s.len() > 0 && s[0].ts_start < t {
        lemma_insert_pos(s.drop_first(), t);
        assert forall|m: int| 0 <= m < insert_pos(s, t) implies s[m].ts_start < t by {
            if m > 0 {
                assert(s[m] == s.drop_first()[m - 1]);
            }
        }
    }
}

pub proof fn lemma_sorted_len(s: Seq<LogEntry>)
    ensures
        sorted_by_start(s).len() == s.len(),
    decreases s.len(),
{
    if s.len() > 0 {
        lemma_sorted_len(s.drop_first());
        lemma_insert_pos(sorted_by_start(s.drop_first()), s[0].ts_start);
    }
}

/// The log's order is sorted by start time.
pub proof fn lemma_log_order_sorted(s: Seq<LogEntry>)
    ensures
        forall|i: int, j: int| 0 <= i < j < sorted_by_start(s).len()
            ==> sorted_by_start(s)[i].ts_start <= sorted_by_start(s)[j].ts_start,
    decreases s.len(),
{
    if s.len() > 0 {
        let rest = sorted_by_start(s.drop_first());
        lemma_log_order_sorted(s.drop_first());
        let t = s[0].ts_start;
        let k = insert_pos(rest, t);
        lemma_insert_pos(rest, t);
        let r = rest.insert(k, s[0]);
        assert forall|i: int, j: int| 0 <= i < j < r.len() implies r[i].ts_start <= r[j].ts_start by {
            if j < k {
                assert(r[i] == rest[i] && r[j] == rest[j]);
            } else if j == k {
                assert(r[i] == rest[i]);
            } else if i < k {
                assert(r[i] == rest[i] && r[j] == rest[j - 1]);
                assert(rest[k].ts_start >= t);
                assert(rest[i].ts_start <= rest[j - 1].ts_start);
            } else if i == k {
                assert(r[j] == rest[j - 1]);
                assert(rest[k].ts_start >= t);
                if j - 1 > k {
                    assert(rest[k].ts_start <= rest[j - 1].ts_start);
                }
            } else {
                assert(r[i] == rest[i - 1] && r[j] == rest[j - 1]);
            }
        }
    }
}

/// The log's order holds the same rows, each as often.
pub proof fn lemma_log_order_permutation(s: Seq<LogEntry>)
    ensures
        sorted_by_start(s).to_multiset() == s.to_multiset(),
    decreases s.len(),
{
    broadcast use vstd::seq_lib::group_to_multiset_ensures;
    if s.len() > 0 {
        let rest = sorted_by_start(s.drop_first());
        lemma_log_order_permutation(s.drop_first());
        lemma_insert_pos(rest, s[0].ts_start);
        let k = insert_pos(rest, s[0].ts_start);
        vstd::seq_lib::lemma_seq_union_to_multiset_commutative(rest.subrange(0, k), seq![s[0]]);
        assert(rest.insert(k, s[0]) == rest.subrange(0, k) + seq![s[0]] + rest.subrange(k, rest.len() as int));
        assert(rest == rest.subrange(0, k) + rest.subrange(k, rest.len() as int));
        vstd::seq_lib::lemma_multiset_commutative(rest.subrange(0, k) + seq![s[0]], rest.subrange(k, rest.len() as int));
        vstd::seq_lib::lemma_multiset_commutative(rest.subrange(0, k), seq![s[0]]);
        vstd::seq_lib::lemma_multiset_commutative(rest.subrange(0, k), rest.subrange(k, rest.len() as int));
        vstd::seq_lib::lemma_multiset_commutative(seq![s[0]], s.drop_first());
        assert(s == seq![s[0]] + s.drop_first());
    }
}

/// The rows of the log, in log order: the kept rows, stably sorted by start
/// time (chronological, as a logbook reads).
pub fn log_rows(rows: Vec<LogEntry>, digital_only: bool) -> (r: Vec<LogEntry>)
    ensures
        r@ == sorted_by_start(kept_rows(rows@, digital_only)),
{
    let ghost s = rows@;
    let mut rows = rows;
    let mut out: Vec<LogEntry> = Vec::new();
    assert(s.subrange(s.len() as int, s.len() as int) == Seq::<LogEntry>::empty());
    while rows.len() > 0
        invariant
            rows@ == s.subrange(0, rows@.len() as int),
            rows@.len() <= s.len(),
            out@ == sorted_by_start(kept_rows(s.subrange(rows@.len() as int, s.len() as int), digital_only)),
        decreases rows@.len(),
    {
        let ghost i = rows@.len() as int;
        let x = rows.pop().unwrap();
        proof {
            let tail = s.subrange(i - 1, s.len() as int);
            assert(tail[0] == x);
            assert(tail.drop_first() == s.subrange(i, s.len() as int));
            assert(rows@ == s.subrange(0, i - 1));
        }
        let keep = !digital_only || matches!(x.lane, Lane::Digital);
        if keep {
            let ghost rest = out@;
            let mut k: usize = 0;
            assert(rest.subrange(0, rest.len() as int) == rest);
            while k < out.len() && out[k].ts_start < x.ts_start
                invariant
                    out@ == rest,
                    k <= rest.len(),
                    insert_pos(rest, x.ts_start) == k + insert_pos(rest.subrange(k as int, rest.len() as int), x.ts_start),
                decreases rest.len() - k,
            {
                proof {
                    let t = rest.subrange(k as int, rest.len() as int);
                    assert(t.drop_first() == rest.subrange(k + 1, rest.len() as int));
                }
                k += 1;
            }
            proof {
                assert(rest.subrange(0, rest.len() as int) == rest);
                lemma_insert_pos(rest.subrange(k as int, rest.len() as int), x.ts_start);
            }
            out.insert(k, x);
            proof {
                let tail = s.subrange(i - 1, s.len() as int);
                assert(kept_rows(tail, digital_only) == seq![tail[0]] + kept_rows(tail.drop_first(), digital_only));
                assert((seq![tail[0]] + kept_rows(tail.drop_first(), digital_only)).drop_first()
                    == kept_rows(tail.drop_first(), digital_only));
            }
        }
    }
    assert(s.subrange(0, s.len() as int) == s);
    out
}

/// The file name of a log export: `hamhawk-log-<stamp>.<ext>`.
pub fn log_file_name(stamp: &str, ext: &str) -> (r: String)
    ensures
        r@ == "hamhawk-log-"@ + stamp@ + seq!['.'] + ext@,
{
    let mut r = String::from_str("hamhawk-log-");
    r.append(stamp);
    r.push('.');
    r.append(ext);
    r
}

} // verus!
