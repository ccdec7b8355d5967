//! What the audio tap does with each frame of a receiver besides passing it
//! on: the monitored-audio payload, the recording file's name and the
//! recording's open/write/close steps.

use vstd::prelude::*;
use vstd::string::*;
use crate::logbook::is_ascii_alnum;
use crate::model::AudioChunk;
use crate::text::{chars_of, string_of};

verus! {

/// The two little-endian bytes of a 16-bit sample.
pub open spec fn le_bytes(s: i16) -> Seq<u8> {
    let u: int = if s < 0 { s + 65536 } else { s as int };
    seq![(u % 256) as u8, (u / 256) as u8]
}

/// The samples as little-endian 16-bit PCM bytes.
pub open spec fn pcm_bytes(samples: Seq<i16>) -> Seq<u8>
    decreases samples.len(),
{
    if samples.len() == 0 {
        Seq::empty()
    } else {
        pcm_bytes(samples.drop_last()) + le_bytes(samples.last())
    }
}

pub fn pcm_le_bytes(samples: &[i16]) -> (r: Vec<u8>)
    ensures
        r@ == pcm_bytes(samples@),
        r@.len() == 2 * samples@.len(),
{
    let mut r: Vec<u8> = Vec::new();
    let mut i: usize = 0;
    while i < samples.len()
        invariant
            i <= samples@.len(),
            r@ == pcm_bytes(samples@.take(i as int)),
            r@.len() == 2 * i,
        decreases samples@.len() - i,
    {
        let s = samples[i];
        let u: u32 = if s < 0 { (s as i32 + 65536) as u32 } else { s as u32 };
        r.push((u % 256) as u8);
        r.push((u / 256) as u8);
        i += 1;
        proof {
            let t = samples@.take(i as int);
            assert(t.drop_last() == samples@.take(i - 1));
            assert(t.last() == s);
            assert(r@ =~= pcm_bytes(samples@.take(i - 1)) + le_bytes(s));
        }
    }
    assert(samples@.take(samples@.len() as int) == samples@);
    r
}

/// The character of a 6-bit value in the standard base64 alphabet:
/// `A`-`Z`, `a`-`z`, `0`-`9`, `+`, `/`.
pub open spec fn b64_char(v: int) -> char {
    if v < 26 {
        (65 + v) as char
    } else if v < 52 {
        (97 + v - 26) as char
    } else if v < 62 {
        (48 + v - 52) as char
    } else if v == 62 {
        '+'
    } else {
        '/'
    }
}

/// Standard base64 with `=` padding: each group of three bytes, read as a
/// 24-bit number, becomes four characters of six bits each; a last group of
/// one or two bytes is padded with zero bits and ends in `==` or `=`.
pub open spec fn base64_standard(b: Seq<u8>) -> Seq<char>
    decreases b.len(),
{
    if b.len() == 0 {
        Seq::empty()
    } else if b.len() == 1 {
        let n = b[0] as int;
        seq![b64_char(n / 4), b64_char((n % 4) * 16), '=', '=']
    } else if b.len() == 2 {
        let n = b[0] as int * 256 + b[1] as int;
        seq![b64_char(n / 1024), b64_char((n / 16) % 64), b64_char((n % 16) * 4), '=']
    } else {
        let n = b[0] as int * 65536 + b[1] as int * 256 + b[2] as int;
        seq![b64_char(n / 262144), b64_char((n / 4096) % 64), b64_char((n / 64) % 64), b64_char(n % 64)]
            + base64_standard(b.skip(3))
    }
}

/// Trusted: calls `base64::Engine::encode` on the `STANDARD` engine, which
/// writes standard base64 with padding (`base64_standard`).
#[verifier::external_body]
fn base64_encode(bytes: &[u8]) -> (r: String)
    ensures
        r@ == base64_standard(bytes@),
{
    base64::Engine::encode(&base64::engine::general_purpose::STANDARD, bytes)
}

/// A chunk of monitored audio for the UI: the samples as base64 of
/// little-endian 16-bit PCM.
pub fn audio_chunk(receiver_id: &str, sample_rate: u32, samples: &[i16]) -> (c: AudioChunk)
    ensures
        c.receiver_id@ == receiver_id@,
        c.sample_rate == sample_rate,
        c.pcm_b64@ == base64_standard(pcm_bytes(samples@)),
{
    let bytes = pcm_le_bytes(samples);
    let pcm_b64 = base64_encode(&bytes);
    AudioChunk { receiver_id: String::from_str(receiver_id), sample_rate, pcm_b64 }
}

// ---- recording ----

/// What to do with the recording file for one frame.
#[derive(Clone, Copy, Debug, PartialEq, Eq, Structural)]
pub enum RecordStep {
    /// Recording is wanted and no file is open: open one, then write.
    Open,
    /// Recording is wanted and the file is open: write the frame.
    Write,
    /// Recording is no longer wanted: finalize the file.
    Close,
    /// Nothing to do.
    Idle,
}

pub fn record_step(wanted: bool, open: bool) -> (r: RecordStep)
    ensures
        r == if wanted {
            if open { RecordStep::Write } else { RecordStep::Open }
        } else if open {
            RecordStep::Close
        } else {
            RecordStep::Idle
        },
{
    if wanted {
        if open { RecordStep::Write } else { RecordStep::Open }
    } else if open {
        RecordStep::Close
    } else {
        RecordStep::Idle
    }
}

/// A character kept in a file name: ASCII letters and digits, '-' and '.'.
pub open spec fn name_char(c: char) -> char {
    if is_ascii_alnum(c) || c == '-' || c == '.' { c } else { '_' }
}

pub open spec fn trim_underscores_start(t: Seq<char>) -> Seq<char>
    decreases t.len(),
{
    if t.len() > 0 && t[0] == '_' { trim_underscores_start(t.drop_first()) } else { t }
}

pub open spec fn trim_underscores_end(t: Seq<char>) -> Seq<char>
    decreases t.len(),
{
    if t.len() > 0 && t.last() == '_' { trim_underscores_end(t.drop_last()) } else { t }
}

/// A safe file-name stem for a recording: unsafe characters become '_',
/// outer '_' are dropped, an empty result becomes "rx", and at most 48
/// characters are kept.
pub open spec fn file_stem(name: Seq<char>) -> Seq<char> {
    let t = trim_underscores_end(trim_underscores_start(name.map_values(|c: char| name_char(c))));
    let u = if t.len() == 0 { "rx"@ } else { t };
    if u.len() > 48 { u.take(48) } else { u }
}

pub fn sanitize_name(name: &str) -> (r: String)
    ensures
        r@ == file_stem(name@),
{
    let v = chars_of(name);
    let mut m: Vec<char> = Vec::new();
    let mut i: usize = 0;
    while i < v.len()
        invariant
            i <= v@.len(),
            m@ == v@.take(i as int).map_values(|c: char| name_char(c)),
        decreases v@.len() - i,
    {
        let c = v[i];
        let keep = ('a' <= c && c <= 'z') || ('A' <= c && c <= 'Z') || ('0' <= c && c <= '9') || c == '-' || c == '.';
        m.push(if keep { c } else { '_' });
        i += 1;
        assert(v@.take(i as int).map_values(|c: char| name_char(c))
            =~= v@.take(i - 1).map_values(|c: char| name_char(c)).push(name_char(c)));
    }
    assert(v@.take(v@.len() as int) == v@);
    let n = m.len();
    let mut a: usize = 0;
    assert(m@.subrange(0, n as int) == m@);
    while a < n && m[a] == '_'
        invariant
            n == m@.len(),
            a <= n,
            trim_underscores_start(m@) == trim_underscores_start(m@.subrange(a as int, n as int)),
        decreases n - a,
    {
        proof {
            let t = m@.subrange(a as int, n as int);
            assert(t.drop_first() == m@.subrange(a + 1, n as int));
        }
        a += 1;
    }
    let ghost t0 = m@.subrange(a as int, n as int);
    let mut b: usize = n;
    while b > a && m[b - 1] == '_'
        invariant
            n == m@.len(),
            a <= b <= n,
            t0 == m@.subrange(a as int, n as int),
            trim_underscores_end(t0) == trim_underscores_end(m@.subrange(a as int, b as int)),
        decreases b,
    {
        proof {
            let u = m@.subrange(a as int, b as int);
            assert(u.drop_last() == m@.subrange(a as int, b - 1));
            assert(u.last() == m@[b - 1]);
        }
        b -= 1;
    }
    proof {
        let u = m@.subrange(a as int, b as int);
        if u.len() > 0 {
            assert(u.last() == m@[b - 1]);
        }
    }
    if a == b {
        proof {
            reveal_strlit("rx");
        }
        return String::from_str("rx");
    }
    let end = if b - a > 48 { a + 48 } else { b };
    let mut out: Vec<char> = Vec::new();
    let mut k: usize = a;
    while k < end
        invariant
            a <= k <= end <= b <= n,
            n == m@.len(),
            out@ == m@.subrange(a as int, k as int),
        decreases end - k,
    {
        out.push(m[k]);
        k += 1;
        assert(m@.subrange(a as int, k as int) == m@.subrange(a as int, k - 1).push(m@[k - 1]));
    }
    assert(m@.subrange(a as int, b as int).take(48) == m@.subrange(a as int, a + 48) || b - a <= 48);
    string_of(&out)
}

/// Whether `d[i..]` starts a `..` path component.
pub open spec fn parent_at(d: Seq<char>, i: int) -> bool {
    &&& 0 <= i
    &&& i + 2 <= d.len()
    &&& (i == 0 || d[i - 1] == '/')
    &&& d[i] == '.'
    &&& d[i + 1] == '.'
    &&& (i + 2 == d.len() || d[i + 2] == '/')
}

/// A folder recordings may be written to: an absolute path with no `..`
/// component, so that a tampered setting cannot lead elsewhere.
pub open spec fn safe_dir(d: Seq<char>) -> bool {
    d.len() > 0 && d[0] == '/' && !(exists|i: int| parent_at(d, i))
}

pub fn is_safe_recording_dir(dir: &str) -> (r: bool)
    ensures
        r == safe_dir(dir@),
{
    let d = chars_of(dir);
    if d.len() == 0 || d[0] != '/' {
        return false;
    }
    let n = d.len();
    let mut i: usize = 0;
    while i < n
        invariant
            d@ == dir@,
            n == d@.len(),
            i <= n,
            forall|j: int| 0 <= j < i ==> !parent_at(d@, j),
        decreases n - i,
    {
        if n - i >= 2 && (i == 0 || d[i - 1] == '/') && d[i] == '.' && d[i + 1] == '.' && (i + 2 == n || d[i + 2] == '/') {
            assert(parent_at(d@, i as int));
            return false;
        }
        i += 1;
    }
    true
}

/// The file name of a recording: the safe stem of the receiver's name, a
/// dash, the time stamp it was started at, and `.wav`.
pub fn recording_file_name(name: &str, stamp: &str) -> (r: String)
    ensures
        r@ == file_stem(name@) + seq!['-'] + stamp@ + ".wav"@,
{
    let mut r = sanitize_name(name);
    r.push('-');
    r.append(stamp);
    r.append(".wav");
    r
}

} // verus!
