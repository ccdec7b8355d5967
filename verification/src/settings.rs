//! Settings as stored in the key/value table, and the small decisions of the
//! session manager: reconnect backoff, the cap on running receivers, the ASR
//! worker count, which decoder a mode gets, which file type a log export is.

use vstd::prelude::*;
use vstd::string::*;
use crate::model::Settings;
use crate::text::{
    chars_of, decimal, digit_char, is_ws, lower_chars, ascii_lower_seq, same_chars, str_is,
    string_of, trim, trim_chars, u64_decimal,
};

verus! {

// ---- reconnect backoff ----

/// The first reconnect delay, in seconds.
pub const INITIAL_BACKOFF_SECS: u64 = 1;
/// The longest reconnect delay, in seconds.
pub const MAX_BACKOFF_SECS: u64 = 30;

/// The next reconnect delay: double, at most 30 s.
pub fn next_backoff(secs: u64) -> (r: u64)
    requires
        secs <= u64::MAX / 2,
    ensures
        r == if 2 * secs < 30 { 2 * secs } else { 30 },
{
    let d = secs * 2;
    if d < MAX_BACKOFF_SECS { d } else { MAX_BACKOFF_SECS }
}

/// The delay before the `n`-th reconnect attempt (counting from 0).
pub open spec fn backoff_after(n: nat) -> int
    decreases n,
{
    if n == 0 {
        INITIAL_BACKOFF_SECS as int
    } else {
        let p = backoff_after((n - 1) as nat);
        if 2 * p < 30 { 2 * p } else { 30 }
    }
}

/// Reconnect delays run 1, 2, 4, 8, 16 s and then stay at 30 s: they never
/// exceed 30 s and never shrink.
pub proof fn lemma_backoff_bounded(n: nat)
    ensures
        1 <= backoff_after(n) <= 30,
        backoff_after(n) <= backoff_after(n + 1),
        n >= 5 ==> backoff_after(n) == 30,
    decreases n,
{
    if n > 0 {
        lemma_backoff_bounded((n - 1) as nat);
    }
    if n == 5 {
        assert(backoff_after(0) == 1);
        assert(backoff_after(1) == 2);
        assert(backoff_after(2) == 4);
        assert(backoff_after(3) == 8);
        assert(backoff_after(4) == 16);
        assert(backoff_after(5) == 30);
    }
}

// ---- sessions and workers ----

/// How many receivers may run at once (bounds connections and DSP load).
pub const MAX_SESSIONS: usize = 8;

/// Whether a receiver may be started: restarting a running one always may,
/// a new one only below the cap.
pub fn may_start(already_running: bool, running: usize) -> (r: bool)
    ensures
        r == (already_running || running < MAX_SESSIONS),
{
    already_running || running < MAX_SESSIONS
}

/// The ASR worker count actually used: the setting, kept within 1..=8.
pub fn clamp_workers(n: u32) -> (r: u32)
    ensures
        r == if n < 1 { 1 } else if n > 8 { 8 } else { n },
{
    if n < 1 { 1 } else if n > 8 { 8 } else { n }
}

/// The in-app decoder that a digital mode gets.
#[derive(Clone, Copy, Debug, PartialEq, Eq, Structural)]
pub enum DecoderKind {
    Ft8,
    Ft4,
    Cw,
    Psk31,
    Rtty,
}

/// FT8, FT4, PSK31 and RTTY by name; CW for "cw" and for any other mode.
pub open spec fn decoder_for(mode: Seq<char>) -> DecoderKind {
    if mode == "ft8"@ {
        DecoderKind::Ft8
    } else if mode == "ft4"@ {
        DecoderKind::Ft4
    } else if mode == "psk31"@ {
        DecoderKind::Psk31
    } else if mode == "rtty"@ {
        DecoderKind::Rtty
    } else {
        DecoderKind::Cw
    }
}

pub fn decoder_kind(mode: &str) -> (r: DecoderKind)
    ensures
        r == decoder_for(mode@),
{
    if str_is(mode, "ft8") {
        DecoderKind::Ft8
    } else if str_is(mode, "ft4") {
        DecoderKind::Ft4
    } else if str_is(mode, "psk31") {
        DecoderKind::Psk31
    } else if str_is(mode, "rtty") {
        DecoderKind::Rtty
    } else {
        DecoderKind::Cw
    }
}

/// The file extension of a log export: ADIF ("adi") when the format is
/// "adif" or "adi" in any ASCII case, CSV otherwise.
pub open spec fn log_extension_of(format: Seq<char>) -> Seq<char> {
    if ascii_lower_seq(format) == "adif"@ || ascii_lower_seq(format) == "adi"@ { "adi"@ } else { "csv"@ }
}

pub fn log_extension(format: &str) -> (r: &'static str)
    ensures
        r@ == log_extension_of(format@),
{
    let v = chars_of(format);
    let lower = lower_chars(&v);
    let l = string_of(&lower);
    if str_is(l.as_str(), "adif") || str_is(l.as_str(), "adi") { "adi" } else { "csv" }
}

// ---- settings ----

/// Setting keys.
pub open spec fn worker_count_key() -> Seq<char> { "asr_worker_count"@ }
pub open spec fn model_path_key() -> Seq<char> { "whisper_model_path"@ }
pub open spec fn recording_dir_key() -> Seq<char> { "recording_dir"@ }

/// The worker count used when none is stored or the stored one is not a number.
pub const DEFAULT_WORKERS: u32 = 2;

pub open spec fn is_digit_char(c: char) -> bool {
    '0' <= c <= '9'
}

/// The value of a run of decimal digits.
pub open spec fn digits_value(d: Seq<char>) -> nat
    decreases d.len(),
{
    if d.len() == 0 {
        0
    } else {
        digits_value(d.drop_last()) * 10 + ((d.last() as u32) - 48) as nat
    }
}

pub open spec fn all_digits(d: Seq<char>) -> bool {
    forall|i: int| 0 <= i < d.len() ==> is_digit_char(#[trigger] d[i])
}

/// `u32::from_str`: an optional '+' and then one or more decimal digits, of
/// value at most `u32::MAX`; anything else (signs, spaces, overflow) fails.
pub open spec fn parse_u32_spec(s: Seq<char>) -> Option<u32> {
    let body = if s.len() > 0 && s[0] == '+' { s.drop_first() } else { s };
    if body.len() == 0 || !all_digits(body) || digits_value(body) > u32::MAX as nat {
        None
    } else {
        Some(digits_value(body) as u32)
    }
}

pub fn parse_u32(s: &str) -> (r: Option<u32>)
    ensures
        r == parse_u32_spec(s@),
{
    let v = chars_of(s);
    let start: usize = if v.len() > 0 && v[0] == '+' { 1 } else { 0 };
    let ghost body = if s@.len() > 0 && s@[0] == '+' { s@.drop_first() } else { s@ };
    assert(body == v@.subrange(start as int, v@.len() as int));
    if start == v.len() {
        return None;
    }
    let mut acc: u64 = 0;
    let mut i: usize = start;
    while i < v.len()
        invariant
            start <= i <= v@.len(),
            v@ == s@,
            body == (if s@.len() > 0 && s@[0] == '+' { s@.drop_first() } else { s@ }),
            body == v@.subrange(start as int, v@.len() as int),
            all_digits(v@.subrange(start as int, i as int)),
            acc as nat == digits_value(v@.subrange(start as int, i as int)),
            acc <= u32::MAX,
        decreases v@.len() - i,
    {
        let c = v[i];
        let ghost pre = v@.subrange(start as int, i as int);
        let ghost post = v@.subrange(start as int, i + 1);
        assert(post.drop_last() == pre);
        assert(post.last() == c);
        if !('0' <= c && c <= '9') {
            assert(!all_digits(body)) by {
                assert(body[i - start] == c);
            }
            return None;
        }
        let d = (c as u32 - 48) as u64;
        acc = acc * 10 + d;
        if acc > 4294967295 {
            proof {
                if all_digits(body) {
                    lemma_digits_value_prefix(body, (i + 1 - start) as int);
                    assert(body.subrange(0, (i + 1 - start) as int) == post);
                }
            }
            return None;
        }
        i += 1;
        assert(all_digits(post)) by {
            assert forall|j: int| 0 <= j < post.len() implies is_digit_char(#[trigger] post[j]) by {
                if j < pre.len() {
                    assert(post[j] == pre[j]);
                }
            }
        }
    }
    Some(acc as u32)
}

/// A longer run of digits is worth at least as much as its prefix.
proof fn lemma_digits_value_prefix(d: Seq<char>, k: int)
    requires
        0 <= k <= d.len(),
        all_digits(d),
    ensures
        digits_value(d.subrange(0, k)) <= digits_value(d),
    decreases d.len() - k,
{
    if k < d.len() {
        lemma_digits_value_prefix(d, k + 1);
        let a = d.subrange(0, k + 1);
        assert(a.drop_last() == d.subrange(0, k));
        assert(is_digit_char(d[k]));
        assert(a.last() == d[k]);
    } else {
        assert(d.subrange(0, k) == d);
    }
}

/// A stored value that is empty or only whitespace reads back as unset.
pub open spec fn nonblank(s: Option<Seq<char>>) -> Option<Seq<char>> {
    match s {
        Some(t) => if trim(t).len() == 0 { None } else { Some(t) },
        None => None,
    }
}

pub fn nonblank_setting(s: Option<String>) -> (r: Option<String>)
    ensures
        match s {
            Some(t) => match r {
                Some(u) => nonblank(Some(t@)) == Some(u@),
                None => nonblank(Some(t@)) is None,
            },
            None => r is None,
        },
{
    match s {
        Some(t) => {
            let v = chars_of(t.as_str());
            let tr = trim_chars(&v);
            if tr.len() == 0 { None } else { Some(t) }
        },
        None => None,
    }
}

/// The settings as read back from the stored values of their three keys.
pub open spec fn settings_read(count: Option<Seq<char>>, model: Option<Seq<char>>, rec: Option<Seq<char>>) -> (u32, Option<Seq<char>>, Option<Seq<char>>) {
    let n = match count {
        Some(c) => match parse_u32_spec(c) {
            Some(v) => v,
            None => DEFAULT_WORKERS,
        },
        None => DEFAULT_WORKERS,
    };
    (n, nonblank(model), nonblank(rec))
}

pub open spec fn opt_view(o: Option<String>) -> Option<Seq<char>> {
    match o {
        Some(t) => Some(t@),
        None => None,
    }
}

/// Read the settings from the stored values of their three keys.
pub fn settings_from_stored(count: Option<String>, model: Option<String>, rec: Option<String>) -> (s: Settings)
    ensures
        (s.asr_worker_count, opt_view(s.whisper_model_path), opt_view(s.recording_dir))
            == settings_read(opt_view(count), opt_view(model), opt_view(rec)),
{
    let n = match &count {
        Some(c) => match parse_u32(c.as_str()) {
            Some(v) => v,
            None => DEFAULT_WORKERS,
        },
        None => DEFAULT_WORKERS,
    };
    let m = nonblank_setting(model);
    let r = nonblank_setting(rec);
    Settings { asr_worker_count: n, whisper_model_path: m, recording_dir: r }
}

/// The stored value written for an optional setting: the text, or empty to
/// clear it.
pub open spec fn stored_text(o: Option<Seq<char>>) -> Seq<char> {
    match o {
        Some(t) => t,
        None => Seq::empty(),
    }
}

/// The values written for the settings, in key order: worker count,
/// model path, recording folder. Both paths are always written (empty when
/// unset) so that clearing a field persists.
pub fn settings_values(s: &Settings) -> (r: (String, String, String))
    ensures
        r.0@ == decimal(s.asr_worker_count as nat),
        r.1@ == stored_text(opt_view(s.whisper_model_path)),
        r.2@ == stored_text(opt_view(s.recording_dir)),
{
    let n = u64_decimal(s.asr_worker_count as u64);
    let m = match &s.whisper_model_path {
        Some(p) => p.clone(),
        None => String::new(),
    };
    let d = match &s.recording_dir {
        Some(p) => p.clone(),
        None => String::new(),
    };
    (string_of(&n), m, d)
}

/// The recordings folder in use: the configured one unless it is blank,
/// else the default.
pub fn effective_recordings_dir(stored: Option<String>, default: String) -> (r: String)
    ensures
        r@ == match nonblank(opt_view(stored)) {
            Some(d) => d,
            None => default@,
        },
{
    match nonblank_setting(stored) {
        Some(d) => d,
        None => default,
    }
}

/// Where the Whisper model comes from: the configured file when it exists,
/// else the default file when it exists, else nowhere.
pub fn model_status_of(custom: Option<String>, custom_exists: bool, default_path: String, default_exists: bool) -> (m: crate::model::ModelStatus)
    ensures
        custom is Some && custom_exists ==> m.present && opt_view(m.path) == opt_view(custom) && m.source@ == "custom"@,
        !(custom is Some && custom_exists) && default_exists ==> m.present && opt_view(m.path) == Some(default_path@)
            && m.source@ == "default"@,
        !(custom is Some && custom_exists) && !default_exists ==> !m.present && m.path is None && m.source@ == "none"@,
        m.default_path@ == default_path@,
{
    let use_custom = custom.is_some() && custom_exists;
    if use_custom {
        crate::model::ModelStatus {
            present: true,
            path: custom,
            source: String::from_str("custom"),
            default_path,
        }
    } else if default_exists {
        let p = default_path.clone();
        crate::model::ModelStatus {
            present: true,
            path: Some(p),
            source: String::from_str("default"),
            default_path,
        }
    } else {
        crate::model::ModelStatus { present: false, path: None, source: String::from_str("none"), default_path }
    }
}

// ---- laws ----

proof fn lemma_decimal_digits(n: nat)
    ensures
        decimal(n).len() > 0,
        all_digits(decimal(n)),
        digits_value(decimal(n)) == n,
    decreases n,
{
    if n >= 10 {
        lemma_decimal_digits(n / 10);
        let d = decimal(n / 10).push(digit_char((n % 10) as int));
        assert(d == decimal(n));
        assert(d.drop_last() == decimal(n / 10));
        assert(d.last() == digit_char((n % 10) as int));
        assert(((d.last() as u32) - 48) as nat == n % 10);
        assert(digits_value(d) == digits_value(decimal(n / 10)) * 10 + n % 10);
        assert(digits_value(decimal(n / 10)) == n / 10);
        assert((n / 10) * 10 + n % 10 == n);
        assert forall|i: int| 0 <= i < d.len() implies is_digit_char(#[trigger] d[i]) by {
            if i < d.len() - 1 {
                assert(d[i] == decimal(n / 10)[i]);
            }
        }
    } else {
        let d = decimal(n);
        assert(d.drop_last() =~= Seq::<char>::empty());
        assert(d.last() == digit_char(n as int));
        assert(((d.last() as u32) - 48) as nat == n);
        assert(digits_value(d.drop_last()) == 0);
        assert(digits_value(d) == n);
    }
}

/// Writing a worker count and parsing it back gives the same count.
pub proof fn lemma_count_roundtrip(n: u32)
    ensures
        parse_u32_spec(decimal(n as nat)) == Some(n),
{
    lemma_decimal_digits(n as nat);
    let d = decimal(n as nat);
    assert(d[0] != '+');
}

/// Settings round-trip: writing the settings' values and reading them back
/// gives the same settings, except that a path made only of whitespace reads
/// back as unset.
pub proof fn lemma_settings_roundtrip(s: Settings)
    ensures
        ({
            let m = opt_view(s.whisper_model_path);
            let r = opt_view(s.recording_dir);
            settings_read(
                Some(decimal(s.asr_worker_count as nat)),
                Some(stored_text(m)),
                Some(stored_text(r)),
            ) == (s.asr_worker_count, nonblank(m), nonblank(r))
        }),
{
    lemma_count_roundtrip(s.asr_worker_count);
    assert(trim(Seq::<char>::empty()).len() == 0);
}

} // verus!
