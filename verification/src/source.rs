//! What the SDR sources share: the error type, the demodulator mapping, and
//! the normalisation of a user-supplied receiver URL into a WebSocket origin.

use vstd::prelude::*;
use vstd::string::*;
use crate::settings::{backoff_after, next_backoff, INITIAL_BACKOFF_SECS, MAX_BACKOFF_SECS};
use crate::text::{
    contains, find_chars,
    chars_of, has_prefix, is_ws, push_chars, slice_chars, starts_with, str_is, string_of, trim,
    trim_chars,
};

verus! {

/// A source failure, with its reason.
#[derive(Debug)]
pub struct SourceError(pub String);

impl SourceError {
    /// The failure as shown to the user: `source error: <reason>`.
    pub fn to_string(&self) -> (r: String)
        ensures
            r@ == "source error: "@ + self.0@,
    {
        let mut r = String::from_str("source error: ");
        r.append(self.0.as_str());
        r
    }
}

/// The SDR demodulator for a HamHawk mode. Neither KiwiSDR nor OpenWebRX has
/// a demodulator for FT8, PSK31 and the like: digital modes are decoded from
/// USB audio, so every mode that is not LSB, AM or CW demodulates as USB.
pub open spec fn demod_of(mode: Seq<char>) -> Seq<char> {
    if mode == "lsb"@ {
        "lsb"@
    } else if mode == "am"@ || mode == "amn"@ {
        "am"@
    } else if mode == "cw"@ || mode == "cwn"@ {
        "cw"@
    } else {
        "usb"@
    }
}

/// Every mode demodulates as one of the four demodulators both servers
/// have: a server is never asked for `mod=ft8` or the like.
pub proof fn lemma_demod_valid(mode: Seq<char>)
    ensures
        demod_of(mode) == "lsb"@ || demod_of(mode) == "am"@ || demod_of(mode) == "cw"@ || demod_of(mode) == "usb"@,
{
}

pub fn sdr_demod(mode: &str) -> (r: &'static str)
    ensures
        r@ == demod_of(mode@),
{
    if str_is(mode, "lsb") {
        "lsb"
    } else if str_is(mode, "am") || str_is(mode, "amn") {
        "am"
    } else if str_is(mode, "cw") || str_is(mode, "cwn") {
        "cw"
    } else {
        "usb"
    }
}

/// `s` without its trailing '/' characters.
pub open spec fn trim_slashes(s: Seq<char>) -> Seq<char>
    decreases s.len(),
{
    if s.len() > 0 && s.last() == '/' {
        trim_slashes(s.drop_last())
    } else {
        s
    }
}

/// The WebSocket origin of a receiver URL: surrounding whitespace and
/// trailing slashes dropped, `https://` mapped to `wss://`, `http://` to
/// `ws://`, a `ws://`/`wss://` URL kept, and anything else given `ws://`.
pub open spec fn ws_origin_of(url: Seq<char>) -> Seq<char> {
    let u = trim_slashes(trim(url));
    if has_prefix(u, "https://"@) {
        "wss://"@ + u.subrange("https://"@.len() as int, u.len() as int)
    } else if has_prefix(u, "http://"@) {
        "ws://"@ + u.subrange("http://"@.len() as int, u.len() as int)
    } else if has_prefix(u, "ws://"@) || has_prefix(u, "wss://"@) {
        u
    } else {
        "ws://"@ + u
    }
}

fn trim_slashes_chars(v: &[char]) -> (r: Vec<char>)
    ensures
        r@ == trim_slashes(v@),
{
    let mut j: usize = v.len();
    assert(v@.subrange(0, j as int) == v@);
    while j > 0 && v[j - 1] == '/'
        invariant
            j <= v@.len(),
            trim_slashes(v@) == trim_slashes(v@.subrange(0, j as int)),
        decreases j,
    {
        proof {
            let u = v@.subrange(0, j as int);
            assert(u.drop_last() == v@.subrange(0, j - 1));
            assert(u.last() == v@[j - 1]);
        }
        j -= 1;
    }
    proof {
        let u = v@.subrange(0, j as int);
        if u.len() > 0 {
            assert(u.last() == v@[j - 1]);
        }
    }
    slice_chars(v, 0, j)
}

/// The WebSocket origin of a receiver URL (see `ws_origin_of`).
pub fn ws_origin(url: &str) -> (r: String)
    ensures
        r@ == ws_origin_of(url@),
{
    let v = chars_of(url);
    let t = trim_chars(&v);
    let u = trim_slashes_chars(&t);
    let https = chars_of("https://");
    let http = chars_of("http://");
    let ws = chars_of("ws://");
    let wss = chars_of("wss://");
    let mut out = String::new();
    if starts_with(&u, &https) {
        out.append("wss://");
        let rest = slice_chars(&u, https.len(), u.len());
        push_chars(&mut out, &rest);
    } else if starts_with(&u, &http) {
        out.append("ws://");
        let rest = slice_chars(&u, http.len(), u.len());
        push_chars(&mut out, &rest);
    } else if starts_with(&u, &ws) || starts_with(&u, &wss) {
        push_chars(&mut out, &u);
    } else {
        out.append("ws://");
        push_chars(&mut out, &u);
    }
    out
}

/// An internet audio stream (a scanner feed or any MP3/AAC URL): no
/// frequency, no S-meter, no tuning.
pub struct FeedSource {
    pub url: String,
}

impl FeedSource {
    pub fn new(url: &str) -> (f: Self)
        ensures
            f.url@ == url@,
    {
        FeedSource { url: String::from_str(url) }
    }
}

/// The container format suggested by a feed's `Content-Type`: MP3 for an
/// MPEG type, AAC for an AAC type, else none (the prober guesses).
pub open spec fn format_hint_of(content_type: Seq<char>) -> Option<Seq<char>> {
    if contains(content_type, "mpeg"@) {
        Some("mp3"@)
    } else if contains(content_type, "aac"@) {
        Some("aac"@)
    } else {
        None
    }
}

pub fn feed_format_hint(content_type: &str) -> (r: Option<&'static str>)
    ensures
        match r {
            Some(h) => format_hint_of(content_type@) == Some(h@),
            None => format_hint_of(content_type@) is None,
        },
{
    let ct = chars_of(content_type);
    let mpeg = chars_of("mpeg");
    let aac = chars_of("aac");
    proof {
        crate::text::lemma_find_from(ct@, mpeg@, 0);
        crate::text::lemma_find_from(ct@, aac@, 0);
    }
    if find_chars(&ct, &mpeg).is_some() {
        Some("mp3")
    } else if find_chars(&ct, &aac).is_some() {
        Some("aac")
    } else {
        None
    }
}

/// Whether the decoder's scratch buffer must be made anew for a decoded
/// packet: there is none yet, or the packet holds more frames than it was
/// sized for, or its rate or channel count differs.
pub fn scratch_is_stale(allocated: Option<(u64, u32, usize)>, capacity: u64, rate: u32, channels: usize) -> (r: bool)
    ensures
        r == match allocated {
            None => true,
            Some((cap, r0, ch)) => capacity > cap || r0 != rate || ch != channels,
        },
{
    match allocated {
        None => true,
        Some((cap, r0, ch)) => capacity > cap || r0 != rate || ch != channels,
    }
}

/// How a feed ends once its decoder has stopped (`None` when the decoding
/// task died): even a clean end is a failure, so that the feed reconnects.
pub fn feed_outcome(decoded: Option<Result<(), SourceError>>) -> (e: SourceError)
    ensures
        e.0@ == match decoded {
            None => "decode task panicked"@,
            Some(Ok(())) => "feed ended"@,
            Some(Err(x)) => x.0@,
        },
{
    match decoded {
        None => SourceError(String::from_str("decode task panicked")),
        Some(Ok(())) => SourceError(String::from_str("feed ended")),
        Some(Err(x)) => x,
    }
}

/// Bytes received from a stream, read out in order in pieces of any size.
pub struct ChunkCursor {
    buf: Vec<u8>,
    pos: usize,
}

impl View for ChunkCursor {
    type V = Seq<u8>;

    /// The bytes not read yet.
    closed spec fn view(&self) -> Seq<u8> {
        self.buf@.subrange(self.pos as int, self.buf@.len() as int)
    }
}

impl ChunkCursor {
    #[verifier::type_invariant]
    spec fn inv(self) -> bool {
        self.pos <= self.buf@.len()
    }

    pub fn new() -> (c: Self)
        ensures
            c@.len() == 0,
    {
        ChunkCursor { buf: Vec::new(), pos: 0 }
    }

    /// Whether every byte has been read.
    pub fn is_drained(&self) -> (r: bool)
        ensures
            r == (self@.len() == 0),
    {
        proof {
            use_type_invariant(self);
        }
        self.pos >= self.buf.len()
    }

    /// Continue with a newly received chunk in place of what was left.
    pub fn refill(&mut self, chunk: Vec<u8>)
        ensures
            final(self)@ == chunk@,
    {
        assert(chunk@.subrange(0, chunk@.len() as int) == chunk@);
        *self = ChunkCursor { buf: chunk, pos: 0 };
    }

    /// Read out up to `max` bytes: as many as are left, if fewer.
    pub fn take(&mut self, max: usize) -> (r: Vec<u8>)
        ensures
            r@ == old(self)@.take(if max < old(self)@.len() { max as int } else { old(self)@.len() as int }),
            final(self)@ == old(self)@.skip(r@.len() as int),
    {
        proof {
            use_type_invariant(&*self);
        }
        let left = self.buf.len() - self.pos;
        let n = if max < left { max } else { left };
        let mut r: Vec<u8> = Vec::new();
        let mut k: usize = 0;
        let ghost rest = self@;
        let pos = self.pos;
        while k < n
            invariant
                pos == self.pos,
                pos + n <= self.buf.len(),
                k <= n,
                rest == self.buf@.subrange(self.pos as int, self.buf@.len() as int),
                r@ == rest.take(k as int),
            decreases n - k,
        {
            r.push(self.buf[pos + k]);
            k += 1;
            assert(rest.take(k as int) == rest.take(k - 1).push(rest[k - 1]));
        }
        self.pos = self.pos + n;
        assert(self@ =~= rest.skip(n as int));
        r
    }
}

/// What the source loop does after a session has ended.
#[derive(Debug)]
pub enum SourceAction {
    /// The session ended cleanly: stop.
    Stop,
    /// The session failed: report the reason and try again after the delay.
    Retry { wait_secs: u64, reason: String },
    /// The node refused this client for good (bad password, or no free
    /// slot): report the error with its reason and do not reconnect.
    Fail { reason: String },
}

/// Whether a failure is final: the node rejected the password or is full.
pub open spec fn permanent_failure(reason: Seq<char>) -> bool {
    reason == "authentication rejected"@ || reason == "server full (too_busy)"@
}

/// The reconnect delay of a source loop: 1 s at first, doubling after each
/// failure up to 30 s.
pub struct Reconnect {
    backoff: u64,
}

impl View for Reconnect {
    type V = int;

    closed spec fn view(&self) -> int {
        self.backoff as int
    }
}

impl Reconnect {
    #[verifier::type_invariant]
    spec fn inv(self) -> bool {
        1 <= self.backoff <= 30
    }

    pub fn new() -> (r: Self)
        ensures
            r@ == backoff_after(0),
    {
        Reconnect { backoff: INITIAL_BACKOFF_SECS }
    }

    /// Decide what follows a session's end: a clean end stops the loop; a
    /// rejected password or a full node ends it with an error; any other
    /// failure is reported and retried after the current delay, which then
    /// doubles (at most 30 s).
    pub fn after(&mut self, ended: Result<(), SourceError>) -> (a: SourceAction)
        ensures
            match ended {
                Ok(()) => a is Stop && final(self)@ == old(self)@,
                Err(e) => if permanent_failure(e.0@) {
                    &&& a matches SourceAction::Fail { reason } && reason@ == "source error: "@ + e.0@
                    &&& final(self)@ == old(self)@
                } else {
                    &&& a matches SourceAction::Retry { wait_secs, reason } && wait_secs == old(self)@
                        && reason@ == "source error: "@ + e.0@
                    &&& final(self)@ == (if 2 * old(self)@ < 30 { 2 * old(self)@ } else { 30 })
                },
            },
            forall|n: nat| old(self)@ == #[trigger] backoff_after(n) && a is Retry ==> final(self)@ == backoff_after(n + 1),
    {
        proof {
            use_type_invariant(&*self);
        }
        match ended {
            Ok(()) => SourceAction::Stop,
            Err(e) => {
                if str_is(e.0.as_str(), "authentication rejected") || str_is(e.0.as_str(), "server full (too_busy)") {
                    return SourceAction::Fail { reason: e.to_string() };
                }
                let wait = self.backoff;
                let reason = e.to_string();
                let next = next_backoff(wait);
                *self = Reconnect { backoff: next };
                SourceAction::Retry { wait_secs: wait, reason }
            },
        }
    }
}

} // verus!
