//! OpenWebRX source: the receiver's address, the demodulator passband, and the
//! reading of binary frames (type byte 2 is audio; the audio is raw S16LE or
//! ADPCM-with-sync, see `owrx_adpcm`).

use vstd::prelude::*;
use vstd::string::*;
use crate::model::ReceiverConfig;
use crate::owrx_adpcm::{le_i16, owrx_initial, owrx_run, OwrxAdpcm, OwrxState};
use crate::source::{ws_origin, ws_origin_of};
use crate::text::{chars_of, has_prefix, starts_with, str_is, string_of, trim, trim_chars};

verus! {

/// Audio rate requested from the server.
pub const OUTPUT_RATE: u32 = 12000;

pub struct OpenWebRX {
    pub url: String,
    pub config: Option<ReceiverConfig>,
}

/// The demodulator passband, in Hz around the tuned frequency, for a mode.
pub open spec fn owrx_passband(mode: Seq<char>) -> (int, int) {
    if mode == "am"@ || mode == "amn"@ {
        (-4000, 4000)
    } else if mode == "lsb"@ {
        (-2700, -300)
    } else if mode == "cw"@ || mode == "cwn"@ {
        (-400, 400)
    } else {
        (300, 2700)
    }
}

impl OpenWebRX {
    pub fn new(url: &str) -> (o: Self)
        ensures
            o.url@ == url@,
            o.config is None,
    {
        OpenWebRX { url: String::from_str(url), config: None }
    }

    pub fn with_config(self, cfg: ReceiverConfig) -> (o: Self)
        ensures
            o.url == self.url,
            o.config == Some(cfg),
    {
        OpenWebRX { config: Some(cfg), ..self }
    }

    /// The WebSocket origin of the receiver (no default port).
    pub fn ws_origin(&self) -> (r: String)
        ensures
            r@ == ws_origin_of(self.url@),
    {
        ws_origin(self.url.as_str())
    }

    /// The WebSocket endpoint: `<origin>/ws/`.
    pub fn ws_url(&self) -> (r: String)
        ensures
            r@ == ws_origin_of(self.url@) + "/ws/"@,
    {
        let mut o = ws_origin(self.url.as_str());
        o.append("/ws/");
        o
    }

    pub fn passband(mode: &str) -> (r: (i64, i64))
        ensures
            (r.0 as int, r.1 as int) == owrx_passband(mode@),
    {
        if str_is(mode, "am") || str_is(mode, "amn") {
            (-4000, 4000)
        } else if str_is(mode, "lsb") {
            (-2700, -300)
        } else if str_is(mode, "cw") || str_is(mode, "cwn") {
            (-400, 400)
        } else {
            (300, 2700)
        }
    }
}

/// The payload of an audio frame (type byte 2); `None` for an empty frame and
/// for the other types (1 = FFT, 3 = second FFT, 4 = HD audio).
pub fn audio_payload(buf: &[u8]) -> (r: Option<Vec<u8>>)
    ensures
        r matches Some(p) ==> buf@.len() > 0 && buf@[0] == 2 && p@ == buf@.subrange(1, buf@.len() as int),
        r is None <==> (buf@.len() == 0 || buf@[0] != 2),
{
    if buf.len() == 0 || buf[0] != 2 {
        return None;
    }
    let mut p: Vec<u8> = Vec::new();
    let mut k: usize = 1;
    while k < buf.len()
        invariant
            1 <= k <= buf@.len(),
            p@ == buf@.subrange(1, k as int),
        decreases buf@.len() - k,
    {
        p.push(buf[k]);
        k += 1;
        assert(buf@.subrange(1, k as int) == buf@.subrange(1, k - 1).push(buf@[k - 1]));
    }
    Some(p)
}

/// Raw little-endian 16-bit PCM: one sample per whole byte pair; an odd
/// trailing byte is dropped.
pub open spec fn s16le_samples(p: Seq<u8>) -> Seq<i16> {
    Seq::new(p.len() / 2, |i: int| le_i16(p[2 * i], p[2 * i + 1]) as i16)
}

pub fn decode_s16le(payload: &[u8]) -> (r: Vec<i16>)
    ensures
        r@ == s16le_samples(payload@),
{
    let mut r: Vec<i16> = Vec::new();
    let total = payload.len();
    let n = total / 2;
    let mut i: usize = 0;
    while i < n
        invariant
            total == payload@.len(),
            n == payload@.len() / 2,
            i <= n,
            r@ == s16le_samples(payload@).take(i as int),
        decreases n - i,
    {
        let lo = payload[2 * i];
        let hi = payload[2 * i + 1];
        let u = lo as i32 + 256 * (hi as i32);
        let v: i32 = if u >= 32768 { u - 65536 } else { u };
        r.push(v as i16);
        i += 1;
        assert(s16le_samples(payload@).take(i as int) =~= s16le_samples(payload@).take(i - 1).push(v as i16));
    }
    assert(s16le_samples(payload@).take(n as int) =~= s16le_samples(payload@));
    r
}

/// The line the client opens a session with.
pub fn client_greeting() -> (r: String)
    ensures
        r@ == "SERVER DE CLIENT client=hamhawk type=receiver"@,
{
    String::from_str("SERVER DE CLIENT client=hamhawk type=receiver")
}

/// Whether a text message is the server's greeting line, which carries
/// nothing the client needs.
pub fn is_server_greeting(text: &str) -> (r: bool)
    ensures
        r == has_prefix(trim(text@), "CLIENT DE SERVER"@),
{
    let v = chars_of(text);
    let t = trim_chars(&v);
    let p = chars_of("CLIENT DE SERVER");
    starts_with(&t, &p)
}

/// What serde_json reads from a text message, when it is JSON: the
/// top-level `type` and, under `value`, `audio_compression` (each when it
/// is a string) and `center_freq` (when it is an integer that fits an i64).
pub uninterp spec fn owrx_json(text: Seq<char>) -> Option<(Option<Seq<char>>, Option<Seq<char>>, Option<int>)>;

pub open spec fn opt_text_view(o: Option<String>) -> Option<Seq<char>> {
    match o {
        Some(s) => Some(s@),
        None => None,
    }
}

pub open spec fn opt_int(o: Option<i64>) -> Option<int> {
    match o {
        Some(v) => Some(v as int),
        None => None,
    }
}

pub open spec fn json_fields_view(r: Option<(Option<String>, Option<String>, Option<i64>)>) -> Option<
    (Option<Seq<char>>, Option<Seq<char>>, Option<int>),
> {
    match r {
        Some((t, c, f)) => Some((opt_text_view(t), opt_text_view(c), opt_int(f))),
        None => None,
    }
}

/// Trusted: parses `text` with `serde_json::from_str` into a
/// `serde_json::Value` (`None` when it is not JSON) and picks the string at
/// `type`, the string at `value.audio_compression` and the i64 at
/// `value.center_freq`; the result is named `owrx_json`.
#[verifier::external_body]
fn parse_owrx_json(text: &str) -> (r: Option<(Option<String>, Option<String>, Option<i64>)>)
    ensures
        json_fields_view(r) == owrx_json(text@),
{
    let v: serde_json::Value = serde_json::from_str(text).ok()?;
    let kind = v.get("type").and_then(|x| x.as_str()).map(|x| x.to_string());
    let value = &v["value"];
    let compression = value.get("audio_compression").and_then(|x| x.as_str()).map(|x| x.to_string());
    let center = value.get("center_freq").and_then(|x| x.as_i64());
    Some((kind, compression, center))
}

/// The part of an OpenWebRX session that reacts to the server: whether the
/// demodulator has been started (and at which center frequency), whether
/// audio comes ADPCM-compressed (the server's default) or as raw S16LE, and
/// the audio decoder.
pub struct OwrxLink {
    started: bool,
    center: Option<i64>,
    adpcm_audio: bool,
    decoder: OwrxAdpcm,
}

pub struct OwrxLinkState {
    pub started: bool,
    pub center: Option<int>,
    pub adpcm_audio: bool,
    pub decoder: OwrxState,
}

impl View for OwrxLink {
    type V = OwrxLinkState;

    closed spec fn view(&self) -> OwrxLinkState {
        OwrxLinkState {
            started: self.started,
            center: opt_int(self.center),
            adpcm_audio: self.adpcm_audio,
            decoder: self.decoder@,
        }
    }
}

/// A `config` message with its compression and center frequency: the new
/// state, and whether the demodulator is to be started now (the first time
/// a center frequency is known, which is then kept).
pub open spec fn config_step(s: OwrxLinkState, compression: Option<Seq<char>>, center: Option<int>) -> (
    OwrxLinkState,
    bool,
) {
    let start = !s.started && center is Some;
    (
        OwrxLinkState {
            started: s.started || center is Some,
            center: if start { center } else { s.center },
            adpcm_audio: match compression {
                Some(c) => c == "adpcm"@,
                None => s.adpcm_audio,
            },
            decoder: s.decoder,
        },
        start,
    )
}

/// Whether a text message is a `config` message, and its fields: not for
/// the greeting, a text that is not JSON, or another type.
pub open spec fn config_fields(text: Seq<char>) -> Option<(Option<Seq<char>>, Option<int>)> {
    let t = trim(text);
    if has_prefix(t, "CLIENT DE SERVER"@) {
        None
    } else {
        match owrx_json(t) {
            Some((kind, compression, center)) => if kind == Some("config"@) {
                Some((compression, center))
            } else {
                None
            },
            None => None,
        }
    }
}

impl OwrxLink {
    pub fn new() -> (l: Self)
        ensures
            !l@.started,
            l@.center is None,
            l@.adpcm_audio,
            l@.decoder == owrx_initial(),
    {
        OwrxLink { started: false, center: None, adpcm_audio: true, decoder: OwrxAdpcm::new() }
    }

    /// The center frequency the demodulator was started at.
    pub fn center_freq(&self) -> (r: Option<i64>)
        ensures
            opt_int(r) == self@.center,
    {
        self.center
    }

    /// A `config` message from the server, with its `audio_compression` and
    /// `center_freq` when present (see `config_step`).
    pub fn on_config(&mut self, compression: Option<&str>, center_freq: Option<i64>) -> (start: bool)
        ensures
            (final(self)@, start) == config_step(
                old(self)@,
                match compression {
                    Some(c) => Some(c@),
                    None => None,
                },
                opt_int(center_freq),
            ),
    {
        if let Some(c) = compression {
            self.adpcm_audio = str_is(c, "adpcm");
        }
        if !self.started && center_freq.is_some() {
            self.started = true;
            self.center = center_freq;
            true
        } else {
            false
        }
    }

    /// A text message from the server. The greeting, a text that is not
    /// JSON and a message of another type than `config` change nothing; a
    /// `config` message is handled as `on_config` handles its fields.
    pub fn on_text(&mut self, text: &str) -> (start: bool)
        ensures
            match config_fields(text@) {
                None => !start && final(self)@ == old(self)@,
                Some((compression, center)) => (final(self)@, start) == config_step(old(self)@, compression, center),
            },
    {
        if is_server_greeting(text) {
            return false;
        }
        let v = chars_of(text);
        let t = string_of(&trim_chars(&v));
        match parse_owrx_json(t.as_str()) {
            None => false,
            Some((kind, compression, center)) => {
                let is_config = match &kind {
                    Some(k) => str_is(k.as_str(), "config"),
                    None => false,
                };
                if !is_config {
                    return false;
                }
                match compression {
                    Some(c) => self.on_config(Some(c.as_str()), center),
                    None => self.on_config(None, center),
                }
            },
        }
    }

    /// A binary frame: the samples of an audio frame, decoded as the server
    /// announced; nothing for the other frames.
    pub fn on_binary(&mut self, buf: &[u8]) -> (pcm: Vec<i16>)
        ensures
            buf@.len() == 0 || buf@[0] != 2 ==> pcm@.len() == 0 && final(self)@ == old(self)@,
            buf@.len() > 0 && buf@[0] == 2 && old(self)@.adpcm_audio ==> ({
                let run = owrx_run(old(self)@.decoder, buf@.subrange(1, buf@.len() as int));
                &&& pcm@ == run.1
                &&& final(self)@ == OwrxLinkState { decoder: run.0, ..old(self)@ }
            }),
            buf@.len() > 0 && buf@[0] == 2 && !old(self)@.adpcm_audio ==> pcm@ == s16le_samples(
                buf@.subrange(1, buf@.len() as int),
            ) && final(self)@ == old(self)@,
    {
        match audio_payload(buf) {
            None => Vec::new(),
            Some(p) => {
                if self.adpcm_audio {
                    self.decoder.decode_with_sync(p.as_slice())
                } else {
                    decode_s16le(p.as_slice())
                }
            },
        }
    }
}

/// A frequency read as a signed 64-bit value, as `as i64` reads it (values
/// above `i64::MAX` wrap around).
pub open spec fn signed_freq(freq_hz: u64) -> int {
    if freq_hz <= i64::MAX { freq_hz as int } else { freq_hz - 0x1_0000_0000_0000_0000 }
}

/// The offset of the wanted frequency from the server's center frequency.
pub fn dsp_offset(freq_hz: u64, center_freq: i64) -> (r: i64)
    requires
        i64::MIN <= signed_freq(freq_hz) - center_freq <= i64::MAX,
    ensures
        r == signed_freq(freq_hz) - center_freq,
{
    let f: i64 = if freq_hz <= 0x7fff_ffff_ffff_ffff {
        freq_hz as i64
    } else {
        (freq_hz - 0x8000_0000_0000_0000) as i64 + i64::MIN
    };
    f - center_freq
}


/// How the passbands sit against the voice band (the one of "usb"): every
/// passband is a non-empty band; LSB is the voice band mirrored below the
/// carrier; AM and CW are centred on the carrier, AM reaching past the voice
/// band and CW narrower than it; any other mode gets the voice band itself.
pub proof fn lemma_owrx_passband_shape(mode: Seq<char>)
    ensures
        ({
            let v = owrx_passband("usb"@);
            let p = owrx_passband(mode);
            let am = mode == "am"@ || mode == "amn"@;
            let cw = mode == "cw"@ || mode == "cwn"@;
            let lsb = mode == "lsb"@;
            &&& p.0 < p.1
            &&& 0 < v.0
            &&& lsb ==> p == (-v.1, -v.0)
            &&& am ==> p.0 == -p.1 && v.1 < p.1
            &&& cw ==> p.0 == -p.1 && p.1 - p.0 < v.1 - v.0
            &&& !am && !cw && !lsb ==> p == v
        }),
{
    reveal_strlit("usb");
    reveal_strlit("am");
    reveal_strlit("amn");
    reveal_strlit("cw");
    reveal_strlit("cwn");
    reveal_strlit("lsb");
    assert("usb"@[0] == 'u' && "am"@[0] == 'a' && "amn"@[0] == 'a' && "cw"@[0] == 'c' && "cwn"@[0] == 'c' && "lsb"@[0] == 'l');
}

} // verus!
