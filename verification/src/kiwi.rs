//! KiwiSDR source: the receiver's address, the passband per mode, the command
//! lines that carry only integers, and the reading of the binary frames.
//!
//! Sound frames are `"SND"`, one flags byte, a 4-byte sequence number, a
//! big-endian 2-byte S-meter word and the IMA-ADPCM payload; the S-meter's low
//! 12 bits are tenths of a dB above -127 dBm. `"MSG"` frames carry text from
//! the server, among which the rejections `badp=1` (bad password) and
//! `too_busy` (no free slot).

use vstd::prelude::*;
use vstd::string::*;
use crate::adpcm::{ImaAdpcm, ima_run, nibbles};
use crate::model::ReceiverConfig;
use crate::source::{ws_origin, ws_origin_of};
use crate::text::{
    chars_of, contains, decimal, find, find_bytes, find_from, occurs_at, push_chars, signed_decimal, str_is,
    u64_decimal,
    i64_decimal,
};

verus! {

/// The port KiwiSDR servers listen on.
pub const KIWI_PORT: u16 = 8073;

/// Audio rate of the sound stream.
pub const AUDIO_RATE: u32 = 12000;

pub struct KiwiSDR {
    pub url: String,
    pub config: Option<ReceiverConfig>,
}

/// The URL with `:port` appended when its authority (what follows `://`) is
/// not empty, is not an IPv6 literal and names no port. URLs are stored
/// without a path.
pub open spec fn with_default_port(w: Seq<char>, port: nat) -> Seq<char> {
    let k = find(w, "://"@);
    let authority = w.subrange(k + "://"@.len(), w.len() as int);
    if k >= 0 && authority.len() > 0 && authority[0] != '[' && !contains(authority, seq![':']) {
        w + seq![':'] + decimal(port)
    } else {
        w
    }
}

/// A first occurrence stays the first when more is appended.
pub proof fn lemma_find_extend<T>(s: Seq<T>, t: Seq<T>, p: Seq<T>, i: int)
    requires
        find(s, p) >= 0,
        0 <= i <= find(s, p),
    ensures
        find_from(s + t, p, i) == find_from(s, p, i),
    decreases find(s, p) - i,
{
    crate::text::lemma_find_from(s, p, 0);
    let k = find(s, p);
    assert((s + t).subrange(i, i + p.len()) == s.subrange(i, i + p.len()));
    if i < k {
        lemma_find_extend(s, t, p, i + 1);
    }
}

/// Adding the default port is idempotent: a URL that got the port, or
/// already named one, is left as it is.
pub proof fn lemma_default_port_idempotent(w: Seq<char>, port: nat)
    ensures
        with_default_port(with_default_port(w, port), port) == with_default_port(w, port),
{
    let sep = "://"@;
    let k = find(w, sep);
    let w2 = with_default_port(w, port);
    crate::text::lemma_find_from(w, sep, 0);
    if w2 != w {
        let tail = seq![':'] + decimal(port);
        assert(w2 == w + tail);
        lemma_find_extend(w, tail, sep, 0);
        let a = w.subrange(k + sep.len(), w.len() as int);
        let a2 = w2.subrange(k + sep.len(), w2.len() as int);
        assert(a2 =~= a + tail);
        assert(a2[a.len() as int] == ':');
        assert(occurs_at(a2, seq![':'], a.len() as int)) by {
            assert(a2.subrange(a.len() as int, a.len() + 1int) == seq![':']);
        }
        crate::text::lemma_find_from(a2, seq![':'], 0);
        assert(a2[0] == a[0]);
    }
}

/// The demodulator passband, in Hz around the tuned frequency, for a mode.
pub open spec fn kiwi_passband(mode: Seq<char>) -> (int, int) {
    if mode == "am"@ || mode == "amn"@ {
        (-4000, 4000)
    } else if mode == "cw"@ || mode == "cwn"@ {
        (300, 800)
    } else if mode == "ft8"@ || mode == "ft4"@ || mode == "psk31"@ || mode == "rtty"@ {
        (100, 3000)
    } else {
        (300, 2700)
    }
}

impl KiwiSDR {
    pub fn new(url: &str) -> (k: Self)
        ensures
            k.url@ == url@,
            k.config is None,
    {
        KiwiSDR { url: String::from_str(url), config: None }
    }

    pub fn with_config(self, cfg: ReceiverConfig) -> (k: Self)
        ensures
            k.url == self.url,
            k.config == Some(cfg),
    {
        KiwiSDR { config: Some(cfg), ..self }
    }

    /// The WebSocket origin of the receiver, on port 8073 unless the URL
    /// names a port.
    pub fn ws_origin(&self) -> (r: String)
        ensures
            r@ == with_default_port(ws_origin_of(self.url@), KIWI_PORT as nat),
    {
        let o = ws_origin(self.url.as_str());
        Self::ensure_port(o.as_str(), KIWI_PORT)
    }

    /// Append `:default` to a URL whose authority has no port.
    pub fn ensure_port(ws_url: &str, default: u16) -> (r: String)
        ensures
            r@ == with_default_port(ws_url@, default as nat),
    {
        let w = chars_of(ws_url);
        let sep = chars_of("://");
        let mut out = String::from_str(ws_url);
        proof {
            crate::text::lemma_find_from(w@, sep@, 0);
        }
        match crate::text::find_chars(&w, &sep) {
            None => {},
            Some(k) => {
                assert(crate::text::occurs_at(w@, sep@, k as int));
                let n = w.len();
                let start = k + sep.len();
                let authority = crate::text::slice_chars(&w, start, n);
                let colon: [char; 1] = [':'];
                let has_colon = crate::text::find_chars(&authority, &colon);
                proof {
                    assert(colon@ =~= seq![':']);
                }
                if authority.len() > 0 && authority[0] != '[' && has_colon.is_none() {
                    out.append(":");
                    let d = u64_decimal(default as u64);
                    push_chars(&mut out, &d);
                    proof {
                        reveal_strlit(":");
                        assert(out@ =~= w@ + seq![':'] + decimal(default as nat));
                    }
                }
            },
        }
        out
    }

    /// The passband for a mode: AM wide, CW narrow, the digital modes the full
    /// 0-3 kHz of USB audio, voice SSB 300-2700 Hz.
    pub fn passband(mode: &str) -> (r: (i64, i64))
        ensures
            (r.0 as int, r.1 as int) == kiwi_passband(mode@),
    {
        if str_is(mode, "am") || str_is(mode, "amn") {
            (-4000, 4000)
        } else if str_is(mode, "cw") || str_is(mode, "cwn") {
            (300, 800)
        } else if str_is(mode, "ft8") || str_is(mode, "ft4") || str_is(mode, "psk31") || str_is(mode, "rtty") {
            (100, 3000)
        } else {
            (300, 2700)
        }
    }
}

/// The sound-stream URL: `<origin>/<timestamp>/SND`.
pub fn sound_url(origin: &str, ts_secs: u64) -> (r: String)
    ensures
        r@ == origin@ + seq!['/'] + decimal(ts_secs as nat) + "/SND"@,
{
    let mut out = String::from_str(origin);
    out.append("/");
    let d = u64_decimal(ts_secs);
    push_chars(&mut out, &d);
    out.append("/SND");
    proof {
        reveal_strlit("/");
        assert(out@ =~= origin@ + seq!['/'] + decimal(ts_secs as nat) + "/SND"@);
    }
    out
}

/// A manual gain setting limited to the 0..=120 that KiwiSDR accepts.
pub open spec fn clamped_gain(v: i32) -> i32 {
    if v < 0 { 0 } else if v > 120 { 120 } else { v }
}

pub fn clamp_gain(v: i32) -> (r: i32)
    ensures
        r == clamped_gain(v),
{
    if v < 0 { 0 } else if v > 120 { 120 } else { v }
}

/// AGC on at the start of a session.
pub const DEFAULT_AGC_ON: bool = true;
/// The manual gain at the start of a session.
pub const DEFAULT_MAN_GAIN: i32 = 50;

/// The AGC setting after a control change: only the fields the change sets
/// are taken (the gain clamped to 0..=120); the others are kept.
pub fn apply_agc(on: bool, gain: i32, agc: Option<bool>, man_gain: Option<i32>) -> (r: (bool, i32))
    ensures
        r.0 == match agc {
            Some(v) => v,
            None => on,
        },
        r.1 == match man_gain {
            Some(v) => clamped_gain(v),
            None => gain,
        },
{
    let a = match agc {
        Some(v) => v,
        None => on,
    };
    let g = match man_gain {
        Some(v) => clamp_gain(v),
        None => gain,
    };
    (a, g)
}

/// The AGC command line: AGC on or off, with the manual gain used when off.
pub fn agc_command(on: bool, gain: i32) -> (r: String)
    ensures
        r@ == "SET agc="@ + (if on { seq!['1'] } else { seq!['0'] })
            + " hang=0 thresh=-100 slope=6 decay=1000 manGain="@ + signed_decimal(gain as int),
{
    let mut out = String::from_str("SET agc=");
    if on {
        out.append("1");
    } else {
        out.append("0");
    }
    out.append(" hang=0 thresh=-100 slope=6 decay=1000 manGain=");
    let d = i64_decimal(gain as i64);
    push_chars(&mut out, &d);
    proof {
        reveal_strlit("1");
        reveal_strlit("0");
    }
    out
}

/// The configuration sent right after connecting: authentication, client
/// name, audio rates, the demodulator line (`mod_line`, which carries the
/// passband and the frequency), the AGC line, compression on, squelch off.
pub fn setup_commands(mod_line: &str, agc_on: bool, gain: i32) -> (r: Vec<String>)
    ensures
        r@.len() == 7,
        r@[0]@ == "SET auth t=kiwi p="@,
        r@[1]@ == "SET ident_user=HamHawk"@,
        r@[2]@ == "SET AR OK in=12000 out=48000"@,
        r@[3]@ == mod_line@,
        r@[4]@ == "SET agc="@ + (if agc_on { seq!['1'] } else { seq!['0'] })
            + " hang=0 thresh=-100 slope=6 decay=1000 manGain="@ + signed_decimal(gain as int),
        r@[5]@ == "SET compression=1"@,
        r@[6]@ == "SET squelch=0 max=0"@,
{
    let mut r: Vec<String> = Vec::new();
    r.push(String::from_str("SET auth t=kiwi p="));
    r.push(String::from_str("SET ident_user=HamHawk"));
    r.push(String::from_str("SET AR OK in=12000 out=48000"));
    r.push(String::from_str(mod_line));
    r.push(agc_command(agc_on, gain));
    r.push(String::from_str("SET compression=1"));
    r.push(String::from_str("SET squelch=0 max=0"));
    r
}

/// The keep-alive line, sent every few seconds.
pub fn keepalive_command() -> (r: String)
    ensures
        r@ == "SET keepalive"@,
{
    String::from_str("SET keepalive")
}

/// What a binary frame from the server means.
#[derive(Debug)]
pub enum KiwiFrame {
    /// Audio: the S-meter word and the ADPCM payload.
    Sound { smeter: u16, adpcm: Vec<u8> },
    /// The server rejected the password (`badp=1`).
    AuthRejected,
    /// The server has no free slot (`too_busy`).
    ServerBusy,
    /// Any other message: the server is talking, so the link is up.
    Message,
    /// Too short, or a frame type this client does not use.
    Ignored,
}

pub open spec fn be_u16(hi: u8, lo: u8) -> int {
    256 * (hi as int) + lo as int
}

/// The meaning of a frame (see `KiwiFrame`).
pub open spec fn kiwi_frame_kind(buf: Seq<u8>) -> KiwiFrame {
    if buf.len() < 3 {
        KiwiFrame::Ignored
    } else if buf.subrange(0, 3) == seq![83u8, 78u8, 68u8] {
        if buf.len() < 10 {
            KiwiFrame::Ignored
        } else {
            KiwiFrame::Sound { smeter: be_u16(buf[8], buf[9]) as u16, adpcm: arbitrary() }
        }
    } else if buf.subrange(0, 3) == seq![77u8, 83u8, 71u8] {
        let text = buf.subrange(3, buf.len() as int);
        if contains(text, seq![98u8, 97u8, 100u8, 112u8, 61u8, 49u8]) {
            KiwiFrame::AuthRejected
        } else if contains(text, seq![116u8, 111u8, 111u8, 95u8, 98u8, 117u8, 115u8, 121u8]) {
            KiwiFrame::ServerBusy
        } else {
            KiwiFrame::Message
        }
    } else {
        KiwiFrame::Ignored
    }
}

fn bytes_from(buf: &[u8], from: usize) -> (r: Vec<u8>)
    requires
        from <= buf@.len(),
    ensures
        r@ == buf@.subrange(from as int, buf@.len() as int),
{
    let mut r: Vec<u8> = Vec::new();
    let mut k: usize = from;
    while k < buf.len()
        invariant
            from <= k <= buf@.len(),
            r@ == buf@.subrange(from as int, k as int),
        decreases buf@.len() - k,
    {
        r.push(buf[k]);
        k += 1;
        assert(buf@.subrange(from as int, k as int) == buf@.subrange(from as int, k - 1).push(buf@[k - 1]));
    }
    r
}

/// Read a binary frame. The text of a message is searched as bytes: the
/// patterns are ASCII, and a lossy UTF-8 reading keeps every ASCII byte.
pub fn parse_kiwi_frame(buf: &[u8]) -> (f: KiwiFrame)
    ensures
        f matches KiwiFrame::Sound { smeter, adpcm } ==> kiwi_frame_kind(buf@) matches KiwiFrame::Sound { smeter: s, .. }
            && s == smeter && adpcm@ == buf@.subrange(10, buf@.len() as int),
        !(f is Sound) ==> f == kiwi_frame_kind(buf@),
        f is Sound <==> kiwi_frame_kind(buf@) is Sound,
{
    if buf.len() < 3 {
        return KiwiFrame::Ignored;
    }
    let is_snd = buf[0] == 83 && buf[1] == 78 && buf[2] == 68;
    let is_msg = buf[0] == 77 && buf[1] == 83 && buf[2] == 71;
    assert(is_snd == (buf@.subrange(0, 3) == seq![83u8, 78u8, 68u8])) by {
        if is_snd {
            assert(buf@.subrange(0, 3) =~= seq![83u8, 78u8, 68u8]);
        }
    }
    assert(is_msg == (buf@.subrange(0, 3) == seq![77u8, 83u8, 71u8])) by {
        if is_msg {
            assert(buf@.subrange(0, 3) =~= seq![77u8, 83u8, 71u8]);
        }
    }
    if is_snd {
        if buf.len() < 10 {
            return KiwiFrame::Ignored;
        }
        let smeter = (buf[8] as u16) * 256 + (buf[9] as u16);
        let adpcm = bytes_from(buf, 10);
        KiwiFrame::Sound { smeter, adpcm }
    } else if is_msg {
        let text = bytes_from(buf, 3);
        let badp: [u8; 6] = [98, 97, 100, 112, 61, 49];
        let busy: [u8; 8] = [116, 111, 111, 95, 98, 117, 115, 121];
        assert(badp@ =~= seq![98u8, 97u8, 100u8, 112u8, 61u8, 49u8]);
        assert(busy@ =~= seq![116u8, 111u8, 111u8, 95u8, 98u8, 117u8, 115u8, 121u8]);
        if find_bytes(&text, &badp).is_some() {
            KiwiFrame::AuthRejected
        } else if find_bytes(&text, &busy).is_some() {
            KiwiFrame::ServerBusy
        } else {
            KiwiFrame::Message
        }
    } else {
        KiwiFrame::Ignored
    }
}

/// The S-meter level: the low 12 bits of the S-meter word, in tenths of a
/// dB above -127 dBm.
pub fn smeter_level(smeter: u16) -> (r: u16)
    ensures
        r as int == smeter as int % 4096,
{
    smeter % 4096
}

/// What one binary frame does to a running KiwiSDR session.
#[derive(Debug)]
pub enum KiwiStep {
    /// Audio arrived: the S-meter level (see `smeter_level`), the decoded
    /// samples, and whether this frame is the one that brought the link up.
    Audio { level: u16, samples: Vec<i16>, went_live: bool },
    /// The server spoke for the first time: the link is up.
    WentLive,
    /// The session ends, for this reason.
    Fail(String),
    /// Nothing to do.
    Nothing,
}

/// The part of a KiwiSDR session that reads the server's frames: whether the
/// link has been reported up, and the audio decoder of the connection.
pub struct KiwiLink {
    live: bool,
    decoder: ImaAdpcm,
}

pub struct KiwiLinkState {
    pub live: bool,
    pub decoder: (int, int),
}

impl View for KiwiLink {
    type V = KiwiLinkState;

    closed spec fn view(&self) -> KiwiLinkState {
        KiwiLinkState { live: self.live, decoder: self.decoder@ }
    }
}

impl KiwiLink {
    /// A session that has not heard from the server yet.
    pub fn new() -> (l: Self)
        ensures
            !l@.live,
            l@.decoder == (0int, 0int),
    {
        KiwiLink { live: false, decoder: ImaAdpcm::new() }
    }

    /// React to a binary frame. Audio is decoded and reported with its
    /// S-meter level; a rejection ends the session; the first audio frame
    /// or other message reports the link up; anything else is ignored.
    pub fn on_frame(&mut self, buf: &[u8]) -> (r: KiwiStep)
        ensures
            match kiwi_frame_kind(buf@) {
                KiwiFrame::Sound { smeter, .. } => {
                    let run = ima_run(old(self)@.decoder, nibbles(buf@.subrange(10, buf@.len() as int)));
                    &&& r matches KiwiStep::Audio { level, samples, went_live }
                        && level as int == smeter as int % 4096
                        && samples@ == run.1
                        && went_live == !old(self)@.live
                    &&& final(self)@.live
                    &&& final(self)@.decoder == run.0
                },
                KiwiFrame::AuthRejected => r matches KiwiStep::Fail(m) && m@ == "authentication rejected"@
                    && final(self)@ == old(self)@,
                KiwiFrame::ServerBusy => r matches KiwiStep::Fail(m) && m@ == "server full (too_busy)"@
                    && final(self)@ == old(self)@,
                KiwiFrame::Message => (if old(self)@.live { r is Nothing } else { r is WentLive })
                    && final(self)@.live && final(self)@.decoder == old(self)@.decoder,
                KiwiFrame::Ignored => r is Nothing && final(self)@ == old(self)@,
            },
    {
        match parse_kiwi_frame(buf) {
            KiwiFrame::Sound { smeter, adpcm } => {
                let level = smeter_level(smeter);
                let samples = self.decoder.decode(adpcm.as_slice());
                let went_live = !self.live;
                self.live = true;
                KiwiStep::Audio { level, samples, went_live }
            },
            KiwiFrame::AuthRejected => KiwiStep::Fail(String::from_str("authentication rejected")),
            KiwiFrame::ServerBusy => KiwiStep::Fail(String::from_str("server full (too_busy)")),
            KiwiFrame::Message => {
                if self.live {
                    KiwiStep::Nothing
                } else {
                    self.live = true;
                    KiwiStep::WentLive
                }
            },
            KiwiFrame::Ignored => KiwiStep::Nothing,
        }
    }
}


/// How the passbands sit against the voice band (the one of "usb"): every
/// passband is a non-empty band; AM is centred on the carrier and reaches past
/// the voice band on both sides; CW lies inside the voice band and is
/// narrower; the digital modes strictly contain the voice band, so the decoders
/// see the whole 0-3 kHz of audio; any other mode gets the voice band itself.
pub proof fn lemma_kiwi_passband_shape(mode: Seq<char>)
    ensures
        ({
            let v = kiwi_passband("usb"@);
            let p = kiwi_passband(mode);
            let am = mode == "am"@ || mode == "amn"@;
            let cw = mode == "cw"@ || mode == "cwn"@;
            let digital = mode == "ft8"@ || mode == "ft4"@ || mode == "psk31"@ || mode == "rtty"@;
            &&& p.0 < p.1
            &&& am ==> p.0 == -p.1 && p.0 < 0 && v.1 < p.1
            &&& cw ==> v.0 <= p.0 && p.1 < v.1
            &&& digital ==> p.0 < v.0 && v.1 < p.1
            &&& !am && !cw && !digital ==> p == v
            &&& 0 < v.0 && v.1 <= 3000
        }),
{
    reveal_strlit("usb");
    reveal_strlit("am");
    reveal_strlit("amn");
    reveal_strlit("cw");
    reveal_strlit("cwn");
    reveal_strlit("ft8");
    reveal_strlit("ft4");
    reveal_strlit("psk31");
    reveal_strlit("rtty");
    assert("usb"@[0] == 'u' && "am"@[0] == 'a' && "amn"@[0] == 'a' && "cw"@[0] == 'c' && "cwn"@[0] == 'c' && "ft8"@[0] == 'f' && "ft4"@[0] == 'f' && "psk31"@[0] == 'p' && "rtty"@[0] == 'r');
}

} // verus!
