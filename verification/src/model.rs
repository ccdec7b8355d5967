//! Shared data types: receivers, transcripts metadata, settings, bookmarks,
//! alert rules; and the names under which kinds, lanes and session states are
//! stored and shown.

use vstd::prelude::*;
use vstd::string::*;
use crate::text::str_is;

verus! {

#[derive(Clone, Copy, Debug, PartialEq, Eq, Structural)]
pub enum ReceiverKind {
    Kiwisdr,
    Openwebrx,
    Feed,
}

#[derive(Clone, Copy, Debug, PartialEq, Eq, Structural)]
pub enum Lane {
    Voice,
    Digital,
}

#[derive(Clone, Copy, Debug, PartialEq, Eq, Structural)]
pub enum SessionStatus {
    Connecting,
    Live,
    Reconnecting,
    Error,
    Stopped,
}

/// A remote receiver the user has added.
#[derive(Clone, Debug)]
pub struct ReceiverConfig {
    pub id: String,
    pub kind: ReceiverKind,
    pub url: String,
    pub label: Option<String>,
    pub freq_hz: u64,
    pub mode: String,
    pub lane: Lane,
    pub enabled: bool,
    /// Quick-connect star, kept across edits.
    pub favorite: bool,
    /// Free-text antenna description.
    pub antenna: Option<String>,
    /// Coarse region label.
    pub region: Option<String>,
}

/// Whether a usable Whisper model is available, and where.
#[derive(Clone, Debug)]
pub struct ModelStatus {
    pub present: bool,
    pub path: Option<String>,
    /// "default", "custom" or "none".
    pub source: String,
    pub default_path: String,
}

#[derive(Clone, Debug)]
pub struct Settings {
    pub asr_worker_count: u32,
    pub whisper_model_path: Option<String>,
    pub recording_dir: Option<String>,
}

/// One waterfall row (log-magnitude bins, 0..=255) of a receiver.
#[derive(Clone, Debug)]
pub struct SpectrumFrame {
    pub receiver_id: String,
    pub bins: Vec<u8>,
}

/// A chunk of monitored audio: base64 of little-endian i16 PCM.
#[derive(Clone, Debug)]
pub struct AudioChunk {
    pub receiver_id: String,
    pub sample_rate: u32,
    pub pcm_b64: String,
}

/// A saved frequency/receiver preset.
#[derive(Clone, Debug)]
pub struct Bookmark {
    pub id: String,
    pub label: String,
    pub kind: ReceiverKind,
    pub url: String,
    pub freq_hz: u64,
    pub mode: String,
    pub lane: Lane,
}

/// A keyword alert rule: a case-insensitive substring.
#[derive(Clone, Debug)]
pub struct AlertRule {
    pub id: String,
    pub name: String,
    pub pattern: String,
    pub enabled: bool,
}

/// An alert that fired: a transcript or decode matched a rule.
#[derive(Clone, Debug)]
pub struct AlertHit {
    pub rule_id: String,
    pub rule_name: String,
    pub receiver_id: String,
    pub ts_ms: i64,
    pub text: String,
}

/// A Whisper model size offered in the settings.
#[derive(Clone, Debug)]
pub struct ModelInfo {
    pub name: String,
    pub size_mb: u32,
    pub available: bool,
}

/// The model sizes offered for download (a static catalog; availability on
/// disk is not probed).
pub fn list_model_options() -> (r: Vec<ModelInfo>)
    ensures
        r@.len() == 3,
        r@[0].name@ == "base"@ && r@[0].size_mb == 140 && !r@[0].available,
        r@[1].name@ == "small"@ && r@[1].size_mb == 480 && !r@[1].available,
        r@[2].name@ == "medium"@ && r@[2].size_mb == 1500 && !r@[2].available,
{
    let mut r: Vec<ModelInfo> = Vec::new();
    r.push(ModelInfo { name: String::from_str("base"), size_mb: 140, available: false });
    r.push(ModelInfo { name: String::from_str("small"), size_mb: 480, available: false });
    r.push(ModelInfo { name: String::from_str("medium"), size_mb: 1500, available: false });
    r
}

// ---- stored names ----

pub open spec fn kind_name(k: ReceiverKind) -> Seq<char> {
    match k {
        ReceiverKind::Kiwisdr => "kiwisdr"@,
        ReceiverKind::Openwebrx => "openwebrx"@,
        ReceiverKind::Feed => "feed"@,
    }
}

/// The kind stored under a name; anything unknown reads as OpenWebRX.
pub open spec fn kind_of_name(s: Seq<char>) -> ReceiverKind {
    if s == "kiwisdr"@ {
        ReceiverKind::Kiwisdr
    } else if s == "feed"@ {
        ReceiverKind::Feed
    } else {
        ReceiverKind::Openwebrx
    }
}

pub open spec fn lane_name(l: Lane) -> Seq<char> {
    match l {
        Lane::Voice => "voice"@,
        Lane::Digital => "digital"@,
    }
}

/// The lane stored under a name; anything unknown reads as voice.
pub open spec fn lane_of_name(s: Seq<char>) -> Lane {
    if s == "digital"@ { Lane::Digital } else { Lane::Voice }
}

pub fn kind_str(k: &ReceiverKind) -> (r: &'static str)
    ensures
        r@ == kind_name(*k),
{
    match k {
        ReceiverKind::Kiwisdr => "kiwisdr",
        ReceiverKind::Openwebrx => "openwebrx",
        ReceiverKind::Feed => "feed",
    }
}

pub fn lane_str(l: &Lane) -> (r: &'static str)
    ensures
        r@ == lane_name(*l),
{
    match l {
        Lane::Voice => "voice",
        Lane::Digital => "digital",
    }
}

pub fn parse_kind(s: &str) -> (r: ReceiverKind)
    ensures
        r == kind_of_name(s@),
{
    if str_is(s, "kiwisdr") {
        ReceiverKind::Kiwisdr
    } else if str_is(s, "feed") {
        ReceiverKind::Feed
    } else {
        ReceiverKind::Openwebrx
    }
}

pub fn parse_lane(s: &str) -> (r: Lane)
    ensures
        r == lane_of_name(s@),
{
    if str_is(s, "digital") { Lane::Digital } else { Lane::Voice }
}

pub open spec fn status_name(s: SessionStatus) -> Seq<char> {
    match s {
        SessionStatus::Connecting => "connecting"@,
        SessionStatus::Live => "live"@,
        SessionStatus::Reconnecting => "reconnecting"@,
        SessionStatus::Error => "error"@,
        SessionStatus::Stopped => "stopped"@,
    }
}

/// The name under which a session state is reported to the UI.
pub fn status_str(s: SessionStatus) -> (r: &'static str)
    ensures
        r@ == status_name(s),
{
    match s {
        SessionStatus::Connecting => "connecting",
        SessionStatus::Live => "live",
        SessionStatus::Reconnecting => "reconnecting",
        SessionStatus::Error => "error",
        SessionStatus::Stopped => "stopped",
    }
}

/// A stored receiver row: id, kind, url, label, freq, mode, lane, enabled,
/// favorite, antenna, region.
pub type ReceiverRow = (
    String,
    String,
    String,
    Option<String>,
    u64,
    String,
    String,
    bool,
    bool,
    Option<String>,
    Option<String>,
);

/// A receiver as stored: the kind and lane are read back from their names.
pub fn row_to_config(r: ReceiverRow) -> (c: ReceiverConfig)
    ensures
        c.id == r.0,
        c.kind == kind_of_name(r.1@),
        c.url == r.2,
        c.label == r.3,
        c.freq_hz == r.4,
        c.mode == r.5,
        c.lane == lane_of_name(r.6@),
        c.enabled == r.7,
        c.favorite == r.8,
        c.antenna == r.9,
        c.region == r.10,
{
    let kind = parse_kind(r.1.as_str());
    let lane = parse_lane(r.6.as_str());
    ReceiverConfig {
        id: r.0,
        kind,
        url: r.2,
        label: r.3,
        freq_hz: r.4,
        mode: r.5,
        lane,
        enabled: r.7,
        favorite: r.8,
        antenna: r.9,
        region: r.10,
    }
}

/// A stored bookmark row: id, label, kind, url, freq, mode, lane.
pub type BookmarkRow = (String, String, String, String, u64, String, String);

/// A bookmark as stored: the kind and lane are read back from their names.
pub fn bookmark_from_row(r: BookmarkRow) -> (b: Bookmark)
    ensures
        b.id == r.0,
        b.label == r.1,
        b.kind == kind_of_name(r.2@),
        b.url == r.3,
        b.freq_hz == r.4,
        b.mode == r.5,
        b.lane == lane_of_name(r.6@),
{
    let kind = parse_kind(r.2.as_str());
    let lane = parse_lane(r.6.as_str());
    Bookmark { id: r.0, label: r.1, kind, url: r.3, freq_hz: r.4, mode: r.5, lane }
}

/// The configuration of receiver `id` among `cfgs` (the first with that id),
/// or the error `receiver <id> not found`.
pub fn find_config(cfgs: Vec<ReceiverConfig>, id: &str) -> (r: Result<ReceiverConfig, String>)
    ensures
        match r {
            Ok(c) => exists|k: int| 0 <= k < cfgs@.len() && cfgs@[k] == c && c.id@ == id@
                && forall|j: int| 0 <= j < k ==> (#[trigger] cfgs@[j]).id@ != id@,
            Err(e) => e@ == "receiver "@ + id@ + " not found"@
                && forall|j: int| 0 <= j < cfgs@.len() ==> (#[trigger] cfgs@[j]).id@ != id@,
        },
{
    let ghost all = cfgs@;
    let mut v = cfgs;
    let n = v.len();
    let mut k: usize = 0;
    while k < n
        invariant
            n == all.len(),
            v@ == all,
            all == cfgs@,
            k <= n,
            forall|j: int| 0 <= j < k ==> (#[trigger] all[j]).id@ != id@,
        decreases n - k,
    {
        if str_is(v[k].id.as_str(), id) {
            let c = v.swap_remove(k);
            assert(c == all[k as int] && c.id@ == id@);
            return Ok(c);
        }
        k += 1;
    }
    let mut e = String::from_str("receiver ");
    e.append(id);
    e.append(" not found");
    Err(e)
}

/// The receivers whose star is set (`fav`) or not, in their order.
pub open spec fn starred(s: Seq<ReceiverConfig>, fav: bool) -> Seq<ReceiverConfig>
    decreases s.len(),
{
    if s.len() == 0 {
        Seq::empty()
    } else if s.last().favorite == fav {
        starred(s.drop_last(), fav).push(s.last())
    } else {
        starred(s.drop_last(), fav)
    }
}

/// The receiver list as shown: starred receivers first, each group in its
/// stored order.
pub fn favorites_first(cfgs: Vec<ReceiverConfig>) -> (r: Vec<ReceiverConfig>)
    ensures
        r@ == starred(cfgs@, true) + starred(cfgs@, false),
{
    let ghost s = cfgs@;
    let mut rest = cfgs;
    let mut favs: Vec<ReceiverConfig> = Vec::new();
    let mut others: Vec<ReceiverConfig> = Vec::new();
    while rest.len() > 0
        invariant
            rest@.len() <= s.len(),
            rest@ == s.skip(s.len() - rest@.len()),
            favs@ == starred(s.take(s.len() - rest@.len()), true),
            others@ == starred(s.take(s.len() - rest@.len()), false),
        decreases rest@.len(),
    {
        let ghost k = s.len() - rest@.len();
        let c = rest.remove(0);
        proof {
            assert(c == s[k]);
            let t = s.take(k + 1);
            assert(t.drop_last() == s.take(k));
            assert(t.last() == s[k]);
            assert(rest@ == s.skip(k + 1));
        }
        if c.favorite {
            favs.push(c);
        } else {
            others.push(c);
        }
    }
    assert(s.take(s.len() as int) == s);
    favs.append(&mut others);
    favs
}

// ---- laws ----

/// Reading back a stored kind gives the kind that was stored.
pub proof fn lemma_kind_roundtrip(k: ReceiverKind)
    ensures
        kind_of_name(kind_name(k)) == k,
{
    reveal_strlit("kiwisdr");
    reveal_strlit("openwebrx");
    reveal_strlit("feed");
    assert("openwebrx"@.len() != "kiwisdr"@.len());
    assert("feed"@.len() != "kiwisdr"@.len());
    assert("openwebrx"@.len() != "feed"@.len());
}

/// Reading back a stored lane gives the lane that was stored.
pub proof fn lemma_lane_roundtrip(l: Lane)
    ensures
        lane_of_name(lane_name(l)) == l,
{
    reveal_strlit("voice");
    reveal_strlit("digital");
    assert("voice"@.len() != "digital"@.len());
}

} // verus!
