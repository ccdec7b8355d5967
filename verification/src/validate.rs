//! Checks on a receiver configuration coming from the UI: the URL scheme
//! must fit the receiver kind (so a source can't be pointed at `file://` and
//! the like; private addresses stay allowed for local SDRs), and an SDR's mode
//! must fit its lane.

use vstd::prelude::*;
use vstd::string::*;
use crate::model::{Lane, ReceiverConfig, ReceiverKind};
use crate::text::{ascii_lower_seq, chars_of, find, find_chars, lower_chars, push_chars, slice_chars, str_is};

verus! {

/// The scheme of a URL (what precedes the first `://`), in ASCII lower case;
/// `None` when the URL has no `://`.
pub open spec fn url_scheme(url: Seq<char>) -> Option<Seq<char>> {
    let k = find(url, "://"@);
    if k < 0 { None } else { Some(ascii_lower_seq(url.subrange(0, k))) }
}

/// Feeds are plain HTTP(S) streams; SDRs are reached over HTTP(S) or WebSocket.
pub open spec fn scheme_allowed(kind: ReceiverKind, scheme: Seq<char>) -> bool {
    match kind {
        ReceiverKind::Feed => scheme == "http"@ || scheme == "https"@,
        _ => scheme == "http"@ || scheme == "https"@ || scheme == "ws"@ || scheme == "wss"@,
    }
}

/// The error of the URL check, or `None` when the URL passes.
pub open spec fn url_error(kind: ReceiverKind, url: Seq<char>) -> Option<Seq<char>> {
    match url_scheme(url) {
        None => Some("URL must include a scheme (e.g. http://, ws://)"@),
        Some(s) => if scheme_allowed(kind, s) {
            None
        } else {
            Some("Unsupported URL scheme '"@ + s + "' for this receiver"@)
        },
    }
}

pub open spec fn voice_mode(mode: Seq<char>) -> bool {
    mode == "usb"@ || mode == "lsb"@ || mode == "am"@
}

pub open spec fn digital_mode(mode: Seq<char>) -> bool {
    mode == "ft8"@ || mode == "ft4"@ || mode == "cw"@ || mode == "psk31"@ || mode == "rtty"@
}

/// The error of the full check, or `None` when the configuration passes.
/// CW is not a voice mode: Morse fed to speech recognition is garbage, so CW
/// belongs to the digital lane.
pub open spec fn receiver_error(kind: ReceiverKind, url: Seq<char>, lane: Lane, mode: Seq<char>) -> Option<Seq<char>> {
    if url_error(kind, url) is Some {
        url_error(kind, url)
    } else if kind == ReceiverKind::Feed {
        None
    } else if lane == Lane::Voice {
        if voice_mode(mode) {
            None
        } else {
            Some("Invalid mode for voice lane (use usb/lsb/am; cw belongs to the digital lane)"@)
        }
    } else if digital_mode(mode) {
        None
    } else {
        Some("Invalid mode for digital lane"@)
    }
}

/// Check that the URL scheme fits the receiver kind.
pub fn validate_url_scheme(cfg: &ReceiverConfig) -> (r: Result<(), String>)
    ensures
        r is Ok <==> url_error(cfg.kind, cfg.url@) is None,
        r matches Err(e) ==> url_error(cfg.kind, cfg.url@) == Some(e@),
{
    let url = chars_of(cfg.url.as_str());
    let sep = chars_of("://");
    proof {
        crate::text::lemma_find_from(url@, sep@, 0);
    }
    let k = match find_chars(&url, &sep) {
        None => {
            return Err(String::from_str("URL must include a scheme (e.g. http://, ws://)"));
        },
        Some(k) => k,
    };
    assert(crate::text::occurs_at(url@, sep@, k as int));
    let raw = slice_chars(&url, 0, k);
    let scheme_v = lower_chars(&raw);
    let scheme = crate::text::string_of(&scheme_v);
    let s = scheme.as_str();
    let ok = match cfg.kind {
        ReceiverKind::Feed => str_is(s, "http") || str_is(s, "https"),
        _ => str_is(s, "http") || str_is(s, "https") || str_is(s, "ws") || str_is(s, "wss"),
    };
    if ok {
        Ok(())
    } else {
        let mut msg = String::from_str("Unsupported URL scheme '");
        push_chars(&mut msg, &scheme_v);
        msg.append("' for this receiver");
        Err(msg)
    }
}

/// Check the URL scheme and, for an SDR, that the mode fits the lane.
pub fn validate_receiver(cfg: &ReceiverConfig) -> (r: Result<(), String>)
    ensures
        r is Ok <==> receiver_error(cfg.kind, cfg.url@, cfg.lane, cfg.mode@) is None,
        r matches Err(e) ==> receiver_error(cfg.kind, cfg.url@, cfg.lane, cfg.mode@) == Some(e@),
{
    match validate_url_scheme(cfg) {
        Err(e) => {
            return Err(e);
        },
        Ok(()) => {},
    }
    if matches!(cfg.kind, ReceiverKind::Feed) {
        return Ok(());
    }
    let mode = cfg.mode.as_str();
    match cfg.lane {
        Lane::Voice => {
            if !(str_is(mode, "usb") || str_is(mode, "lsb") || str_is(mode, "am")) {
                return Err(String::from_str("Invalid mode for voice lane (use usb/lsb/am; cw belongs to the digital lane)"));
            }
        },
        Lane::Digital => {
            if !(str_is(mode, "ft8") || str_is(mode, "ft4") || str_is(mode, "cw") || str_is(mode, "psk31")
                || str_is(mode, "rtty")) {
                return Err(String::from_str("Invalid mode for digital lane"));
            }
        },
    }
    Ok(())
}

} // verus!
