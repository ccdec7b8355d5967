use hamhawk::kiwi::{
    agc_command, apply_agc, clamp_gain, keepalive_command, parse_kiwi_frame, setup_commands, smeter_level, sound_url, KiwiFrame,
    KiwiLink, KiwiSDR, KiwiStep,
};
use hamhawk::model::{Lane, ReceiverConfig, ReceiverKind};
use hamhawk::openwebrx::{
    audio_payload, client_greeting, decode_s16le, dsp_offset, is_server_greeting, OpenWebRX, OwrxLink,
};
use hamhawk::source::{
    feed_format_hint, feed_outcome, scratch_is_stale, sdr_demod, ws_origin, ChunkCursor, FeedSource, Reconnect,
    SourceAction, SourceError,
};

fn origin(url: &str) -> String {
    KiwiSDR::new(url).ws_origin()
}

fn cfg(kind: ReceiverKind) -> ReceiverConfig {
    ReceiverConfig {
        id: "rx1".to_string(),
        kind,
        url: "http://host".to_string(),
        label: None,
        freq_hz: 7_074_000,
        mode: "ft8".to_string(),
        lane: Lane::Digital,
        enabled: true,
        favorite: false,
        antenna: None,
        region: None,
    }
}

// ---- KiwiSDR ----

#[test]
fn port_less_url_defaults_to_8073() {
    assert_eq!(origin("http://w3ilt.proxy.kiwisdr.com"), "ws://w3ilt.proxy.kiwisdr.com:8073");
    assert_eq!(origin("w3ilt.proxy.kiwisdr.com"), "ws://w3ilt.proxy.kiwisdr.com:8073");
    assert_eq!(origin("https://example.com/"), "wss://example.com:8073");
}

#[test]
fn explicit_port_is_preserved() {
    assert_eq!(origin("http://kphsdr.com:8073"), "ws://kphsdr.com:8073");
    assert_eq!(origin("http://wessex.zapto.org:8074"), "ws://wessex.zapto.org:8074");
    assert_eq!(origin("ws://host:9000"), "ws://host:9000");
}

#[test]
fn ws_origin_normalises_urls() {
    assert_eq!(ws_origin("  https://a.example//  "), "wss://a.example");
    assert_eq!(ws_origin("wss://b.example"), "wss://b.example");
    assert_eq!(ws_origin("c.example"), "ws://c.example");
    assert_eq!(origin("http://[::1]"), "ws://[::1]");
    assert_eq!(origin(""), "ws://");
}

#[test]
fn kiwi_with_config_keeps_url() {
    let k = KiwiSDR::new("http://kphsdr.com").with_config(cfg(ReceiverKind::Kiwisdr));
    assert_eq!(k.url, "http://kphsdr.com");
    assert_eq!(k.config.unwrap().freq_hz, 7_074_000);
}

#[test]
fn kiwi_passbands() {
    assert_eq!(KiwiSDR::passband("am"), (-4000, 4000));
    assert_eq!(KiwiSDR::passband("cwn"), (300, 800));
    assert_eq!(KiwiSDR::passband("ft8"), (100, 3000));
    assert_eq!(KiwiSDR::passband("rtty"), (100, 3000));
    assert_eq!(KiwiSDR::passband("usb"), (300, 2700));
    assert_eq!(KiwiSDR::passband("lsb"), (300, 2700));
}

#[test]
fn kiwi_command_lines() {
    assert_eq!(sound_url("ws://h:8073", 1700000000), "ws://h:8073/1700000000/SND");
    assert_eq!(agc_command(true, 50), "SET agc=1 hang=0 thresh=-100 slope=6 decay=1000 manGain=50");
    assert_eq!(agc_command(false, 0), "SET agc=0 hang=0 thresh=-100 slope=6 decay=1000 manGain=0");
    assert_eq!(clamp_gain(-5), 0);
    assert_eq!(clamp_gain(77), 77);
    assert_eq!(clamp_gain(500), 120);
    assert_eq!(KiwiSDR::ensure_port("ws://h", 8073), "ws://h:8073");
    assert_eq!(KiwiSDR::ensure_port("no-scheme", 8073), "no-scheme");
    let once = KiwiSDR::ensure_port("wss://k.example", 8073);
    assert_eq!(KiwiSDR::ensure_port(&once, 8073), once);
}

fn snd_frame(smeter: u16, payload: &[u8]) -> Vec<u8> {
    let mut b = b"SND".to_vec();
    b.extend_from_slice(&[0, 1, 2, 3, 4]);
    b.extend_from_slice(&smeter.to_be_bytes());
    b.extend_from_slice(payload);
    b
}

#[test]
fn kiwi_frames_are_read() {
    match parse_kiwi_frame(&snd_frame(0x1234, &[9, 8])) {
        KiwiFrame::Sound { smeter, adpcm } => {
            assert_eq!(smeter, 0x1234);
            assert_eq!(adpcm, vec![9, 8]);
        }
        other => panic!("unexpected {other:?}"),
    }
    assert!(matches!(parse_kiwi_frame(b"MSG x badp=1"), KiwiFrame::AuthRejected));
    assert!(matches!(parse_kiwi_frame(b"MSG too_busy=1"), KiwiFrame::ServerBusy));
    assert!(matches!(parse_kiwi_frame(b"MSG hello"), KiwiFrame::Message));
    assert!(matches!(parse_kiwi_frame(b"SN"), KiwiFrame::Ignored));
    assert!(matches!(parse_kiwi_frame(b"SND123456"), KiwiFrame::Ignored));
    assert!(matches!(parse_kiwi_frame(b"W/F data"), KiwiFrame::Ignored));
    assert_eq!(smeter_level(0xF3E8), 0x3E8);
}

#[test]
fn kiwi_link_reports_live_once() {
    let mut link = KiwiLink::new();
    assert!(matches!(link.on_frame(b"MSG hello"), KiwiStep::WentLive));
    assert!(matches!(link.on_frame(b"MSG again"), KiwiStep::Nothing));
    match link.on_frame(&snd_frame(0x1000 + 1270, &[0x07])) {
        KiwiStep::Audio { level, samples, went_live } => {
            assert_eq!(level, 1270);
            assert_eq!(samples, vec![11, 13]);
            assert!(!went_live);
        }
        other => panic!("unexpected {other:?}"),
    }
}

#[test]
fn kiwi_link_first_audio_goes_live_and_keeps_decoder_state() {
    let mut link = KiwiLink::new();
    match link.on_frame(&snd_frame(5, &[0x07])) {
        KiwiStep::Audio { samples, went_live, .. } => {
            assert!(went_live);
            assert_eq!(samples, vec![11, 13]);
        }
        other => panic!("unexpected {other:?}"),
    }
    // The decoder continues from index 7, predictor 13.
    match link.on_frame(&snd_frame(5, &[0x00])) {
        KiwiStep::Audio { samples, went_live, .. } => {
            assert!(!went_live);
            assert_eq!(samples, vec![14, 15]);
        }
        other => panic!("unexpected {other:?}"),
    }
}

#[test]
fn kiwi_link_rejections_end_the_session() {
    let mut link = KiwiLink::new();
    match link.on_frame(b"MSG badp=1") {
        KiwiStep::Fail(m) => assert_eq!(m, "authentication rejected"),
        other => panic!("unexpected {other:?}"),
    }
    match link.on_frame(b"MSG too_busy=1") {
        KiwiStep::Fail(m) => assert_eq!(m, "server full (too_busy)"),
        other => panic!("unexpected {other:?}"),
    }
    assert!(matches!(link.on_frame(b""), KiwiStep::Nothing));
}

// ---- OpenWebRX ----

#[test]
fn owrx_addresses_and_passbands() {
    let o = OpenWebRX::new("https://sdr.example/").with_config(cfg(ReceiverKind::Openwebrx));
    assert_eq!(o.ws_origin(), "wss://sdr.example");
    assert_eq!(o.ws_url(), "wss://sdr.example/ws/");
    assert_eq!(OpenWebRX::passband("lsb"), (-2700, -300));
    assert_eq!(OpenWebRX::passband("cw"), (-400, 400));
    assert_eq!(OpenWebRX::passband("amn"), (-4000, 4000));
    assert_eq!(OpenWebRX::passband("usb"), (300, 2700));
}

#[test]
fn owrx_frames() {
    assert_eq!(audio_payload(&[2, 1, 2, 3]), Some(vec![1, 2, 3]));
    assert_eq!(audio_payload(&[1, 1, 2, 3]), None);
    assert_eq!(audio_payload(&[]), None);
    assert_eq!(decode_s16le(&[0x01, 0x00, 0xff, 0xff, 0x00, 0x80, 0x07]), vec![1, -1, -32768]);
    assert!(is_server_greeting("  CLIENT DE SERVER server=openwebrx version=1.2"));
    assert!(!is_server_greeting("{\"type\":\"config\"}"));
    assert_eq!(dsp_offset(14_074_000, 14_000_000), 74_000);
    assert_eq!(dsp_offset(7_000_000, 7_100_000), -100_000);
}

#[test]
fn owrx_link_starts_once_center_is_known() {
    let mut link = OwrxLink::new();
    assert!(!link.on_config(Some("adpcm"), None));
    assert!(link.on_config(None, Some(14_000_000)));
    assert!(!link.on_config(None, Some(14_100_000)));
}

#[test]
fn owrx_link_decodes_as_announced() {
    let mut link = OwrxLink::new();
    // ADPCM by default: bytes before a marker give nothing.
    assert!(link.on_binary(&[2, 0x00, 0x11]).is_empty());
    link.on_config(Some("none"), None);
    assert_eq!(link.on_binary(&[2, 0x01, 0x00, 0x02, 0x00]), vec![1, 2]);
    assert!(link.on_binary(&[1, 0x01, 0x00]).is_empty());
    link.on_config(Some("adpcm"), None);
    let mut f = vec![2u8];
    f.extend_from_slice(b"SYNC");
    f.extend_from_slice(&[0, 0, 0, 0, 0x11]);
    assert_eq!(link.on_binary(&f), vec![0, 1]);
}

// ---- shared ----

#[test]
fn demodulators() {
    assert_eq!(sdr_demod("lsb"), "lsb");
    assert_eq!(sdr_demod("amn"), "am");
    assert_eq!(sdr_demod("cw"), "cw");
    assert_eq!(sdr_demod("ft8"), "usb");
    assert_eq!(sdr_demod("psk31"), "usb");
}

#[test]
fn source_error_text() {
    assert_eq!(SourceError("no receiver config".to_string()).to_string(), "source error: no receiver config");
}

#[test]
fn reconnect_backs_off() {
    let mut r = Reconnect::new();
    let mut waits = Vec::new();
    for _ in 0..7 {
        match r.after(Err(SourceError("down".to_string()))) {
            SourceAction::Retry { wait_secs, reason } => {
                assert_eq!(reason, "source error: down");
                waits.push(wait_secs);
            }
            other => panic!("should retry, got {other:?}"),
        }
    }
    assert_eq!(waits, vec![1, 2, 4, 8, 16, 30, 30]);
    assert!(matches!(r.after(Ok(())), SourceAction::Stop));
}

#[test]
fn rejected_or_full_nodes_are_final() {
    let mut r = Reconnect::new();
    match r.after(Err(SourceError("authentication rejected".to_string()))) {
        SourceAction::Fail { reason } => assert_eq!(reason, "source error: authentication rejected"),
        other => panic!("unexpected {other:?}"),
    }
    match r.after(Err(SourceError("server full (too_busy)".to_string()))) {
        SourceAction::Fail { reason } => assert_eq!(reason, "source error: server full (too_busy)"),
        other => panic!("unexpected {other:?}"),
    }
    // The delay was not used up by the final failures.
    match r.after(Err(SourceError("connection closed".to_string()))) {
        SourceAction::Retry { wait_secs, .. } => assert_eq!(wait_secs, 1),
        other => panic!("unexpected {other:?}"),
    }
}

// ---- feeds ----

#[test]
fn feed_helpers() {
    assert_eq!(FeedSource::new("https://f.example/s").url, "https://f.example/s");
    assert_eq!(feed_format_hint("audio/mpeg"), Some("mp3"));
    assert_eq!(feed_format_hint("audio/aac"), Some("aac"));
    assert_eq!(feed_format_hint("application/ogg"), None);
    assert_eq!(feed_format_hint(""), None);
    assert!(scratch_is_stale(None, 1152, 44100, 2));
    assert!(!scratch_is_stale(Some((1152, 44100, 2)), 1152, 44100, 2));
    assert!(!scratch_is_stale(Some((2048, 44100, 2)), 1152, 44100, 2));
    assert!(scratch_is_stale(Some((1152, 44100, 2)), 2048, 44100, 2));
    assert!(scratch_is_stale(Some((1152, 44100, 2)), 1152, 48000, 2));
    assert!(scratch_is_stale(Some((1152, 44100, 2)), 1152, 44100, 1));
}

#[test]
fn feed_end_is_always_an_error() {
    assert_eq!(feed_outcome(Some(Ok(()))).0, "feed ended");
    assert_eq!(feed_outcome(Some(Err(SourceError("x".to_string())))).0, "x");
    assert_eq!(feed_outcome(None).0, "decode task panicked");
}

#[test]
fn chunk_cursor_reads_in_order() {
    let mut c = ChunkCursor::new();
    assert!(c.is_drained());
    c.refill(vec![1, 2, 3, 4, 5]);
    assert_eq!(c.take(2), vec![1, 2]);
    assert_eq!(c.take(10), vec![3, 4, 5]);
    assert!(c.is_drained());
    assert!(c.take(4).is_empty());
    c.refill(vec![6]);
    assert!(!c.is_drained());
    assert_eq!(c.take(0), Vec::<u8>::new());
    assert_eq!(c.take(1), vec![6]);
}

#[test]
fn session_openings() {
    let cmds = setup_commands("SET mod=usb low_cut=300 high_cut=2700 freq=14074.00", false, 70);
    assert_eq!(
        cmds,
        vec![
            "SET auth t=kiwi p=",
            "SET ident_user=HamHawk",
            "SET AR OK in=12000 out=48000",
            "SET mod=usb low_cut=300 high_cut=2700 freq=14074.00",
            "SET agc=0 hang=0 thresh=-100 slope=6 decay=1000 manGain=70",
            "SET compression=1",
            "SET squelch=0 max=0",
        ]
    );
    assert_eq!(keepalive_command(), "SET keepalive");
    assert_eq!(client_greeting(), "SERVER DE CLIENT client=hamhawk type=receiver");
}

#[test]
fn agc_changes_apply_given_fields_only() {
    assert_eq!(apply_agc(true, 50, None, None), (true, 50));
    assert_eq!(apply_agc(true, 50, Some(false), None), (false, 50));
    assert_eq!(apply_agc(false, 50, None, Some(200)), (false, 120));
    assert_eq!(apply_agc(false, 50, Some(true), Some(-3)), (true, 0));
}

#[test]
fn owrx_text_messages() {
    let mut link = OwrxLink::new();
    assert!(!link.on_text("CLIENT DE SERVER server=openwebrx version=1.2"));
    assert!(!link.on_text("not json"));
    assert!(!link.on_text("{\"type\":\"receiver_details\",\"value\":{\"center_freq\":1}}"));
    assert!(!link.on_text("{\"type\":\"config\",\"value\":{\"center_freq\":1.5e7}}"));
    assert_eq!(link.center_freq(), None);
    // Compression only: raw audio from now on, no start yet.
    assert!(!link.on_text("{\"type\":\"config\",\"value\":{\"audio_compression\":\"none\"}}"));
    assert_eq!(link.on_binary(&[2, 0x05, 0x00]), vec![5]);
    assert!(link.on_text("  {\"type\":\"config\",\"value\":{\"center_freq\":14000000}}  "));
    assert_eq!(link.center_freq(), Some(14_000_000));
    assert!(!link.on_text("{\"type\":\"config\",\"value\":{\"center_freq\":7000000}}"));
    assert_eq!(link.center_freq(), Some(14_000_000));
}

#[test]
fn offsets_read_the_frequency_as_signed() {
    assert_eq!(dsp_offset(u64::MAX, 0), -1);
    assert_eq!(dsp_offset(1u64 << 63, -1), i64::MIN + 1);
}
