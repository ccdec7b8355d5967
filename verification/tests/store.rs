use hamhawk::model::{
    bookmark_from_row, favorites_first, find_config, kind_str, lane_str, list_model_options, parse_kind, parse_lane, row_to_config,
    status_str, Lane, ReceiverConfig, ReceiverKind, SessionStatus,
};
use hamhawk::settings::{
    clamp_workers, effective_recordings_dir, log_extension, may_start, model_status_of, next_backoff,
    nonblank_setting, parse_u32, settings_from_stored, settings_values, MAX_SESSIONS,
};
use hamhawk::store::{build_fts_query, transcript_query, QueryParam};
use hamhawk::validate::{validate_receiver, validate_url_scheme};

fn cfg(kind: ReceiverKind, url: &str, lane: Lane, mode: &str) -> ReceiverConfig {
    ReceiverConfig {
        id: "rx".to_string(),
        kind,
        url: url.to_string(),
        label: None,
        freq_hz: 0,
        mode: mode.to_string(),
        lane,
        enabled: true,
        favorite: false,
        antenna: None,
        region: None,
    }
}

const SELECT: &str =
    "SELECT id,receiver_id,ts_start,ts_end,lane,mode,src_lang,text_en,text_native,confidence,snr_db FROM transcript ";

#[test]
fn fts_queries_quote_each_word() {
    assert_eq!(build_fts_query("cq dx"), Some("\"cq\"* \"dx\"*".to_string()));
    assert_eq!(build_fts_query("  say \"hi\"  "), Some("\"say\"* \"\"\"hi\"\"\"*".to_string()));
    assert_eq!(build_fts_query("   "), None);
    assert_eq!(build_fts_query(""), None);
}

#[test]
fn transcript_query_without_conditions() {
    let (sql, params) = transcript_query(None, None, None);
    assert_eq!(sql, format!("{SELECT} ORDER BY ts_start DESC LIMIT 1000"));
    assert!(params.is_empty());
}

#[test]
fn transcript_query_with_all_conditions() {
    let (sql, params) = transcript_query(Some("rx1"), Some((10, 20)), Some("cq"));
    assert_eq!(
        sql,
        format!(
            "{SELECT}WHERE receiver_id = ?1 AND ts_start >= ?2 AND ts_end <= ?3 AND \
             id IN (SELECT rowid FROM transcript_fts WHERE transcript_fts MATCH ?4) ORDER BY ts_start DESC LIMIT 1000"
        )
    );
    assert_eq!(params.len(), 4);
    assert!(matches!(&params[0], QueryParam::Text(t) if t == "rx1"));
    assert!(matches!(params[1], QueryParam::Int(10)));
    assert!(matches!(params[2], QueryParam::Int(20)));
    assert!(matches!(&params[3], QueryParam::Text(t) if t == "\"cq\"*"));
}

#[test]
fn transcript_query_blank_text_is_no_condition() {
    let (sql, params) = transcript_query(None, Some((1, 2)), Some("  "));
    assert_eq!(sql, format!("{SELECT}WHERE ts_start >= ?1 AND ts_end <= ?2 ORDER BY ts_start DESC LIMIT 1000"));
    assert_eq!(params.len(), 2);
}

#[test]
fn url_schemes() {
    assert!(validate_url_scheme(&cfg(ReceiverKind::Kiwisdr, "WS://host", Lane::Voice, "usb")).is_ok());
    assert!(validate_url_scheme(&cfg(ReceiverKind::Feed, "https://feed", Lane::Voice, "")).is_ok());
    assert_eq!(
        validate_url_scheme(&cfg(ReceiverKind::Feed, "ws://feed", Lane::Voice, "")),
        Err("Unsupported URL scheme 'ws' for this receiver".to_string())
    );
    assert_eq!(
        validate_url_scheme(&cfg(ReceiverKind::Openwebrx, "host:8073", Lane::Voice, "usb")),
        Err("URL must include a scheme (e.g. http://, ws://)".to_string())
    );
    assert_eq!(
        validate_url_scheme(&cfg(ReceiverKind::Openwebrx, "FTP://host", Lane::Voice, "usb")),
        Err("Unsupported URL scheme 'ftp' for this receiver".to_string())
    );
}

#[test]
fn receiver_modes() {
    assert!(validate_receiver(&cfg(ReceiverKind::Kiwisdr, "http://h", Lane::Voice, "lsb")).is_ok());
    assert!(validate_receiver(&cfg(ReceiverKind::Kiwisdr, "http://h", Lane::Digital, "psk31")).is_ok());
    assert!(validate_receiver(&cfg(ReceiverKind::Feed, "http://h", Lane::Digital, "anything")).is_ok());
    assert_eq!(
        validate_receiver(&cfg(ReceiverKind::Kiwisdr, "http://h", Lane::Voice, "cw")),
        Err("Invalid mode for voice lane (use usb/lsb/am; cw belongs to the digital lane)".to_string())
    );
    assert_eq!(
        validate_receiver(&cfg(ReceiverKind::Openwebrx, "http://h", Lane::Digital, "usb")),
        Err("Invalid mode for digital lane".to_string())
    );
    assert_eq!(
        validate_receiver(&cfg(ReceiverKind::Openwebrx, "mailto:x", Lane::Digital, "usb")),
        Err("URL must include a scheme (e.g. http://, ws://)".to_string())
    );
}

#[test]
fn stored_names_roundtrip() {
    for k in [ReceiverKind::Kiwisdr, ReceiverKind::Openwebrx, ReceiverKind::Feed] {
        assert_eq!(parse_kind(kind_str(&k)), k);
    }
    for l in [Lane::Voice, Lane::Digital] {
        assert_eq!(parse_lane(lane_str(&l)), l);
    }
    assert_eq!(kind_str(&ReceiverKind::Openwebrx), "openwebrx");
    assert_eq!(parse_kind("unknown"), ReceiverKind::Openwebrx);
    assert_eq!(parse_lane("other"), Lane::Voice);
    assert_eq!(status_str(SessionStatus::Reconnecting), "reconnecting");
}

#[test]
fn rows_become_configs() {
    let c = row_to_config((
        "id1".to_string(),
        "feed".to_string(),
        "https://f".to_string(),
        Some("Scanner".to_string()),
        0,
        "am".to_string(),
        "voice".to_string(),
        true,
        true,
        None,
        Some("EU".to_string()),
    ));
    assert_eq!(c.kind, ReceiverKind::Feed);
    assert_eq!(c.lane, Lane::Voice);
    assert_eq!(c.label.as_deref(), Some("Scanner"));
    assert!(c.favorite);
    let b = bookmark_from_row((
        "b1".to_string(),
        "20m FT8".to_string(),
        "kiwisdr".to_string(),
        "http://k".to_string(),
        14_074_000,
        "ft8".to_string(),
        "digital".to_string(),
    ));
    assert_eq!(b.kind, ReceiverKind::Kiwisdr);
    assert_eq!(b.lane, Lane::Digital);
    assert_eq!(b.freq_hz, 14_074_000);
}

#[test]
fn configs_are_found_by_id() {
    let mut a = cfg(ReceiverKind::Kiwisdr, "http://a", Lane::Voice, "usb");
    a.id = "a".to_string();
    let mut b = cfg(ReceiverKind::Feed, "http://b", Lane::Voice, "");
    b.id = "b".to_string();
    let found = find_config(vec![a.clone(), b.clone()], "b").unwrap();
    assert_eq!(found.url, "http://b");
    assert_eq!(find_config(vec![a, b], "zz").unwrap_err(), "receiver zz not found");
}

#[test]
fn model_catalog() {
    let m = list_model_options();
    assert_eq!(m.len(), 3);
    assert_eq!((m[0].name.as_str(), m[0].size_mb), ("base", 140));
    assert_eq!((m[2].name.as_str(), m[2].size_mb), ("medium", 1500));
    assert!(m.iter().all(|x| !x.available));
}

#[test]
fn settings_read_back() {
    let s = settings_from_stored(Some("4".to_string()), Some("  ".to_string()), Some("/rec".to_string()));
    assert_eq!(s.asr_worker_count, 4);
    assert_eq!(s.whisper_model_path, None);
    assert_eq!(s.recording_dir.as_deref(), Some("/rec"));
    let s = settings_from_stored(Some(" 4".to_string()), None, None);
    assert_eq!(s.asr_worker_count, 2);
    let s = settings_from_stored(None, Some("/m.bin".to_string()), None);
    assert_eq!(s.asr_worker_count, 2);
    assert_eq!(s.whisper_model_path.as_deref(), Some("/m.bin"));
    let (n, m, r) = settings_values(&s);
    assert_eq!((n.as_str(), m.as_str(), r.as_str()), ("2", "/m.bin", ""));
}

#[test]
fn settings_roundtrip_through_storage() {
    let s = settings_from_stored(Some("7".to_string()), Some("/x".to_string()), None);
    let (n, m, r) = settings_values(&s);
    let back = settings_from_stored(Some(n), Some(m), Some(r));
    assert_eq!(back.asr_worker_count, 7);
    assert_eq!(back.whisper_model_path.as_deref(), Some("/x"));
    assert_eq!(back.recording_dir, None);
}

#[test]
fn numbers_parse_like_u32_from_str() {
    assert_eq!(parse_u32("42"), Some(42));
    assert_eq!(parse_u32("+7"), Some(7));
    assert_eq!(parse_u32("4294967295"), Some(u32::MAX));
    assert_eq!(parse_u32("4294967296"), None);
    assert_eq!(parse_u32("-1"), None);
    assert_eq!(parse_u32(""), None);
    assert_eq!(parse_u32("+"), None);
    assert_eq!(parse_u32("1 "), None);
}

#[test]
fn small_decisions() {
    assert_eq!(next_backoff(1), 2);
    assert_eq!(next_backoff(16), 30);
    assert_eq!(next_backoff(30), 30);
    assert!(may_start(true, MAX_SESSIONS));
    assert!(may_start(false, MAX_SESSIONS - 1));
    assert!(!may_start(false, MAX_SESSIONS));
    assert_eq!(clamp_workers(0), 1);
    assert_eq!(clamp_workers(5), 5);
    assert_eq!(clamp_workers(99), 8);
    assert_eq!(log_extension("ADIF"), "adi");
    assert_eq!(log_extension("adi"), "adi");
    assert_eq!(log_extension("csv"), "csv");
    assert_eq!(log_extension("xml"), "csv");
    assert_eq!(nonblank_setting(Some(" \t".to_string())), None);
    assert_eq!(nonblank_setting(Some(" a ".to_string())).as_deref(), Some(" a "));
}

#[test]
fn recordings_and_model_locations() {
    assert_eq!(effective_recordings_dir(Some("/r".to_string()), "/d".to_string()), "/r");
    assert_eq!(effective_recordings_dir(Some(" ".to_string()), "/d".to_string()), "/d");
    assert_eq!(effective_recordings_dir(None, "/d".to_string()), "/d");
    let m = model_status_of(Some("/c.bin".to_string()), true, "/d.bin".to_string(), true);
    assert!(m.present);
    assert_eq!((m.path.as_deref(), m.source.as_str()), (Some("/c.bin"), "custom"));
    let m = model_status_of(Some("/c.bin".to_string()), false, "/d.bin".to_string(), true);
    assert_eq!((m.path.as_deref(), m.source.as_str()), (Some("/d.bin"), "default"));
    let m = model_status_of(None, false, "/d.bin".to_string(), false);
    assert!(!m.present);
    assert_eq!((m.path, m.source.as_str(), m.default_path.as_str()), (None, "none", "/d.bin"));
}

#[test]
fn starred_receivers_come_first() {
    let mk = |id: &str, fav: bool| {
        let mut c = cfg(ReceiverKind::Kiwisdr, "http://h", Lane::Voice, "usb");
        c.id = id.to_string();
        c.favorite = fav;
        c
    };
    let order: Vec<String> = favorites_first(vec![mk("a", false), mk("b", true), mk("c", false), mk("d", true)])
        .into_iter()
        .map(|c| c.id)
        .collect();
    assert_eq!(order, vec!["b", "d", "a", "c"]);
}
