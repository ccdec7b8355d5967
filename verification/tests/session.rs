use hamhawk::alerts::alert_hits;
use hamhawk::model::AlertRule;
use hamhawk::paths::{home_data_dir, join_path, models_dir};
use hamhawk::pool::{Dispatcher, DownloadProgress, TelemetryThrottle};
use hamhawk::routing::Routing;
use hamhawk::tap::{
    audio_chunk, is_safe_recording_dir, pcm_le_bytes, record_step, recording_file_name, sanitize_name, RecordStep,
};

fn rule(id: &str, pattern: &str, enabled: bool) -> AlertRule {
    AlertRule { id: id.to_string(), name: format!("rule {id}"), pattern: pattern.to_string(), enabled }
}

// ---- routing ----

#[test]
fn monitors_only_follow_running_receivers() {
    let mut r = Routing::new();
    r.set_monitor(Some("a".to_string()));
    assert!(!r.is_monitored("a"));
    r.session_started("a");
    r.set_monitor(Some("a".to_string()));
    assert!(r.is_monitored("a"));
    r.set_monitor(Some("ghost".to_string()));
    assert!(r.is_monitored("a"));
    r.session_started("b");
    r.set_monitor_sub(Some("b".to_string()));
    assert!(r.is_monitored("b"));
    r.set_monitor(None);
    assert!(!r.is_monitored("a"));
    assert!(r.is_monitored("b"));
}

#[test]
fn sets_hold_each_id_once() {
    let mut r = Routing::new();
    r.start_recording("a");
    r.start_recording("a");
    r.start_recording("b");
    assert_eq!(r.recording_ids().len(), 2);
    r.stop_recording("a");
    assert!(!r.is_recording("a"));
    assert!(r.is_recording("b"));
    r.set_watched(vec!["x".to_string(), "y".to_string(), "x".to_string()]);
    assert!(r.is_watched("x") && r.is_watched("y") && !r.is_watched("z"));
    r.session_started("s");
    r.session_started("s");
    assert_eq!(r.running_ids(), vec!["s".to_string()]);
    assert!(r.session_stopped("s"));
    assert!(!r.session_stopped("s"));
    assert!(!r.is_running("s"));
}

#[test]
fn at_most_eight_run() {
    let mut r = Routing::new();
    for i in 0..8 {
        assert!(r.try_start(&format!("rx{i}")).is_ok());
    }
    assert_eq!(
        r.try_start("rx8"),
        Err("at the 8-receiver limit \u{2014} stop one before starting another".to_string())
    );
    assert!(!r.is_running("rx8"));
    // Restarting a running receiver is always allowed.
    assert!(r.try_start("rx3").is_ok());
    assert_eq!(r.running_ids().len(), 8);
    r.session_stopped("rx0");
    assert!(r.may_start("rx8"));
    assert!(r.try_start("rx8").is_ok());
}

// ---- alerts ----

#[test]
fn alerts_match_case_insensitively() {
    let rules = vec![rule("1", "MAYDAY", true), rule("2", "", true), rule("3", "pan", false), rule("4", "dl7", true)];
    let hits = alert_hits("Mayday mayday, this is DL7ABC pan", "rx1", 42, &rules);
    assert_eq!(hits.len(), 2);
    assert_eq!(hits[0].rule_id, "1");
    assert_eq!(hits[0].rule_name, "rule 1");
    assert_eq!(hits[1].rule_id, "4");
    assert_eq!(hits[1].receiver_id, "rx1");
    assert_eq!(hits[1].ts_ms, 42);
    assert_eq!(hits[1].text, "Mayday mayday, this is DL7ABC pan");
    assert!(alert_hits("nothing here", "rx1", 0, &rules).is_empty());
    // Unicode lower case, not only ASCII.
    let hits = alert_hits("ÉCOUTE", "rx", 0, &[rule("5", "écoute", true)]);
    assert_eq!(hits.len(), 1);
}

// ---- tap ----

#[test]
fn monitored_audio_is_base64_pcm() {
    assert_eq!(pcm_le_bytes(&[1, -1, 256]), vec![1, 0, 0xff, 0xff, 0, 1]);
    let c = audio_chunk("rx1", 12000, &[1, -1, 256]);
    assert_eq!(c.receiver_id, "rx1");
    assert_eq!(c.sample_rate, 12000);
    assert_eq!(c.pcm_b64, "AQD//wAB");
    assert_eq!(audio_chunk("rx1", 12000, &[]).pcm_b64, "");
    // Padding: two bytes end in one '=', four bytes in two.
    assert_eq!(audio_chunk("rx1", 12000, &[1]).pcm_b64, "AQA=");
    assert_eq!(audio_chunk("rx1", 12000, &[1, 2]).pcm_b64, "AQACAA==");
    assert_eq!(audio_chunk("rx1", 12000, &[-2, 0x3e7f, 0x7f]).pcm_b64, "/v9/Pn8A");
}

#[test]
fn recording_steps() {
    assert_eq!(record_step(true, false), RecordStep::Open);
    assert_eq!(record_step(true, true), RecordStep::Write);
    assert_eq!(record_step(false, true), RecordStep::Close);
    assert_eq!(record_step(false, false), RecordStep::Idle);
}

#[test]
fn recording_names_are_safe() {
    assert_eq!(sanitize_name("W3ILT proxy / 40m"), "W3ILT_proxy___40m");
    assert_eq!(sanitize_name("__"), "rx");
    assert_eq!(sanitize_name("  kiwi  "), "kiwi");
    assert_eq!(sanitize_name(&"a".repeat(60)).len(), 48);
    assert_eq!(sanitize_name("héllo"), "h_llo");
    assert_eq!(recording_file_name("My Kiwi", "20240305-060708"), "My_Kiwi-20240305-060708.wav");
}

#[test]
fn recording_folders_must_be_absolute_and_plain() {
    assert!(is_safe_recording_dir("/home/op/recordings"));
    assert!(is_safe_recording_dir("/home/op/..x/a"));
    assert!(!is_safe_recording_dir("recordings"));
    assert!(!is_safe_recording_dir("/home/op/../etc"));
    assert!(!is_safe_recording_dir("/home/op/.."));
    assert!(!is_safe_recording_dir(""));
}

// ---- paths ----

#[test]
fn data_locations() {
    assert_eq!(home_data_dir(Some("/home/op")), "/home/op/.hamhawk");
    assert_eq!(home_data_dir(Some("/")), "/.hamhawk");
    assert_eq!(home_data_dir(None), "./.hamhawk");
    assert_eq!(models_dir("/home/op/.hamhawk"), "/home/op/.hamhawk/models");
    assert_eq!(join_path("", "x"), "x");
    assert_eq!(join_path("/a/", "x"), "/a/x");
}

// ---- pacing ----

#[test]
fn jobs_go_round_robin() {
    let mut d = Dispatcher::new(3);
    let targets: Vec<usize> = (0..7).map(|_| d.target()).collect();
    assert_eq!(targets, vec![0, 1, 2, 0, 1, 2, 0]);
    let mut one = Dispatcher::new(0);
    assert_eq!((one.target(), one.target()), (0, 0));
}

#[test]
fn drops_warn_at_first_and_every_tenth() {
    let mut d = Dispatcher::new(2);
    let mut warns: Vec<u64> = Vec::new();
    for _ in 0..30 {
        if d.record_drop() {
            warns.push(d.dropped());
        }
    }
    assert_eq!(warns, vec![1, 10, 20, 30]);
}

#[test]
fn meter_readings_are_paced() {
    let mut t = TelemetryThrottle::new();
    assert_eq!(t.on_reading(1000, 5), (true, true));
    assert_eq!(t.on_reading(1100, 5), (false, false));
    assert_eq!(t.on_reading(1250, 6), (true, false));
    assert_eq!(t.on_reading(6000, 6), (true, true));
    assert_eq!(t.on_reading(12000, 6), (true, false));
    assert_eq!(t.on_reading(12100, 7), (false, true));
}

#[test]
fn download_progress_is_reported_in_steps() {
    let mut p = DownloadProgress::new();
    assert!(!p.on_bytes(1_000_000));
    assert!(!p.on_bytes(1_000_000));
    assert!(p.on_bytes(1));
    assert_eq!(p.received(), 2_000_001);
    assert!(!p.on_bytes(2_000_000));
    assert!(p.on_bytes(1));
}
