use hamhawk::logbook::{
    adif_band, adif_field, csv_escape, export_adif, export_csv, find_callsign, find_grid, log_file_name, log_rows,
    mhz_string,
    LogEntry, StationMeta,
};
use hamhawk::model::Lane;

fn entry(ts: i64, rid: &str, lane: Lane, mode: &str, text: &str, snr: Option<&str>) -> LogEntry {
    LogEntry {
        ts_start: ts,
        receiver_id: rid.to_string(),
        lane,
        mode: mode.to_string(),
        text_en: text.to_string(),
        snr_text: snr.map(|s| s.to_string()),
    }
}

fn kiwi() -> Vec<StationMeta> {
    vec![StationMeta { id: "rx1".to_string(), freq_hz: 14_074_000, label: "Kiwi".to_string() }]
}

#[test]
fn callsigns_are_found() {
    assert_eq!(find_callsign("cq dl7abc jo62"), Some("DL7ABC".to_string()));
    assert_eq!(find_callsign("K1ABC de W3ILT"), Some("K1ABC".to_string()));
    assert_eq!(find_callsign("/vk2def/ 73"), Some("VK2DEF".to_string()));
    assert_eq!(find_callsign("hello world 73"), None);
    assert_eq!(find_callsign("ABC1DEF"), None);
    assert_eq!(find_callsign("W1ABCDE"), None);
    // At most three letters after the digit.
    assert_eq!(find_callsign("CQ W1ABCD FN42"), None);
    assert_eq!(find_callsign("CQ W1ABCD K1ABC"), Some("K1ABC".to_string()));
    assert_eq!(find_callsign(""), None);
}

#[test]
fn grids_are_found() {
    assert_eq!(find_grid("cq dl7abc jo62"), Some("JO62".to_string()));
    assert_eq!(find_grid("fn20xr here"), Some("FN20xr".to_string()));
    assert_eq!(find_grid("ZZ99 SS12"), None);
    assert_eq!(find_grid("AA11zz"), None);
    assert_eq!(find_grid("RR73"), Some("RR73".to_string()));
}

#[test]
fn bands() {
    assert_eq!(adif_band(137_500), "2190m");
    assert_eq!(adif_band(1_800_000), "160m");
    assert_eq!(adif_band(2_000_000), "");
    assert_eq!(adif_band(7_074_000), "40m");
    assert_eq!(adif_band(10_100_000), "30m");
    assert_eq!(adif_band(10_150_000), "");
    assert_eq!(adif_band(14_074_000), "20m");
    assert_eq!(adif_band(145_500_000), "2m");
    assert_eq!(adif_band(0), "");
}

#[test]
fn field_formatting() {
    assert_eq!(adif_field("CALL", "K1ABC"), "<CALL:5>K1ABC");
    assert_eq!(adif_field("CALL", ""), "");
    assert_eq!(adif_field("COMMENT", "é"), "<COMMENT:2>é");
    assert_eq!(csv_escape("plain"), "plain");
    assert_eq!(csv_escape("a,b"), "\"a,b\"");
    assert_eq!(csv_escape("say \"hi\""), "\"say \"\"hi\"\"\"");
    assert_eq!(csv_escape("two\nlines"), "\"two\nlines\"");
    assert_eq!(mhz_string(14_074_000), "14.074000");
    assert_eq!(mhz_string(137_500), "0.137500");
    assert_eq!(mhz_string(1), "0.000001");
}

#[test]
fn adif_export() {
    let rows = vec![entry(0, "rx1", Lane::Digital, "ft8", " CQ DL7ABC JO62 ", Some("-12"))];
    let out = export_adif(&rows, &kiwi());
    let expected = [
        "ADIF export from HamHawk \u{2014} received/decoded traffic (monitoring log, not 2-way QSOs).\n",
        "<ADIF_VER:5>3.1.4<PROGRAMID:7>HamHawk<EOH>\n",
        "<QSO_DATE:8>19700101<TIME_ON:6>000000<CALL:6>DL7ABC<GRIDSQUARE:4>JO62<MODE:3>FT8",
        "<FREQ:9>14.074000<BAND:3>20m<APP_HAMHAWK_SNR:3>-12<COMMENT:14>CQ DL7ABC JO62<EOR>\n",
    ]
    .join("");
    assert_eq!(out, expected);
}

#[test]
fn adif_export_unknown_station_and_date() {
    // 2024-03-05 06:07:08.900 UTC, station not in the list: no frequency, no band.
    let rows = vec![entry(1_709_618_828_900, "gone", Lane::Voice, "usb", "hello", None)];
    let out = export_adif(&rows, &kiwi());
    assert!(out.ends_with("<QSO_DATE:8>20240305<TIME_ON:6>060708<MODE:3>USB<COMMENT:5>hello<EOR>\n"));
}

#[test]
fn csv_export() {
    let rows = vec![
        entry(0, "rx1", Lane::Digital, "ft8", "CQ DL7ABC JO62", Some("-12")),
        entry(60_000, "other", Lane::Voice, "usb", "say \"hi\", ok", None),
    ];
    let out = export_csv(&rows, &kiwi());
    let expected = [
        "timestamp_utc,station,freq_mhz,mode,lane,snr_db,callsign,grid,text\n",
        "1970-01-01 00:00:00,Kiwi,14.074000,ft8,digital,-12,DL7ABC,JO62,CQ DL7ABC JO62\n",
        "1970-01-01 00:01:00,other,,usb,voice,,,,\"say \"\"hi\"\", ok\"\n",
    ]
    .join("");
    assert_eq!(out, expected);
}

#[test]
fn empty_exports_are_headers() {
    assert_eq!(export_csv(&[], &[]), "timestamp_utc,station,freq_mhz,mode,lane,snr_db,callsign,grid,text\n");
    assert!(export_adif(&[], &[]).ends_with("<EOH>\n"));
}

#[test]
fn log_rows_filter_and_sort_stably() {
    let rows = vec![
        entry(30, "a", Lane::Voice, "usb", "v30", None),
        entry(10, "a", Lane::Digital, "ft8", "d10", None),
        entry(20, "a", Lane::Digital, "ft8", "d20-first", None),
        entry(20, "a", Lane::Voice, "usb", "v20", None),
        entry(20, "a", Lane::Digital, "ft8", "d20-second", None),
    ];
    let all: Vec<String> = log_rows(rows, false).into_iter().map(|e| e.text_en).collect();
    assert_eq!(all, vec!["d10", "d20-first", "v20", "d20-second", "v30"]);

    let rows = vec![
        entry(30, "a", Lane::Voice, "usb", "v30", None),
        entry(20, "a", Lane::Digital, "ft8", "d20", None),
        entry(10, "a", Lane::Digital, "ft8", "d10", None),
    ];
    let digital: Vec<String> = log_rows(rows, true).into_iter().map(|e| e.text_en).collect();
    assert_eq!(digital, vec!["d10", "d20"]);
}

#[test]
fn export_file_names() {
    assert_eq!(log_file_name("20240305-060708", "adi"), "hamhawk-log-20240305-060708.adi");
}
