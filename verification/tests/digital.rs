use hamhawk::keyboard::{take_word, word_ready, BaudotReader, MorseReader, VaricodeReader};
use hamhawk::modes::{baudot, char_to_varicode, morse_to_char, varicode_to_char, Ft8Mode, PskRttyMode};
use hamhawk::settings::{decoder_kind, DecoderKind};

#[test]
fn baudot_roundtrip_letters() {
    // 'A' = 0x03 in ITA2.
    assert_eq!(baudot(0x03, false), Some('A'));
    assert_eq!(baudot(0x04, false), Some(' '));
}

#[test]
fn baudot_figures_and_gaps() {
    assert_eq!(baudot(0x01, true), Some('3'));
    assert_eq!(baudot(0x0B, true), Some('\u{7}'));
    assert_eq!(baudot(0x00, false), None);
    assert_eq!(baudot(0x1B, false), None);
    assert_eq!(baudot(0x1F, true), None);
}

#[test]
fn morse_table_lookups() {
    assert_eq!(morse_to_char(".-"), Some('A'));
    assert_eq!(morse_to_char("-----"), Some('0'));
    assert_eq!(morse_to_char("..--.."), Some('?'));
    assert_eq!(morse_to_char("-..-."), Some('/'));
    assert_eq!(morse_to_char("........"), None);
    assert_eq!(morse_to_char(""), None);
}

#[test]
fn varicode_tables_are_inverse() {
    for c in "abcdefghijklmnopqrstuvwxyz ".chars() {
        let bits = char_to_varicode(c).expect("in table");
        assert_eq!(varicode_to_char(bits), Some(c));
        assert!(!bits.contains("00"));
    }
    assert_eq!(char_to_varicode('e'), Some("11"));
    assert_eq!(char_to_varicode('A'), None);
    assert_eq!(varicode_to_char("10"), None);
}

fn feed_varicode(r: &mut VaricodeReader, bits: &str, words: &mut Vec<String>) {
    for b in bits.chars() {
        r.push_bit(b == '1');
        if r.word_ready() {
            if let Some(w) = r.take_word() {
                words.push(w);
            }
        }
    }
}

#[test]
fn varicode_reader_frames_characters() {
    let mut bits = String::from("0000000000");
    for c in "cq test".chars() {
        bits.push_str(char_to_varicode(c).unwrap());
        bits.push_str("00");
    }
    let mut r = VaricodeReader::new();
    let mut words = Vec::new();
    feed_varicode(&mut r, &bits, &mut words);
    assert_eq!(words, vec!["cq".to_string()]);
    assert_eq!(r.take_word(), Some("test".to_string()));
    assert_eq!(r.take_word(), None);
}

#[test]
fn varicode_reader_drops_unknown_symbols() {
    let mut r = VaricodeReader::new();
    let mut words = Vec::new();
    // "110101" is no character: the reader must not guess.
    feed_varicode(&mut r, "11010100110010100", &mut words);
    assert!(words.is_empty());
    assert_eq!(r.take_word(), Some("et".to_string()));
}

#[test]
fn varicode_reader_bounds_unsynced_bits() {
    let mut r = VaricodeReader::new();
    let mut words = Vec::new();
    feed_varicode(&mut r, &"1".repeat(200), &mut words);
    assert!(words.is_empty());
    // The pile of ones was dropped; a clean character still decodes.
    feed_varicode(&mut r, "0011100", &mut words);
    assert_eq!(r.take_word(), Some("o".to_string()));
}

#[test]
fn baudot_reader_shifts() {
    let mut r = BaudotReader::new();
    // T E S T, then FIGS 5 (0x10), LTRS space.
    for code in [0x10u8, 0x01, 0x05, 0x10, 0x1B, 0x10, 0x1F, 0x04] {
        r.decode(code);
    }
    assert!(r.word_ready());
    assert_eq!(r.take_word(), Some("TEST5".to_string()));
    assert!(!r.word_ready());
    r.decode(0x10);
    assert_eq!(r.take_word(), Some("T".to_string()));
}

#[test]
fn morse_reader_builds_words() {
    let mut r = MorseReader::new();
    let key = |r: &mut MorseReader, code: &str| {
        for e in code.chars() {
            r.push_element(e == '-');
        }
    };
    for (i, code) in [".--.", ".-", ".-.", "..", "..."].iter().enumerate() {
        key(&mut r, code);
        r.gap(i == 4);
    }
    key(&mut r, "-.-.");
    r.gap(false);
    key(&mut r, "--.-");
    assert_eq!(r.take_word(), Some("PARIS CQ".to_string()));
    assert_eq!(r.take_word(), None);
}

#[test]
fn morse_reader_skips_unknown_and_double_spaces() {
    let mut r = MorseReader::new();
    r.gap(true);
    for _ in 0..9 {
        r.push_element(false);
    }
    r.gap(true);
    r.gap(true);
    r.push_element(false);
    r.gap(true);
    r.gap(true);
    assert_eq!(r.take_word(), Some("E".to_string()));
}

#[test]
fn word_helpers() {
    assert!(word_ready("abc "));
    assert!(word_ready("abcdefgh"));
    assert!(!word_ready("abcdefg"));
    assert!(!word_ready(""));
    let mut w = String::from("  hi  ");
    assert_eq!(take_word(&mut w), Some("hi".to_string()));
    assert!(w.is_empty());
    let mut w = String::from("   ");
    assert_eq!(take_word(&mut w), None);
}

#[test]
fn mode_labels() {
    assert_eq!(Ft8Mode::Ft8.label(), "FT8");
    assert_eq!(Ft8Mode::Ft4.label(), "FT4");
    assert!(Ft8Mode::Ft4.is_ft4());
    assert!(!Ft8Mode::Ft8.is_ft4());
    assert!(PskRttyMode::Psk31 != PskRttyMode::Rtty);
    assert_eq!(Ft8Mode::Ft8.slot_samples(12000), 180_000);
    assert_eq!(Ft8Mode::Ft4.slot_samples(12000), 90_000);
    assert_eq!(Ft8Mode::Ft4.slot_samples(11025), 82_687);
}

#[test]
fn decoders_per_mode() {
    assert_eq!(decoder_kind("ft8"), DecoderKind::Ft8);
    assert_eq!(decoder_kind("ft4"), DecoderKind::Ft4);
    assert_eq!(decoder_kind("cw"), DecoderKind::Cw);
    assert_eq!(decoder_kind("psk31"), DecoderKind::Psk31);
    assert_eq!(decoder_kind("rtty"), DecoderKind::Rtty);
    assert_eq!(decoder_kind("olivia"), DecoderKind::Cw);
}
