use hamhawk::adpcm::{decode, ImaAdpcm};
use hamhawk::owrx_adpcm::OwrxAdpcm;
use hamhawk::segment::{
    rate_plan, RatePlan, Segmenter, SlotBuffer, FRAME_SAMPLES, MIN_SAMPLES, SILENCE_LIMIT_FRAMES,
};

fn frame() -> Vec<f32> {
    vec![0.1f32; FRAME_SAMPLES]
}

// ---- KiwiSDR IMA-ADPCM ----

#[test]
fn test_decode_length() {
    // 10 bytes -> 20 samples (2 nibbles each).
    let data = vec![0x80u8; 10];
    let result = decode(&data);
    assert_eq!(result.len(), 20);
}

#[test]
fn test_decode_all_zero_is_silent() {
    let data = vec![0x00u8; 64];
    let result = decode(&data);
    for &s in &result {
        let v = s as f32 / 32768.0;
        assert!(v.abs() < 0.05, "silent sample drifted too far: {}", v);
    }
}

#[test]
fn test_index_clamped() {
    // Repeated max-magnitude codes must not panic (index stays in 0..=88).
    let data = vec![0x77u8; 256];
    let _ = decode(&data);
}

#[test]
fn ima_decodes_known_values() {
    // Low nibble 7 from step 7: 7/8 + 7/4 + 7/2 + 7 = 0 + 1 + 3 + 7 = 11;
    // then index 8 (step 16), nibble 0: +2.
    assert_eq!(decode(&[0x07]), vec![11, 13]);
    // A code with the sign bit subtracts; the next nibble 0 adds 16/8.
    assert_eq!(decode(&[0x0F]), vec![-11, -9]);
}

#[test]
fn ima_state_carries_across_frames() {
    let data = [0x07u8, 0x42, 0x9c, 0x31, 0x00, 0xf7];
    let whole = decode(&data);
    let mut d = ImaAdpcm::new();
    let mut parts = d.decode(&data[..2]);
    parts.extend(d.decode(&data[2..5]));
    parts.extend(d.decode(&data[5..]));
    assert_eq!(parts, whole);
}

#[test]
fn ima_predictor_saturates() {
    let data = vec![0x77u8; 256];
    let out = decode(&data);
    assert_eq!(*out.last().unwrap(), 32767);
}

// ---- OpenWebRX ADPCM with sync ----

#[test]
fn adpcm_sync_framing_decodes_after_marker() {
    let mut data = Vec::new();
    data.extend_from_slice(b"SYNC");
    data.extend_from_slice(&0i16.to_le_bytes()); // stepIndex
    data.extend_from_slice(&0i16.to_le_bytes()); // predictor
    data.extend_from_slice(&[0x00, 0x11, 0x22]); // 6 nibbles of audio
    let mut codec = OwrxAdpcm::new();
    let out = codec.decode_with_sync(&data);
    assert_eq!(out.len(), 6, "expected 2 samples per data byte after sync");
}

#[test]
fn adpcm_ignores_bytes_before_sync() {
    let mut data = vec![0xAA, 0xBB, 0xCC]; // junk, no SYNC
    data.extend_from_slice(&[0x00, 0x11]);
    let mut codec = OwrxAdpcm::new();
    assert!(codec.decode_with_sync(&data).is_empty());
}

#[test]
fn owrx_decodes_known_values() {
    // The step starts at 0 and follows the index after each sample.
    let mut data = Vec::new();
    data.extend_from_slice(b"SYNC");
    data.extend_from_slice(&[0, 0, 0, 0]);
    data.extend_from_slice(&[0x00, 0x11, 0x22]);
    let mut codec = OwrxAdpcm::new();
    assert_eq!(codec.decode_with_sync(&data), vec![0, 0, 1, 2, 5, 8]);
}

#[test]
fn owrx_header_sets_predictor() {
    let mut data = Vec::new();
    data.extend_from_slice(b"SYNC");
    data.extend_from_slice(&5i16.to_le_bytes());
    data.extend_from_slice(&(-100i16).to_le_bytes());
    data.push(0x00);
    let mut codec = OwrxAdpcm::new();
    assert_eq!(codec.decode_with_sync(&data), vec![-100, -99]);
}

#[test]
fn owrx_streaming_matches_whole() {
    let mut data = Vec::new();
    data.extend_from_slice(b"xxSYNC");
    data.extend_from_slice(&[3, 0, 10, 0]);
    data.extend_from_slice(&[0x17, 0x92, 0x45, 0xee, 0x01]);
    let mut a = OwrxAdpcm::new();
    let whole = a.decode_with_sync(&data);
    let mut b = OwrxAdpcm::new();
    let mut parts = Vec::new();
    for chunk in data.chunks(3) {
        parts.extend(b.decode_with_sync(chunk));
    }
    assert_eq!(parts, whole);
    assert_eq!(whole.len(), 10);
}

#[test]
fn owrx_resyncs_after_block() {
    // After 1001 data bytes the decoder looks for the next marker again.
    let mut data = Vec::new();
    data.extend_from_slice(b"SYNC");
    data.extend_from_slice(&[0, 0, 0, 0]);
    data.extend(std::iter::repeat(0u8).take(1001));
    data.extend_from_slice(&[0x11, 0x11]);
    let mut codec = OwrxAdpcm::new();
    assert_eq!(codec.decode_with_sync(&data).len(), 2002);
}

// ---- segmenter ----

#[test]
fn short_burst_is_discarded() {
    let mut seg = Segmenter::new();
    for _ in 0..10 {
        seg.push(&frame(), true, 0);
    }
    for _ in 0..SILENCE_LIMIT_FRAMES {
        seg.push(&frame(), false, 0);
    }
    assert!(seg.try_emit().is_none());
}

#[test]
fn long_speech_then_silence_emits() {
    let mut seg = Segmenter::new();
    for i in 0..100 {
        seg.push(&frame(), true, i);
    }
    for _ in 0..SILENCE_LIMIT_FRAMES {
        seg.push(&frame(), false, 100);
    }
    let out = seg.try_emit().expect("segment should emit");
    assert!(out.samples.len() >= MIN_SAMPLES);
    assert_eq!(out.ts_start, 0);
    assert_eq!(out.ts_end, 100);
}

#[test]
fn ts_start_precedes_ts_end() {
    let mut seg = Segmenter::new();
    for i in 0..100 {
        seg.push(&frame(), true, i * 10);
    }
    for _ in 0..SILENCE_LIMIT_FRAMES {
        seg.push(&frame(), false, 2000);
    }
    let out = seg.try_emit().unwrap();
    assert!(out.ts_start < out.ts_end);
}

#[test]
fn segment_is_the_frames_fed_in_order() {
    let mut seg = Segmenter::new();
    let mut expected = Vec::new();
    for i in 0..70i64 {
        let f = vec![i as i16; FRAME_SAMPLES];
        expected.extend_from_slice(&f);
        seg.push(&f, true, 1000 + i);
    }
    for i in 0..SILENCE_LIMIT_FRAMES as i64 {
        let f = vec![-1i16; FRAME_SAMPLES];
        expected.extend_from_slice(&f);
        seg.push(&f, false, 2000 + i);
    }
    let out = seg.try_emit().unwrap();
    assert_eq!(out.samples, expected);
    assert_eq!(out.ts_start, 1000);
    assert_eq!(out.ts_end, 2000 + SILENCE_LIMIT_FRAMES as i64 - 1);
    // Back to idle: nothing more comes out.
    assert!(seg.try_emit().is_none());
}

#[test]
fn open_segment_is_not_emitted_early() {
    let mut seg = Segmenter::new();
    for i in 0..100 {
        seg.push(&frame(), true, i);
    }
    for _ in 0..SILENCE_LIMIT_FRAMES - 1 {
        seg.push(&frame(), false, 100);
    }
    assert!(seg.try_emit().is_none());
    seg.push(&frame(), false, 100);
    assert!(seg.try_emit().is_some());
}

#[test]
fn silence_outside_speech_is_ignored() {
    let mut seg = Segmenter::new();
    for _ in 0..200 {
        seg.push(&frame(), false, 5);
    }
    assert!(seg.try_emit().is_none());
}

#[test]
fn long_speech_is_cut_at_max() {
    let mut seg: Segmenter<u8> = Segmenter::new();
    let f = vec![1u8; FRAME_SAMPLES];
    let mut emitted = None;
    for i in 0..2000 {
        seg.push(&f, true, i);
        if let Some(s) = seg.try_emit() {
            emitted = Some(s);
            break;
        }
    }
    let s = emitted.expect("a capped segment");
    assert_eq!(s.samples.len(), 400000);
}

// ---- slot windows ----

#[test]
fn slot_windows_carry_start_time() {
    let mut b: SlotBuffer<i16> = SlotBuffer::new();
    assert!(b.push(&[1, 2, 3], 100, 4).is_empty());
    let out = b.push(&[4, 5, 6, 7, 8, 9, 10, 11, 12], 200, 4);
    assert_eq!(out.len(), 3);
    assert_eq!(out[0], (vec![1, 2, 3, 4], 100));
    assert_eq!(out[1], (vec![5, 6, 7, 8], 200));
    assert_eq!(out[2], (vec![9, 10, 11, 12], 200));
    let out = b.push(&[13, 14, 15, 16], 300, 4);
    assert_eq!(out, vec![(vec![13, 14, 15, 16], 300)]);
}

#[test]
fn slot_zero_takes_nothing() {
    let mut b: SlotBuffer<u8> = SlotBuffer::new();
    assert!(b.push(&[1, 2, 3], 7, 0).is_empty());
    let out = b.push(&[4], 9, 2);
    assert_eq!(out, vec![(vec![1, 2], 7), (vec![3, 4], 9)]);
}

#[test]
fn resampling_plans() {
    assert_eq!(rate_plan(0, false, 12000), RatePlan::Build);
    assert_eq!(rate_plan(12000, true, 12000), RatePlan::Keep);
    assert_eq!(rate_plan(12000, true, 48000), RatePlan::Build);
    assert_eq!(rate_plan(12000, true, 16000), RatePlan::PassThrough);
    assert_eq!(rate_plan(16000, false, 16000), RatePlan::Keep);
    assert_eq!(rate_plan(0, false, 0), RatePlan::Keep);
    assert_eq!(rate_plan(12000, true, 0), RatePlan::PassThrough);
}
