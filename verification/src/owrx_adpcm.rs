//! The IMA-ADPCM codec that OpenWebRX uses for its audio stream, with periodic
//! re-synchronisation.
//!
//! The byte stream is searched for the marker `SYNC`; the next four bytes carry
//! the step index and the predictor (each a little-endian i16). Then 1001 bytes
//! of ADPCM data follow (two samples per byte, low nibble first), after which
//! the decoder goes back to searching for the next marker. Unlike the KiwiSDR
//! decoder, each sample is computed from the step size of the previous sample,
//! and the step size is not touched by a re-synchronisation.

use vstd::prelude::*;
use crate::adpcm::{STEP_TABLE, INDEX_TABLE, clamp, code_diff, index_delta, step_size};

verus! {

/// The four bytes of the re-synchronisation marker.
pub const SYNC_WORD: [u8; 4] = [83, 89, 78, 67];

/// The abstract state of the decoder.
pub struct OwrxState {
    pub step_index: int,
    pub predictor: int,
    /// Step size used for the next sample.
    pub step: int,
    /// How many bytes of the marker have been matched so far.
    pub synchronized: int,
    /// 0: searching for the marker; 1: reading the 4 header bytes; 2: decoding.
    pub phase: int,
    pub sync_buf: Seq<u8>,
    pub sync_idx: int,
    pub sync_counter: int,
}

/// The signed 16-bit value of the little-endian byte pair `(lo, hi)`.
pub open spec fn le_i16(lo: u8, hi: u8) -> int {
    let u = lo as int + 256 * (hi as int);
    if u >= 32768 { u - 65536 } else { u }
}

/// One sample: the index moves first, the difference is taken from the
/// current step size, and the step size then follows the new index.
pub open spec fn owrx_nibble(s: OwrxState, code: u8) -> OwrxState {
    let idx = clamp(s.step_index + index_delta((code & 15) as int), 0, 88);
    let diff = code_diff(s.step, code);
    let d = if code & 8 != 0 { -diff } else { diff };
    OwrxState {
        step_index: idx,
        predictor: clamp(s.predictor + d, -32768, 32767),
        step: step_size(idx),
        ..s
    }
}

/// One input byte: the new state and the samples it yields (none or two).
pub open spec fn owrx_byte(s: OwrxState, b: u8) -> (OwrxState, Seq<i16>) {
    if s.phase == 0 {
        let matched = b == SYNC_WORD@[s.synchronized];
        let k = if matched { s.synchronized + 1 } else { 0 };
        if k == 4 {
            (OwrxState { synchronized: k, sync_idx: 0, phase: 1, ..s }, Seq::empty())
        } else {
            (OwrxState { synchronized: k, ..s }, Seq::empty())
        }
    } else if s.phase == 1 {
        let buf = s.sync_buf.update(s.sync_idx, b);
        let j = s.sync_idx + 1;
        if j == 4 {
            (OwrxState {
                sync_buf: buf,
                sync_idx: j,
                step_index: clamp(le_i16(buf[0], buf[1]), 0, 88),
                predictor: le_i16(buf[2], buf[3]),
                sync_counter: 1000,
                phase: 2,
                ..s
            }, Seq::empty())
        } else {
            (OwrxState { sync_buf: buf, sync_idx: j, ..s }, Seq::empty())
        }
    } else {
        let s1 = owrx_nibble(s, b & 15);
        let s2 = owrx_nibble(s1, b >> 4);
        let out = seq![s1.predictor as i16, s2.predictor as i16];
        if s.sync_counter == 0 {
            (OwrxState { sync_counter: -1, synchronized: 0, phase: 0, ..s2 }, out)
        } else {
            (OwrxState { sync_counter: s.sync_counter - 1, ..s2 }, out)
        }
    }
}

/// Decoding a run of bytes: the final state and all samples, in order.
pub open spec fn owrx_run(s: OwrxState, data: Seq<u8>) -> (OwrxState, Seq<i16>)
    decreases data.len(),
{
    if data.len() == 0 {
        (s, Seq::empty())
    } else {
        let prev = owrx_run(s, data.drop_last());
        let last = owrx_byte(prev.0, data.last());
        (last.0, prev.1 + last.1)
    }
}

pub open spec fn owrx_valid(s: OwrxState) -> bool {
    &&& 0 <= s.step_index <= 88
    &&& -32768 <= s.predictor <= 32767
    &&& 0 <= s.step <= 32767
    &&& 0 <= s.synchronized <= 4
    &&& (s.phase == 0 ==> s.synchronized < 4)
    &&& 0 <= s.phase <= 2
    &&& s.sync_buf.len() == 4
    &&& 0 <= s.sync_idx <= 4
    &&& (s.phase == 1 ==> s.sync_idx < 4)
    &&& -1 <= s.sync_counter <= 1000
    &&& (s.phase == 2 ==> s.sync_counter >= 0)
}

/// The state of a fresh decoder: searching for a marker, everything zero.
pub open spec fn owrx_initial() -> OwrxState {
    OwrxState {
        step_index: 0,
        predictor: 0,
        step: 0,
        synchronized: 0,
        phase: 0,
        sync_buf: seq![0u8, 0u8, 0u8, 0u8],
        sync_idx: 0,
        sync_counter: 0,
    }
}

/// OpenWebRX's IMA-ADPCM decoder with re-synchronisation.
pub struct OwrxAdpcm {
    step_index: i32,
    predictor: i32,
    step: i32,
    synchronized: usize,
    phase: u8,
    sync_buf: [u8; 4],
    sync_idx: usize,
    sync_counter: i32,
}

impl View for OwrxAdpcm {
    type V = OwrxState;

    closed spec fn view(&self) -> OwrxState {
        OwrxState {
            step_index: self.step_index as int,
            predictor: self.predictor as int,
            step: self.step as int,
            synchronized: self.synchronized as int,
            phase: self.phase as int,
            sync_buf: self.sync_buf@,
            sync_idx: self.sync_idx as int,
            sync_counter: self.sync_counter as int,
        }
    }
}

impl OwrxAdpcm {
    #[verifier::type_invariant]
    spec fn inv(self) -> bool {
        owrx_valid(self@)
    }

    /// A decoder searching for its first marker.
    pub fn new() -> (d: Self)
        ensures
            d@ == owrx_initial(),
    {
        let d = OwrxAdpcm {
            step_index: 0,
            predictor: 0,
            step: 0,
            synchronized: 0,
            phase: 0,
            sync_buf: [0; 4],
            sync_idx: 0,
            sync_counter: 0,
        };
        assert(d.sync_buf@ =~= seq![0u8, 0u8, 0u8, 0u8]);
        d
    }

    fn decode_nibble(&mut self, code: u8) -> (sample: i16)
        requires
            code < 16,
        ensures
            final(self)@ == owrx_nibble(old(self)@, code),
            sample as int == final(self)@.predictor,
    {
        proof {
            use_type_invariant(&*self);
        }
        assert(code & 15 == code) by (bit_vector)
            requires
                code < 16,
        ;
        let mut idx = self.step_index + INDEX_TABLE[code as usize];
        if idx < 0 {
            idx = 0;
        } else if idx > 88 {
            idx = 88;
        }
        let step = self.step;
        let mut diff = step / 8;
        if code & 1 != 0 {
            diff += step / 4;
        }
        if code & 2 != 0 {
            diff += step / 2;
        }
        if code & 4 != 0 {
            diff += step;
        }
        if code & 8 != 0 {
            diff = -diff;
        }
        let mut pred = self.predictor + diff;
        if pred < -32768 {
            pred = -32768;
        } else if pred > 32767 {
            pred = 32767;
        }
        self.step_index = idx;
        self.predictor = pred;
        self.step = STEP_TABLE[idx as usize];
        pred as i16
    }

    fn decode_byte(&mut self, b: u8, out: &mut Vec<i16>)
        ensures
            final(self)@ == owrx_byte(old(self)@, b).0,
            final(out)@ == old(out)@ + owrx_byte(old(self)@, b).1,
    {
        proof {
            use_type_invariant(&*self);
        }
        let ghost s0 = self@;
        if self.phase == 0 {
            let matched = b == SYNC_WORD[self.synchronized];
            let k = if matched { self.synchronized + 1 } else { 0 };
            if k == 4 {
                *self = OwrxAdpcm { synchronized: k, sync_idx: 0, phase: 1, ..*self };
            } else {
                *self = OwrxAdpcm { synchronized: k, ..*self };
            }
            assert(old(out)@ + Seq::<i16>::empty() == old(out)@);
        } else if self.phase == 1 {
            let j = self.sync_idx;
            let mut buf = self.sync_buf;
            buf[j] = b;
            if j + 1 == 4 {
                let raw_index = le_i16_exec(buf[0], buf[1]);
                let pred = le_i16_exec(buf[2], buf[3]);
                let idx = if raw_index < 0 { 0 } else if raw_index > 88 { 88 } else { raw_index };
                *self = OwrxAdpcm {
                    sync_buf: buf,
                    sync_idx: j + 1,
                    step_index: idx,
                    predictor: pred,
                    sync_counter: 1000,
                    phase: 2,
                    ..*self
                };
            } else {
                *self = OwrxAdpcm { sync_buf: buf, sync_idx: j + 1, ..*self };
            }
            assert(self@.sync_buf =~= s0.sync_buf.update(j as int, b));
            assert(old(out)@ + Seq::<i16>::empty() == old(out)@);
        } else {
            let lo = b & 15;
            let hi = b >> 4;
            assert(lo < 16 && hi < 16) by (bit_vector)
                requires
                    lo == b & 15,
                    hi == b >> 4,
            ;
            let c = self.sync_counter;
            let x = self.decode_nibble(lo);
            out.push(x);
            let y = self.decode_nibble(hi);
            out.push(y);
            if c == 0 {
                *self = OwrxAdpcm { sync_counter: -1, synchronized: 0, phase: 0, ..*self };
            } else {
                *self = OwrxAdpcm { sync_counter: c - 1, ..*self };
            }
            assert(out@ =~= old(out)@ + seq![x, y]);
        }
    }

    /// Decode a chunk of the stream, continuing from the decoder's state.
    /// Bytes before a marker, the marker and its header yield no samples.
    pub fn decode_with_sync(&mut self, data: &[u8]) -> (out: Vec<i16>)
        ensures
            (final(self)@, out@) == owrx_run(old(self)@, data@),
    {
        let mut out: Vec<i16> = Vec::new();
        let mut i: usize = 0;
        while i < data.len()
            invariant
                i <= data@.len(),
                (self@, out@) == owrx_run(old(self)@, data@.take(i as int)),
            decreases data@.len() - i,
        {
            proof {
                let t1 = data@.take(i + 1);
                assert(t1.drop_last() == data@.take(i as int));
                assert(t1.last() == data@[i as int]);
            }
            self.decode_byte(data[i], &mut out);
            i += 1;
        }
        assert(data@.take(data@.len() as int) == data@);
        out
    }
}

/// The signed value of a little-endian byte pair.
fn le_i16_exec(lo: u8, hi: u8) -> (v: i32)
    ensures
        v as int == le_i16(lo, hi),
{
    let u = lo as i32 + 256 * (hi as i32);
    if u >= 32768 { u - 65536 } else { u }
}

// ---- laws ----

/// Streaming law: decoding `a` and then `b` with one decoder gives the same
/// final state and the same samples as decoding `a + b` at once.
pub proof fn lemma_owrx_streaming(s: OwrxState, a: Seq<u8>, b: Seq<u8>)
    ensures
        owrx_run(s, a + b) == ({
            let ra = owrx_run(s, a);
            let rb = owrx_run(ra.0, b);
            (rb.0, ra.1 + rb.1)
        }),
    decreases b.len(),
{
    if b.len() == 0 {
        assert(a + b == a);
        assert(owrx_run(s, a).1 + Seq::<i16>::empty() == owrx_run(s, a).1);
    } else {
        assert((a + b).drop_last() == a + b.drop_last());
        assert((a + b).last() == b.last());
        lemma_owrx_streaming(s, a, b.drop_last());
        let ra = owrx_run(s, a);
        let rb0 = owrx_run(ra.0, b.drop_last());
        let l = owrx_byte(rb0.0, b.last());
        assert(ra.1 + (rb0.1 + l.1) == (ra.1 + rb0.1) + l.1);
    }
}

/// While the decoder is searching for a marker and the input holds no byte
/// of one, nothing is decoded and the search restarts.
pub proof fn lemma_owrx_no_marker_no_samples(s: OwrxState, data: Seq<u8>)
    requires
        s.phase == 0,
        0 <= s.synchronized < 4,
        forall|i: int| 0 <= i < data.len() ==> data[i] != 83u8,
        forall|i: int| 0 <= i < data.len() ==> data[i] != 89u8,
        forall|i: int| 0 <= i < data.len() ==> data[i] != 78u8,
        forall|i: int| 0 <= i < data.len() ==> data[i] != 67u8,
    ensures
        owrx_run(s, data).1.len() == 0,
        owrx_run(s, data).0.phase == 0,
        data.len() > 0 ==> owrx_run(s, data).0.synchronized == 0,
        data.len() == 0 ==> owrx_run(s, data).0 == s,
    decreases data.len(),
{
    if data.len() > 0 {
        let d0 = data.drop_last();
        assert forall|i: int| 0 <= i < d0.len() implies d0[i] != 83u8 && d0[i] != 89u8
            && d0[i] != 78u8 && d0[i] != 67u8 by {
            assert(d0[i] == data[i]);
        }
        lemma_owrx_no_marker_no_samples(s, d0);
        let p = owrx_run(s, d0);
        assert(data.last() == data[data.len() - 1]);
        assert(SYNC_WORD@[p.0.synchronized] == 83u8 || SYNC_WORD@[p.0.synchronized] == 89u8
            || SYNC_WORD@[p.0.synchronized] == 78u8 || SYNC_WORD@[p.0.synchronized] == 67u8);
    }
}

/// Every decoded byte yields exactly two samples, so the output length is even.
pub proof fn lemma_owrx_even(s: OwrxState, data: Seq<u8>)
    ensures
        owrx_run(s, data).1.len() % 2 == 0,
        owrx_run(s, data).1.len() <= 2 * data.len(),
    decreases data.len(),
{
    if data.len() > 0 {
        lemma_owrx_even(s, data.drop_last());
    }
}

/// What one code does, stated by the standard IMA arithmetic: the
/// magnitude is `step/8`, plus `step/4` if bit 0 is set, `step/2` if bit 1 is
/// set and `step` if bit 2 is set, taken from the current step size; bit 3
/// makes it a decrease; the predictor saturates at the 16-bit range. The
/// index falls by 1 for codes 0-3 (and 8-11) and rises by 2, 4, 6, 8 for
/// codes 4-7 (and 12-15), within 0..=88, and the step size then becomes the
/// table's step at the new index.
pub proof fn lemma_owrx_nibble_arith(s: OwrxState, code: u8)
    requires
        code < 16,
    ensures
        ({
            let step = s.step;
            let mag = step / 8 + (if code % 2 == 1 { step / 4 } else { 0 }) + (if (code / 2) % 2 == 1 {
                step / 2
            } else {
                0
            }) + (if (code / 4) % 2 == 1 { step } else { 0 });
            let p = if code >= 8 { s.predictor - mag } else { s.predictor + mag };
            let k = code % 8;
            let i = s.step_index + (if k < 4 { -1 } else { 2 * (k - 3) });
            let n = owrx_nibble(s, code);
            &&& n.predictor == (if p < -32768 { -32768 } else if p > 32767 { 32767 } else { p })
            &&& n.step_index == (if i < 0 { 0 } else if i > 88 { 88 } else { i })
            &&& n.step == STEP_TABLE@[n.step_index] as int
        }),
{
    crate::adpcm::lemma_code_bits(code);
    crate::adpcm::lemma_index_delta(code);
}

/// A marker with step index 0 and predictor 0, then the codes 0, 0, 4, 0
/// (bytes 0x00, 0x04): the step starts at 0, so the samples are 0, 0, then
/// +7 at step 7, then +1 at step 9.
pub proof fn lemma_owrx_known_values()
    ensures
        owrx_run(owrx_initial(), seq![83u8, 89u8, 78u8, 67u8, 0u8, 0u8, 0u8, 0u8, 0u8, 4u8]).1
            == seq![0i16, 0i16, 7i16, 8i16],
{
    let d = seq![83u8, 89u8, 78u8, 67u8, 0u8, 0u8, 0u8, 0u8, 0u8, 4u8];
    assert(d.take(0) =~= Seq::<u8>::empty());
    assert(SYNC_WORD@ =~= seq![83u8, 89u8, 78u8, 67u8]);
    crate::adpcm::lemma_code_bits(0);
    crate::adpcm::lemma_code_bits(4);
    crate::adpcm::lemma_index_delta(0);
    crate::adpcm::lemma_index_delta(4);
    crate::adpcm::lemma_step_table_grows();
    assert(STEP_TABLE@[2] == 9) by {
        assert(STEP_TABLE@ =~= crate::adpcm::STEP_TABLE@);
    }
    assert(0u8 & 15 == 0u8 && 0u8 >> 4 == 0u8 && 4u8 & 15 == 4u8 && 4u8 >> 4 == 0u8) by (bit_vector);
    assert forall|j: int| 0 < j <= d.len() implies #[trigger] d.take(j).drop_last() == d.take(j - 1)
        && d.take(j).last() == d[j - 1] by {
        assert(d.take(j).drop_last() =~= d.take(j - 1));
    }
    assert(d.take(10) =~= d);
    reveal_with_fuel(owrx_run, 11);
}

} // verus!
