//! IMA-ADPCM decoder for KiwiSDR audio frames.
//!
//! KiwiSDR streams 4-bit IMA-ADPCM, one nibble per sample, low nibble first.
//! The decoder state (step index and predictor) carries over from one frame to
//! the next for the whole life of a connection, so a caller keeps one
//! `ImaAdpcm` per connection and feeds every frame through it.
//!
//! Samples come out as signed 16-bit PCM (the predictor); a sample `s` stands
//! for the level `s / 32768` in [-1, 1).

use vstd::prelude::*;

verus! {

/// IMA step sizes, indexed by the step index 0..=88.
pub const STEP_TABLE: [i32; 89] = [
    7, 8, 9, 10, 11, 12, 13, 14, 16, 17,
    19, 21, 23, 25, 28, 31, 34, 37, 41, 45,
    50, 55, 60, 66, 73, 80, 88, 97, 107, 118,
    130, 143, 157, 173, 190, 209, 230, 253, 279, 307,
    337, 371, 408, 449, 494, 544, 598, 658, 724, 796,
    876, 963, 1060, 1166, 1282, 1411, 1552, 1707, 1878, 2066,
    2272, 2499, 2749, 3024, 3327, 3660, 4026, 4428, 4871, 5358,
    5894, 6484, 7132, 7845, 8630, 9493, 10442, 11487, 12635, 13899,
    15289, 16818, 18500, 20350, 22385, 24623, 27086, 29794, 32767,
];

/// Step-index adjustment for each 4-bit code.
pub const INDEX_TABLE: [i32; 16] = [
    -1, -1, -1, -1, 2, 4, 6, 8,
    -1, -1, -1, -1, 2, 4, 6, 8,
];

pub open spec fn step_size(index: int) -> int {
    STEP_TABLE@[index] as int
}

pub open spec fn index_delta(code: int) -> int {
    INDEX_TABLE@[code] as int
}

pub open spec fn clamp(x: int, lo: int, hi: int) -> int {
    if x < lo { lo } else if x > hi { hi } else { x }
}

/// The magnitude that a code adds to or takes from the predictor at `step`:
/// step/8, plus step/4 for bit 0, step/2 for bit 1, step for bit 2.
pub open spec fn code_diff(step: int, code: u8) -> int {
    step / 8
        + (if code & 1 != 0 { step / 4 } else { 0 })
        + (if code & 2 != 0 { step / 2 } else { 0 })
        + (if code & 4 != 0 { step } else { 0 })
}

/// One decoder step on `(step index, predictor)` for the 4-bit `code`.
/// The step size is read at the old index; the index then moves and is clamped
/// to 0..=88; bit 3 of the code gives the sign of the difference; the predictor
/// is clamped to the 16-bit range.
pub open spec fn ima_step(state: (int, int), code: u8) -> (int, int) {
    let step = step_size(state.0);
    let diff = code_diff(step, code);
    let pred = if code & 8 != 0 { state.1 - diff } else { state.1 + diff };
    (clamp(state.0 + index_delta((code & 15) as int), 0, 88), clamp(pred, -32768, 32767))
}

/// The 4-bit codes of `data` in decoding order: low nibble, then high nibble.
pub open spec fn nibbles(data: Seq<u8>) -> Seq<u8>
    decreases data.len(),
{
    if data.len() == 0 {
        Seq::empty()
    } else {
        let b = data.last();
        nibbles(data.drop_last()) + seq![b & 15, (b >> 4) & 15]
    }
}

/// Decoding `codes` from `state`: the state after the last code, and the
/// predictor after each code.
pub open spec fn ima_run(state: (int, int), codes: Seq<u8>) -> ((int, int), Seq<i16>)
    decreases codes.len(),
{
    if codes.len() == 0 {
        (state, Seq::empty())
    } else {
        let prev = ima_run(state, codes.drop_last());
        let next = ima_step(prev.0, codes.last());
        (next, prev.1.push(next.1 as i16))
    }
}

/// A stateful IMA-ADPCM decoder: one per connection.
pub struct ImaAdpcm {
    index: i32,
    predictor: i32,
}

impl View for ImaAdpcm {
    type V = (int, int);

    closed spec fn view(&self) -> (int, int) {
        (self.index as int, self.predictor as int)
    }
}

pub open spec fn valid_state(s: (int, int)) -> bool {
    0 <= s.0 <= 88 && -32768 <= s.1 <= 32767
}

impl ImaAdpcm {
    #[verifier::type_invariant]
    spec fn inv(self) -> bool {
        valid_state(self@)
    }

    /// A decoder at step index 0 with predictor 0.
    pub fn new() -> (d: Self)
        ensures
            d@ == (0int, 0int),
    {
        ImaAdpcm { index: 0, predictor: 0 }
    }

    fn step_nibble(&mut self, code: u8) -> (sample: i16)
        requires
            code < 16,
        ensures
            final(self)@ == ima_step(old(self)@, code),
            sample as int == final(self)@.1,
    {
        proof {
            use_type_invariant(&*self);
        }
        let n = (code & 15) as usize;
        assert(code & 15 == code) by (bit_vector)
            requires
                code < 16,
        ;
        let step = STEP_TABLE[self.index as usize];
        let mut new_index = self.index + INDEX_TABLE[n];
        if new_index < 0 {
            new_index = 0;
        } else if new_index > 88 {
            new_index = 88;
        }
        let mut diff = step / 8;
        if code & 1 != 0 {
            diff += step / 4;
        }
        if code & 2 != 0 {
            diff += step / 2;
        }
        if code & 4 != 0 {
            diff += step;
        }
        let mut pred = if code & 8 != 0 { self.predictor - diff } else { self.predictor + diff };
        if pred < -32768 {
            pred = -32768;
        } else if pred > 32767 {
            pred = 32767;
        }
        self.index = new_index;
        self.predictor = pred;
        pred as i16
    }

    /// Decode a frame of ADPCM bytes into one 16-bit sample per nibble, low
    /// nibble of each byte first, continuing from the decoder's state.
    pub fn decode(&mut self, data: &[u8]) -> (out: Vec<i16>)
        ensures
            (final(self)@, out@) == ima_run(old(self)@, nibbles(data@)),
            out@.len() == 2 * data@.len(),
    {
        let mut out: Vec<i16> = Vec::new();
        let mut i: usize = 0;
        while i < data.len()
            invariant
                i <= data@.len(),
                (self@, out@) == ima_run(old(self)@, nibbles(data@.take(i as int))),
                out@.len() == 2 * i,
            decreases data@.len() - i,
        {
            let byte = data[i];
            let lo = byte & 15;
            let hi = (byte >> 4) & 15;
            assert(lo < 16 && hi < 16) by (bit_vector)
                requires
                    lo == byte & 15,
                    hi == (byte >> 4) & 15,
            ;
            proof {
                let t = data@.take(i as int);
                let t1 = data@.take(i + 1);
                assert(t1.drop_last() == t);
                assert(t1.last() == byte);
                lemma_run_two(old(self)@, nibbles(t), lo, hi);
            }
            let s0 = self.step_nibble(lo);
            out.push(s0);
            let s1 = self.step_nibble(hi);
            out.push(s1);
            i += 1;
        }
        assert(data@.take(data@.len() as int) == data@);
        out
    }
}

impl Default for ImaAdpcm {
    fn default() -> (d: Self)
        ensures
            d@ == (0int, 0int),
    {
        Self::new()
    }
}

/// Decoding one step at a time agrees with decoding the whole run.
proof fn lemma_run_two(state: (int, int), codes: Seq<u8>, a: u8, b: u8)
    ensures
        ima_run(state, codes + seq![a, b]) == ({
            let r = ima_run(state, codes);
            let s1 = ima_step(r.0, a);
            let s2 = ima_step(s1, b);
            (s2, r.1.push(s1.1 as i16).push(s2.1 as i16))
        }),
{
    let c1 = codes.push(a);
    let c2 = codes + seq![a, b];
    assert(c2.drop_last() == c1);
    assert(c2.last() == b);
    assert(c1.drop_last() == codes);
    assert(c1.last() == a);
    let r = ima_run(state, codes);
    let s1 = ima_step(r.0, a);
    assert(ima_run(state, c1) == (s1, r.1.push(s1.1 as i16)));
}

/// Decode `data` with a fresh decoder.
pub fn decode(data: &[u8]) -> (out: Vec<i16>)
    ensures
        out@ == ima_run((0, 0), nibbles(data@)).1,
        out@.len() == 2 * data@.len(),
{
    let mut d = ImaAdpcm::new();
    d.decode(data)
}

// ---- laws ----

/// The codes of a concatenation are the codes of each part, in order.
pub proof fn lemma_nibbles_append(a: Seq<u8>, b: Seq<u8>)
    ensures
        nibbles(a + b) == nibbles(a) + nibbles(b),
    decreases b.len(),
{
    if b.len() == 0 {
        assert(a + b == a);
    } else {
        assert((a + b).drop_last() == a + b.drop_last());
        assert((a + b).last() == b.last());
        lemma_nibbles_append(a, b.drop_last());
    }
}

/// Decoding a run of codes in two pieces, carrying the state across, gives
/// the same final state and the same samples as decoding it in one piece.
pub proof fn lemma_run_append(state: (int, int), a: Seq<u8>, b: Seq<u8>)
    ensures
        ima_run(state, a + b) == ({
            let ra = ima_run(state, a);
            let rb = ima_run(ra.0, b);
            (rb.0, ra.1 + rb.1)
        }),
    decreases b.len(),
{
    if b.len() == 0 {
        assert(a + b == a);
        assert(ima_run(state, a).1 + Seq::<i16>::empty() == ima_run(state, a).1);
    } else {
        assert((a + b).drop_last() == a + b.drop_last());
        assert((a + b).last() == b.last());
        lemma_run_append(state, a, b.drop_last());
        let ra = ima_run(state, a);
        let rb0 = ima_run(ra.0, b.drop_last());
        let next = ima_step(rb0.0, b.last());
        assert(ra.1 + rb0.1.push(next.1 as i16) == (ra.1 + rb0.1).push(next.1 as i16));
    }
}

/// Every state that decoding reaches from a valid state is valid.
pub proof fn lemma_run_valid(state: (int, int), codes: Seq<u8>)
    requires
        valid_state(state),
    ensures
        valid_state(ima_run(state, codes).0),
        ima_run(state, codes).1.len() == codes.len(),
    decreases codes.len(),
{
    if codes.len() > 0 {
        lemma_run_valid(state, codes.drop_last());
    }
}

/// Streaming law: feeding frame `a` and then frame `b` through one decoder
/// leaves it in the state, and yields the samples, that feeding `a + b` at
/// once would.
pub proof fn lemma_decode_streaming(state: (int, int), a: Seq<u8>, b: Seq<u8>)
    ensures
        ima_run(state, nibbles(a + b)) == ({
            let ra = ima_run(state, nibbles(a));
            let rb = ima_run(ra.0, nibbles(b));
            (rb.0, ra.1 + rb.1)
        }),
{
    lemma_nibbles_append(a, b);
    lemma_run_append(state, nibbles(a), nibbles(b));
}

/// What one IMA-ADPCM code does, stated by the standard's arithmetic: the
/// step size at the old index is `step`; the magnitude is `step/8`, plus
/// `step/4` if bit 0 is set, `step/2` if bit 1 is set, and `step` if bit 2 is
/// set; bit 3 makes it a decrease; the predictor saturates at the 16-bit
/// range. The index falls by 1 for codes 0-3 (and 8-11) and rises by 2, 4, 6,
/// 8 for codes 4-7 (and 12-15), staying within 0..=88.
pub proof fn lemma_ima_step_arith(state: (int, int), code: u8)
    requires
        valid_state(state),
        code < 16,
    ensures
        ({
            let step = STEP_TABLE@[state.0] as int;
            let mag = step / 8 + (if code % 2 == 1 { step / 4 } else { 0 }) + (if (code / 2) % 2 == 1 {
                step / 2
            } else {
                0
            }) + (if (code / 4) % 2 == 1 { step } else { 0 });
            let p = if code >= 8 { state.1 - mag } else { state.1 + mag };
            let k = code % 8;
            let i = state.0 + (if k < 4 { -1 } else { 2 * (k - 3) });
            &&& ima_step(state, code).1 == (if p < -32768 { -32768 } else if p > 32767 { 32767 } else { p })
            &&& ima_step(state, code).0 == (if i < 0 { 0 } else if i > 88 { 88 } else { i })
        }),
{
    lemma_code_bits(code);
    lemma_index_delta(code);
}

/// The bits of a 4-bit code, read arithmetically.
pub proof fn lemma_code_bits(code: u8)
    requires
        code < 16,
    ensures
        (code & 1 != 0) == (code % 2 == 1),
        (code & 2 != 0) == ((code / 2) % 2 == 1),
        (code & 4 != 0) == ((code / 4) % 2 == 1),
        (code & 8 != 0) == (code >= 8),
        code & 15 == code,
{
    assert((code & 1 != 0) == (code % 2 == 1)) by (bit_vector)
        requires
            code < 16,
    ;
    assert((code & 2 != 0) == ((code / 2) % 2 == 1)) by (bit_vector)
        requires
            code < 16,
    ;
    assert((code & 4 != 0) == ((code / 4) % 2 == 1)) by (bit_vector)
        requires
            code < 16,
    ;
    assert((code & 8 != 0) == (code >= 8)) by (bit_vector)
        requires
            code < 16,
    ;
    assert(code & 15 == code) by (bit_vector)
        requires
            code < 16,
    ;
}

/// The index adjustment of each code: -1 for codes 0-3, then 2, 4, 6, 8,
/// the same again for the codes with the sign bit.
pub proof fn lemma_index_delta(code: u8)
    requires
        code < 16,
    ensures
        index_delta(code as int) == (if code % 8 < 4 { -1 } else { 2 * (code % 8 - 3) }),
{
    assert(INDEX_TABLE@ =~= seq![-1i32, -1i32, -1i32, -1i32, 2i32, 4i32, 6i32, 8i32, -1i32, -1i32, -1i32, -1i32, 2i32, 4i32, 6i32, 8i32]);
}

/// The step sizes run from 7 to 32767 and grow with the index.
pub proof fn lemma_step_table_grows()
    ensures
        step_size(0) == 7,
        step_size(88) == 32767,
        forall|i: int, j: int| 0 <= i < j <= 88 ==> step_size(i) < step_size(j),
{
    let t = STEP_TABLE@;
    assert(t =~= seq![
        7i32, 8, 9, 10, 11, 12, 13, 14, 16, 17,
        19, 21, 23, 25, 28, 31, 34, 37, 41, 45,
        50, 55, 60, 66, 73, 80, 88, 97, 107, 118,
        130, 143, 157, 173, 190, 209, 230, 253, 279, 307,
        337, 371, 408, 449, 494, 544, 598, 658, 724, 796,
        876, 963, 1060, 1166, 1282, 1411, 1552, 1707, 1878, 2066,
        2272, 2499, 2749, 3024, 3327, 3660, 4026, 4428, 4871, 5358,
        5894, 6484, 7132, 7845, 8630, 9493, 10442, 11487, 12635, 13899,
        15289, 16818, 18500, 20350, 22385, 24623, 27086, 29794, 32767
    ]);
    assert forall|i: int| 0 <= i < 88 implies #[trigger] step_size(i) < step_size(i + 1) by {
        assert(t[i] < t[i + 1]);
    }
    assert forall|i: int, j: int| 0 <= i < j <= 88 implies step_size(i) < step_size(j) by {
        lemma_steps_increase(i, j);
    }
}

proof fn lemma_steps_increase(i: int, j: int)
    requires
        0 <= i < j <= 88,
        forall|k: int| 0 <= k < 88 ==> #[trigger] step_size(k) < step_size(k + 1),
    ensures
        step_size(i) < step_size(j),
    decreases j - i,
{
    assert(step_size(j - 1) < step_size(j));
    if i < j - 1 {
        lemma_steps_increase(i, j - 1);
    }
}

/// Codes 0, 0, 4, 0 from the start: the predictor goes 0, 0, +7, +1.
pub proof fn lemma_ima_known_values()
    ensures
        ima_run((0, 0), seq![1u8]).1 == seq![1i16],
        ima_run((0, 0), seq![2u8]).1 == seq![3i16],
        ima_run((0, 0), seq![0u8, 0u8, 4u8, 0u8]).1 == seq![0i16, 0i16, 7i16, 8i16],
{
    reveal_with_fuel(ima_run, 5);
    lemma_code_bits(0);
    lemma_code_bits(1);
    lemma_code_bits(2);
    lemma_code_bits(4);
    lemma_index_delta(0);
    lemma_index_delta(1);
    lemma_index_delta(2);
    lemma_index_delta(4);
    lemma_step_table_grows();
    assert(STEP_TABLE@[0] == 7 && STEP_TABLE@[2] == 9);
}

} // verus!
