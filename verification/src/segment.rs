//! Silence-bounded segmentation of voice audio, driven by the voice-activity
//! detector's per-frame decision.
//!
//! Frames are gathered once speech starts; a segment closes after 700 ms of
//! trailing silence (35 frames of 20 ms) or once it holds 25 s of audio at
//! 16 kHz. A closing segment shorter than 1.2 s is discarded. The segmenter does
//! no arithmetic on samples, so it is generic over the sample type.

use vstd::prelude::*;

verus! {

/// A detector frame: 20 ms at 16 kHz.
pub const FRAME_SAMPLES: usize = 320;
/// 700 ms of trailing silence at 20 ms per frame.
pub const SILENCE_LIMIT_FRAMES: u32 = 35;
/// 25 s at 16 kHz.
pub const MAX_SAMPLES: usize = 400000;
/// 1.2 s at 16 kHz.
pub const MIN_SAMPLES: usize = 19200;

/// A closed segment of speech.
pub struct Segment<T> {
    pub samples: Vec<T>,
    pub ts_start: i64,
    pub ts_end: i64,
}

/// The abstract state of a segmenter.
pub struct SegmenterState<T> {
    pub samples: Seq<T>,
    pub trailing_silence: int,
    pub in_speech: bool,
    pub start_ts: int,
    pub last_ts: int,
}

pub struct Segmenter<T> {
    buffer: Vec<T>,
    trailing_silence: u32,
    in_speech: bool,
    start_ts: i64,
    last_ts: i64,
}

impl<T> View for Segmenter<T> {
    type V = SegmenterState<T>;

    closed spec fn view(&self) -> SegmenterState<T> {
        SegmenterState {
            samples: self.buffer@,
            trailing_silence: self.trailing_silence as int,
            in_speech: self.in_speech,
            start_ts: self.start_ts as int,
            last_ts: self.last_ts as int,
        }
    }
}

/// The state every operation keeps: outside speech nothing is buffered and no
/// silence is counted.
pub open spec fn segmenter_valid<T>(s: SegmenterState<T>) -> bool {
    !s.in_speech ==> s.samples.len() == 0 && s.trailing_silence == 0
}

/// Whether an open segment has ended: enough trailing silence, or full.
pub open spec fn segment_closes<T>(s: SegmenterState<T>) -> bool {
    s.in_speech && (s.trailing_silence >= SILENCE_LIMIT_FRAMES as int || s.samples.len()
        >= MAX_SAMPLES as int)
}

/// The idle state, with the timestamps of `s` kept.
pub open spec fn segmenter_reset<T>(s: SegmenterState<T>) -> SegmenterState<T> {
    SegmenterState { samples: Seq::empty(), trailing_silence: 0, in_speech: false, ..s }
}

/// The state after one frame, its speaking decision and its timestamp.
pub open spec fn segmenter_push<T>(s: SegmenterState<T>, frame: Seq<T>, speaking: bool, ts: int) -> SegmenterState<T> {
    if speaking {
        if !s.in_speech {
            SegmenterState { samples: frame, trailing_silence: 0, in_speech: true, start_ts: ts, last_ts: ts }
        } else {
            SegmenterState { samples: s.samples + frame, trailing_silence: 0, last_ts: ts, ..s }
        }
    } else if s.in_speech {
        SegmenterState { samples: s.samples + frame, trailing_silence: s.trailing_silence + 1, last_ts: ts, ..s }
    } else {
        s
    }
}

impl<T: Copy> Segmenter<T> {
    /// An idle segmenter.
    pub fn new() -> (s: Self)
        ensures
            s@.samples.len() == 0,
            s@.trailing_silence == 0,
            !s@.in_speech,
            s@.start_ts == 0,
            s@.last_ts == 0,
            segmenter_valid(s@),
    {
        Segmenter { buffer: Vec::new(), trailing_silence: 0, in_speech: false, start_ts: 0, last_ts: 0 }
    }

    fn append(&mut self, frame: &[T])
        ensures
            final(self)@ == (SegmenterState { samples: old(self)@.samples + frame@, ..old(self)@ }),
    {
        let mut i: usize = 0;
        while i < frame.len()
            invariant
                i <= frame@.len(),
                self@ == (SegmenterState { samples: old(self)@.samples + frame@.take(i as int), ..old(self)@ }),
            decreases frame@.len() - i,
        {
            self.buffer.push(frame[i]);
            i += 1;
            assert(old(self)@.samples + frame@.take(i as int) == (old(self)@.samples + frame@.take(i - 1)).push(frame@[i - 1]));
        }
        assert(frame@.take(frame@.len() as int) == frame@);
    }

    /// Feed one frame with the detector's decision and its timestamp (unix ms).
    /// A speaking frame opens a segment if none is open (starting it at `ts_ms`)
    /// and is appended; a silent frame is appended to an open segment and
    /// counted as trailing silence; a silent frame outside speech is ignored.
    pub fn push(&mut self, frame: &[T], speaking: bool, ts_ms: i64)
        requires
            !speaking && old(self)@.in_speech ==> old(self)@.trailing_silence < u32::MAX,
        ensures
            final(self)@ == segmenter_push(old(self)@, frame@, speaking, ts_ms as int),
            segmenter_valid(old(self)@) ==> segmenter_valid(final(self)@),
    {
        if speaking {
            if !self.in_speech {
                self.in_speech = true;
                self.start_ts = ts_ms;
                self.buffer.clear();
            }
            self.append(frame);
            self.trailing_silence = 0;
            self.last_ts = ts_ms;
            assert(Seq::<T>::empty() + frame@ == frame@);
        } else if self.in_speech {
            self.append(frame);
            self.trailing_silence = self.trailing_silence + 1;
            self.last_ts = ts_ms;
        }
    }

    /// Close the open segment if it has ended. A closed segment is returned
    /// when it holds at least `MIN_SAMPLES` samples and is discarded otherwise;
    /// either way the segmenter goes back to idle. Returns `None`, changing
    /// nothing, when no open segment has ended.
    pub fn try_emit(&mut self) -> (r: Option<Segment<T>>)
        ensures
            !segment_closes(old(self)@) ==> r is None && final(self)@ == old(self)@,
            segment_closes(old(self)@) ==> final(self)@ == segmenter_reset(old(self)@),
            segment_closes(old(self)@) && old(self)@.samples.len() >= MIN_SAMPLES as int ==> r is Some,
            segment_closes(old(self)@) && old(self)@.samples.len() < MIN_SAMPLES as int ==> r is None,
            r matches Some(seg) ==> seg.samples@ == old(self)@.samples && seg.ts_start == old(self)@.start_ts
                && seg.ts_end == old(self)@.last_ts,
            segmenter_valid(old(self)@) ==> segmenter_valid(final(self)@),
    {
        if !self.in_speech {
            return None;
        }
        let silence_done = self.trailing_silence >= SILENCE_LIMIT_FRAMES;
        let max_reached = self.buffer.len() >= MAX_SAMPLES;
        if !(silence_done || max_reached) {
            return None;
        }
        let long_enough = self.buffer.len() >= MIN_SAMPLES;
        let start_ts = self.start_ts;
        let last_ts = self.last_ts;
        let mut samples: Vec<T> = Vec::new();
        std::mem::swap(&mut samples, &mut self.buffer);
        self.trailing_silence = 0;
        self.in_speech = false;
        if long_enough {
            Some(Segment { samples, ts_start: start_ts, ts_end: last_ts })
        } else {
            None
        }
    }
}

impl<T: Copy> Default for Segmenter<T> {
    fn default() -> (s: Self)
        ensures
            s@.samples.len() == 0,
            s@.trailing_silence == 0,
            !s@.in_speech,
            s@.start_ts == 0,
            s@.last_ts == 0,
    {
        Self::new()
    }
}

// ---- resampling to the speech rate ----

/// The rate the speech recognizer takes audio at.
pub const SPEECH_RATE: u32 = 16000;

/// What the resampler to `SPEECH_RATE` does when input arrives at a rate.
#[derive(Clone, Copy, Debug, PartialEq, Eq, Structural)]
pub enum RatePlan {
    /// Go on as configured.
    Keep,
    /// The input needs no resampling (it is at the speech rate, or its rate
    /// is unknown): drop any filter and pass samples through.
    PassThrough,
    /// Build a filter for the new rate, dropping buffered input.
    Build,
}

/// The plan for input at `from_sr`, given the rate configured last and
/// whether a filter is built.
pub fn rate_plan(current_sr: u32, built: bool, from_sr: u32) -> (p: RatePlan)
    ensures
        p == if current_sr == from_sr && (built || from_sr == SPEECH_RATE || from_sr == 0) {
            RatePlan::Keep
        } else if from_sr == SPEECH_RATE || from_sr == 0 {
            RatePlan::PassThrough
        } else {
            RatePlan::Build
        },
{
    if current_sr == from_sr && (built || from_sr == SPEECH_RATE || from_sr == 0) {
        RatePlan::Keep
    } else if from_sr == SPEECH_RATE || from_sr == 0 {
        RatePlan::PassThrough
    } else {
        RatePlan::Build
    }
}

// ---- slot windows (FT8 / FT4) ----

/// Audio gathered into slot-length windows for the slot-based decoders: a
/// window starts at the timestamp of the frame that began it, and each full
/// window is handed out with that timestamp.
pub struct SlotBuffer<T> {
    buffer: Vec<T>,
    window_start_ms: i64,
}

pub struct SlotState<T> {
    pub samples: Seq<T>,
    pub window_start_ms: int,
}

impl<T> View for SlotBuffer<T> {
    type V = SlotState<T>;

    closed spec fn view(&self) -> SlotState<T> {
        SlotState { samples: self.buffer@, window_start_ms: self.window_start_ms as int }
    }
}

/// The full windows of `buf`, each `slot` samples long, and the rest.
pub open spec fn windows<T>(buf: Seq<T>, slot: nat) -> Seq<Seq<T>>
    decreases buf.len(),
{
    if slot == 0 || buf.len() < slot {
        Seq::empty()
    } else {
        seq![buf.take(slot as int)] + windows(buf.skip(slot as int), slot)
    }
}

impl<T: Copy> SlotBuffer<T> {
    pub fn new() -> (b: Self)
        ensures
            b@.samples.len() == 0,
            b@.window_start_ms == 0,
    {
        SlotBuffer { buffer: Vec::new(), window_start_ms: 0 }
    }

    /// Add a frame and take out every full window. The first window taken
    /// starts where the buffered audio started (at this frame's timestamp
    /// when nothing was buffered); any later window taken in the same call
    /// is stamped with this frame's timestamp. Nothing is taken for a zero
    /// slot length.
    pub fn push(&mut self, frame: &[T], ts_ms: i64, slot: usize) -> (r: Vec<(Vec<T>, i64)>)
        ensures
            ({
                let start = if old(self)@.samples.len() == 0 { ts_ms as int } else { old(self)@.window_start_ms };
                let all = old(self)@.samples + frame@;
                let ws = windows(all, slot as nat);
                &&& r@.len() == ws.len()
                &&& forall|k: int| 0 <= k < r@.len() ==> (#[trigger] r@[k]).0@ == ws[k]
                &&& forall|k: int| 0 <= k < r@.len() ==> (#[trigger] r@[k]).1 as int == (if k == 0 { start } else { ts_ms as int })
                &&& final(self)@.samples == all.skip(slot as int * ws.len())
                &&& final(self)@.window_start_ms == (if ws.len() == 0 { start } else { ts_ms as int })
            }),
    {
        if self.buffer.len() == 0 {
            self.window_start_ms = ts_ms;
        }
        let mut i: usize = 0;
        while i < frame.len()
            invariant
                i <= frame@.len(),
                self.buffer@ == old(self)@.samples + frame@.take(i as int),
                self.window_start_ms as int == (if old(self)@.samples.len() == 0 { ts_ms as int } else { old(self)@.window_start_ms }),
            decreases frame@.len() - i,
        {
            self.buffer.push(frame[i]);
            i += 1;
            assert(old(self)@.samples + frame@.take(i as int) == (old(self)@.samples + frame@.take(i - 1)).push(frame@[i - 1]));
        }
        assert(frame@.take(frame@.len() as int) == frame@);
        let ghost all = self.buffer@;
        let ghost start = self.window_start_ms as int;
        let mut out: Vec<(Vec<T>, i64)> = Vec::new();
        if slot == 0 {
            assert(all.skip(0) == all);
            return out;
        }
        while self.buffer.len() >= slot
            invariant
                slot > 0,
                self.buffer@ == all.skip(slot as int * out@.len()),
                windows(all, slot as nat) == out@.map_values(|p: (Vec<T>, i64)| p.0@) + windows(self.buffer@, slot as nat),
                forall|k: int| 0 <= k < out@.len() ==> (#[trigger] out@[k]).1 as int == (if k == 0 { start } else { ts_ms as int }),
                self.window_start_ms as int == (if out@.len() == 0 { start } else { ts_ms as int }),
                slot as int * out@.len() <= all.len(),
            decreases self.buffer@.len(),
        {
            let ghost b0 = self.buffer@;
            let mut window = self.buffer.split_off(slot);
            std::mem::swap(&mut window, &mut self.buffer);
            let start_now = self.window_start_ms;
            let ghost o0 = out@;
            out.push((window, start_now));
            self.window_start_ms = ts_ms;
            proof {
                assert(b0.take(slot as int) == window@);
                assert(b0.skip(slot as int) == self.buffer@);
                assert(windows(b0, slot as nat) == seq![b0.take(slot as int)] + windows(b0.skip(slot as int), slot as nat));
                assert(out@.map_values(|p: (Vec<T>, i64)| p.0@) =~= o0.map_values(|p: (Vec<T>, i64)| p.0@).push(window@));
                let n0 = o0.len() as int;
                assert(slot as int * (n0 + 1) == slot as int * n0 + slot as int) by (nonlinear_arith);
                assert(b0.len() == all.len() - slot as int * n0);
                assert(b0.len() >= slot);
                assert(slot as int * out@.len() <= all.len());
                assert(all.skip(slot as int * out@.len()) =~= b0.skip(slot as int));
            }
        }
        proof {
            assert(windows(self.buffer@, slot as nat) == Seq::<Seq<T>>::empty());
            assert(out@.map_values(|p: (Vec<T>, i64)| p.0@) + Seq::<Seq<T>>::empty() == out@.map_values(|p: (Vec<T>, i64)| p.0@));
        }
        out
    }
}

// ---- laws ----

/// Every operation keeps the segmenter's state valid.
pub proof fn lemma_push_keeps_valid<T>(s: SegmenterState<T>, frame: Seq<T>, speaking: bool, ts: int)
    requires
        segmenter_valid(s),
    ensures
        segmenter_valid(segmenter_push(s, frame, speaking, ts)),
{
}

/// A segment holds exactly the frames fed since speech began: after a run of
/// frames that starts with a speaking frame from idle, with no segment closed
/// in between, the buffer is their concatenation, it started at the first
/// frame's timestamp and ended at the last one's.
pub proof fn lemma_segment_is_concatenation<T>(
    s: SegmenterState<T>,
    frames: Seq<Seq<T>>,
    speaking: Seq<bool>,
    ts: Seq<int>,
)
    requires
        !s.in_speech,
        frames.len() > 0,
        frames.len() == speaking.len(),
        frames.len() == ts.len(),
        speaking[0],
    ensures
        ({
            let r = push_all(s, frames, speaking, ts);
            &&& r.in_speech
            &&& r.samples == concat(frames)
            &&& r.start_ts == ts[0]
            &&& r.last_ts == ts.last()
        }),
    decreases frames.len(),
{
    if frames.len() == 1 {
        assert(frames.drop_last().len() == 0);
        assert(concat(frames.drop_last()) == Seq::<T>::empty());
        assert(Seq::<T>::empty() + frames[0] == frames[0]);
    } else {
        lemma_segment_is_concatenation(s, frames.drop_last(), speaking.drop_last(), ts.drop_last());
        assert(frames.drop_last()[0] == frames[0]);
    }
}

/// Cutting audio into slot windows loses and reorders nothing: each window
/// is one slot long, and the windows followed by the remainder give back the
/// audio.
pub proof fn lemma_windows_partition<T>(buf: Seq<T>, slot: nat)
    requires
        slot > 0,
    ensures
        forall|k: int| 0 <= k < windows(buf, slot).len() ==> (#[trigger] windows(buf, slot)[k]).len() == slot,
        slot * windows(buf, slot).len() <= buf.len(),
        concat(windows(buf, slot)) + buf.skip((slot * windows(buf, slot).len()) as int) == buf,
    decreases buf.len(),
{
    if buf.len() < slot {
        assert(buf.skip(0) == buf);
        assert(concat(Seq::<Seq<T>>::empty()) + buf == buf);
    } else {
        let rest = buf.skip(slot as int);
        lemma_windows_partition(rest, slot);
        let w = windows(buf, slot);
        let wr = windows(rest, slot);
        assert(w == seq![buf.take(slot as int)] + wr);
        lemma_concat_prepend(buf.take(slot as int), wr);
        assert(slot * w.len() == slot + slot * wr.len()) by (nonlinear_arith)
            requires
                w.len() == wr.len() + 1,
        ;
        assert(buf.skip((slot * w.len()) as int) == rest.skip((slot * wr.len()) as int));
        assert forall|k: int| 0 <= k < w.len() implies (#[trigger] w[k]).len() == slot by {
            if k > 0 {
                assert(w[k] == wr[k - 1]);
            }
        }
        assert(buf.take(slot as int) + rest == buf);
        assert(concat(w) + buf.skip((slot * w.len()) as int)
            == buf.take(slot as int) + (concat(wr) + rest.skip((slot * wr.len()) as int)));
    }
}

/// Joining a run that starts with `first`.
pub proof fn lemma_concat_prepend<T>(first: Seq<T>, rest: Seq<Seq<T>>)
    ensures
        concat(seq![first] + rest) == first + concat(rest),
    decreases rest.len(),
{
    if rest.len() == 0 {
        assert(seq![first] + rest == seq![first]);
        assert(seq![first].drop_last() == Seq::<Seq<T>>::empty());
        assert(concat(Seq::<Seq<T>>::empty()) + first == first);
        assert(first + concat(rest) == first);
    } else {
        lemma_concat_prepend(first, rest.drop_last());
        assert((seq![first] + rest).drop_last() == seq![first] + rest.drop_last());
        assert((seq![first] + rest).last() == rest.last());
        assert(first + concat(rest.drop_last()) + rest.last() == first + (concat(rest.drop_last()) + rest.last()));
    }
}

/// With timestamps that never go back, a segment never ends before it
/// starts.
pub proof fn lemma_segment_times_ordered<T>(
    s: SegmenterState<T>,
    frames: Seq<Seq<T>>,
    speaking: Seq<bool>,
    ts: Seq<int>,
)
    requires
        !s.in_speech,
        frames.len() > 0,
        frames.len() == speaking.len(),
        frames.len() == ts.len(),
        speaking[0],
        forall|i: int, j: int| 0 <= i <= j < ts.len() ==> ts[i] <= ts[j],
    ensures
        push_all(s, frames, speaking, ts).start_ts <= push_all(s, frames, speaking, ts).last_ts,
{
    lemma_segment_is_concatenation(s, frames, speaking, ts);
    assert(ts[0] <= ts[ts.len() - 1]);
}

/// How many decisions at the end of a run are silent: the silent frames
/// since the last speaking one.
pub open spec fn trailing_silent(speaking: Seq<bool>) -> nat
    decreases speaking.len(),
{
    if speaking.len() == 0 || speaking.last() {
        0
    } else {
        1 + trailing_silent(speaking.drop_last())
    }
}

/// A speaking frame opens or continues a segment and clears the count of
/// trailing silence.
pub proof fn lemma_speech_resets_silence<T>(s: SegmenterState<T>, frame: Seq<T>, ts: int)
    ensures
        segmenter_push(s, frame, true, ts).in_speech,
        segmenter_push(s, frame, true, ts).trailing_silence == 0,
{
}

/// The silence counted in an open segment is the run of silent frames since
/// the last speaking frame, so a segment closes on silence only after
/// `SILENCE_LIMIT_FRAMES` consecutive silent frames (or when it is full).
pub proof fn lemma_silence_counts_trailing<T>(
    s: SegmenterState<T>,
    frames: Seq<Seq<T>>,
    speaking: Seq<bool>,
    ts: Seq<int>,
)
    requires
        !s.in_speech,
        frames.len() > 0,
        frames.len() == speaking.len(),
        frames.len() == ts.len(),
        speaking[0],
    ensures
        push_all(s, frames, speaking, ts).in_speech,
        push_all(s, frames, speaking, ts).trailing_silence == trailing_silent(speaking),
        segment_closes(push_all(s, frames, speaking, ts)) <==> (trailing_silent(speaking) >= SILENCE_LIMIT_FRAMES
            || push_all(s, frames, speaking, ts).samples.len() >= MAX_SAMPLES),
    decreases frames.len(),
{
    if frames.len() == 1 {
        assert(speaking.last() == speaking[0]);
    } else {
        lemma_silence_counts_trailing(s, frames.drop_last(), speaking.drop_last(), ts.drop_last());
        assert(speaking.drop_last()[0] == speaking[0]);
    }
}

/// Feeding a run of frames one after another.
pub open spec fn push_all<T>(s: SegmenterState<T>, frames: Seq<Seq<T>>, speaking: Seq<bool>, ts: Seq<int>) -> SegmenterState<T>
    decreases frames.len(),
{
    if frames.len() == 0 || speaking.len() != frames.len() || ts.len() != frames.len() {
        s
    } else {
        segmenter_push(
            push_all(s, frames.drop_last(), speaking.drop_last(), ts.drop_last()),
            frames.last(),
            speaking.last(),
            ts.last(),
        )
    }
}

/// All frames of a run, joined in order.
pub open spec fn concat<T>(frames: Seq<Seq<T>>) -> Seq<T>
    decreases frames.len(),
{
    if frames.len() == 0 {
        Seq::empty()
    } else {
        concat(frames.drop_last()) + frames.last()
    }
}

} // verus!
