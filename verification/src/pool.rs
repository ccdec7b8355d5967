//! The pacing decisions of the background tasks: which speech-recognition
//! worker a job goes to, when dropped jobs are worth a warning, and how often
//! a receiver's meter reading is shown and stored.

use vstd::prelude::*;

verus! {

/// The abstract state of a job dispatcher.
pub struct DispatchState {
    pub workers: nat,
    /// The worker the next job goes to.
    pub next: nat,
    /// How many jobs were dropped because their worker was busy.
    pub dropped: nat,
}

/// Hands jobs to a fixed number of workers in turn. A job whose worker is
/// busy is dropped (the newest is dropped, the audio side never waits) and
/// counted.
pub struct Dispatcher {
    workers: usize,
    next: usize,
    dropped: u64,
}

impl View for Dispatcher {
    type V = DispatchState;

    closed spec fn view(&self) -> DispatchState {
        DispatchState { workers: self.workers as nat, next: self.next as nat, dropped: self.dropped as nat }
    }
}

impl Dispatcher {
    #[verifier::type_invariant]
    spec fn inv(self) -> bool {
        1 <= self.workers && self.next < self.workers
    }

    /// A dispatcher over `worker_count` workers (at least one), starting with
    /// the first.
    pub fn new(worker_count: u32) -> (d: Self)
        ensures
            d@.workers == (if worker_count < 1 { 1 } else { worker_count as nat }),
            d@.next == 0,
            d@.dropped == 0,
    {
        let n: usize = if worker_count < 1 { 1 } else { worker_count as usize };
        Dispatcher { workers: n, next: 0, dropped: 0 }
    }

    /// The worker the next job goes to; the turn passes to the following one.
    pub fn target(&mut self) -> (w: usize)
        ensures
            w as nat == old(self)@.next,
            w < old(self)@.workers,
            final(self)@.next == (old(self)@.next + 1) % old(self)@.workers,
            final(self)@.workers == old(self)@.workers,
            final(self)@.dropped == old(self)@.dropped,
    {
        proof {
            use_type_invariant(&*self);
        }
        let w = self.next;
        let n = if w + 1 == self.workers { 0 } else { w + 1 };
        proof {
            assert((w + 1) % (self.workers as int) == n) by (nonlinear_arith)
                requires
                    w < self.workers,
                    n == if w + 1 == self.workers { 0 } else { w + 1 },
            ;
        }
        self.next = n;
        w
    }

    /// How many jobs have been dropped.
    pub fn dropped(&self) -> (r: u64)
        ensures
            r as nat == self@.dropped,
    {
        self.dropped
    }

    /// Count a dropped job. Returns whether to warn: at the first drop and
    /// at every tenth.
    pub fn record_drop(&mut self) -> (warn: bool)
        requires
            old(self)@.dropped < u64::MAX,
        ensures
            final(self)@.dropped == old(self)@.dropped + 1,
            final(self)@.workers == old(self)@.workers,
            final(self)@.next == old(self)@.next,
            warn == (final(self)@.dropped == 1 || final(self)@.dropped % 10 == 0),
    {
        proof {
            use_type_invariant(&*self);
        }
        self.dropped = self.dropped + 1;
        self.dropped == 1 || self.dropped % 10 == 0
    }
}

/// Jobs go round: the job dispatched after the `k`-th goes to worker
/// `(k + 1) mod n` when the `k`-th went to worker `k mod n`, so the `k`-th
/// job of a new dispatcher goes to worker `k mod n`.
pub proof fn lemma_round_robin(n: nat, k: nat)
    requires
        n >= 1,
    ensures
        ((k % n) + 1) % n == (k + 1) % n,
{
    if n == 1 {
        assert((k % 1) == 0 && ((k % 1) + 1) % 1 == 0 && (k + 1) % 1 == 0);
    } else {
        vstd::arithmetic::div_mod::lemma_add_mod_noop(k as int, 1, n as int);
        vstd::arithmetic::div_mod::lemma_small_mod(1, n);
    }
}

// ---- meter readings ----

/// Readings are shown at most every 250 ms.
pub const EMIT_INTERVAL_MS: u64 = 250;
/// Readings are stored at most every 5 s, and only when they changed.
pub const STORE_INTERVAL_MS: u64 = 5000;

/// The abstract state of a meter throttle: when a reading was last shown
/// and last stored (`None`: never), and the reading last stored.
pub struct ThrottleState {
    pub last_emit: Option<u64>,
    pub last_store: Option<u64>,
    pub last_stored: Option<u16>,
}

/// Paces a receiver's S-meter readings (given as the level of `kiwi`'s
/// S-meter word, which determines the reading).
pub struct TelemetryThrottle {
    last_emit: Option<u64>,
    last_store: Option<u64>,
    last_stored: Option<u16>,
}

impl View for TelemetryThrottle {
    type V = ThrottleState;

    closed spec fn view(&self) -> ThrottleState {
        ThrottleState { last_emit: self.last_emit, last_store: self.last_store, last_stored: self.last_stored }
    }
}

/// Whether at least `interval` ms have passed since `last` (always, when it
/// never happened; a clock that went back counts as no time).
pub open spec fn due(last: Option<u64>, now: u64, interval: u64) -> bool {
    match last {
        None => true,
        Some(t) => now >= t && now - t >= interval,
    }
}

/// Shown readings are at least 250 ms apart (at most 4 per second per
/// receiver): a reading is shown only when the last shown one is that old.
pub proof fn lemma_meter_rate(last: u64, now: u64)
    requires
        due(Some(last), now, EMIT_INTERVAL_MS),
    ensures
        now >= last + 250,
{
}

impl TelemetryThrottle {
    pub fn new() -> (t: Self)
        ensures
            t@.last_emit is None,
            t@.last_store is None,
            t@.last_stored is None,
    {
        TelemetryThrottle { last_emit: None, last_store: None, last_stored: None }
    }

    /// A reading at `now_ms`: returns whether to show it and whether to store it.
    pub fn on_reading(&mut self, now_ms: u64, level: u16) -> (r: (bool, bool))
        ensures
            r.0 == due(old(self)@.last_emit, now_ms, EMIT_INTERVAL_MS),
            r.1 == (due(old(self)@.last_store, now_ms, STORE_INTERVAL_MS) && old(self)@.last_stored != Some(level)),
            final(self)@.last_emit == (if r.0 { Some(now_ms) } else { old(self)@.last_emit }),
            final(self)@.last_store == (if r.1 { Some(now_ms) } else { old(self)@.last_store }),
            final(self)@.last_stored == (if r.1 { Some(level) } else { old(self)@.last_stored }),
    {
        let emit = match self.last_emit {
            None => true,
            Some(t) => now_ms >= t && now_ms - t >= EMIT_INTERVAL_MS,
        };
        let store_due = match self.last_store {
            None => true,
            Some(t) => now_ms >= t && now_ms - t >= STORE_INTERVAL_MS,
        };
        let changed = match self.last_stored {
            None => true,
            Some(l) => l != level,
        };
        let store = store_due && changed;
        if emit {
            self.last_emit = Some(now_ms);
        }
        if store {
            self.last_store = Some(now_ms);
            self.last_stored = Some(level);
        }
        (emit, store)
    }
}

// ---- download progress ----

/// Progress is reported each time more than this many bytes arrived since
/// the last report.
pub const PROGRESS_STEP_BYTES: u64 = 2_000_000;

pub struct ProgressState {
    pub received: nat,
    pub last_reported: nat,
}

/// Counts the bytes of a download and paces its progress reports.
pub struct DownloadProgress {
    received: u64,
    last_reported: u64,
}

impl View for DownloadProgress {
    type V = ProgressState;

    closed spec fn view(&self) -> ProgressState {
        ProgressState { received: self.received as nat, last_reported: self.last_reported as nat }
    }
}

impl DownloadProgress {
    #[verifier::type_invariant]
    spec fn inv(self) -> bool {
        self.last_reported <= self.received
    }

    pub fn new() -> (p: Self)
        ensures
            p@.received == 0,
            p@.last_reported == 0,
    {
        DownloadProgress { received: 0, last_reported: 0 }
    }

    pub fn received(&self) -> (r: u64)
        ensures
            r as nat == self@.received,
    {
        self.received
    }

    /// Count `n` more bytes; returns whether to report progress now.
    pub fn on_bytes(&mut self, n: u64) -> (report: bool)
        requires
            old(self)@.received + n <= u64::MAX,
        ensures
            final(self)@.received == old(self)@.received + n,
            report == (final(self)@.received - old(self)@.last_reported > PROGRESS_STEP_BYTES),
            final(self)@.last_reported == (if report { final(self)@.received } else { old(self)@.last_reported }),
    {
        proof {
            use_type_invariant(&*self);
        }
        let received = self.received + n;
        let report = received - self.last_reported > PROGRESS_STEP_BYTES;
        let last = if report { received } else { self.last_reported };
        *self = DownloadProgress { received, last_reported: last };
        report
    }
}

} // verus!
