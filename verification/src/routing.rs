//! Which receivers are running, and what is done with each one's audio: the
//! MAIN and SUB monitor channels, the waterfalls on screen, the recordings.
//!
//! Receivers are named by their ids. Each set holds an id at most once.

use vstd::prelude::*;
use vstd::string::*;
use crate::settings::MAX_SESSIONS;
use crate::text::str_is;

verus! {

/// Whether `x` is one of the ids in `v`.
pub open spec fn has_id(v: Seq<String>, x: Seq<char>) -> bool {
    exists|i: int| 0 <= i < v.len() && (#[trigger] v[i])@ == x
}

/// No id occurs twice.
pub open spec fn distinct_ids(v: Seq<String>) -> bool {
    forall|i: int, j: int| 0 <= i < j < v.len() ==> (#[trigger] v[i])@ != (#[trigger] v[j])@
}

fn position(v: &Vec<String>, id: &str) -> (r: Option<usize>)
    ensures
        r matches Some(k) ==> k < v@.len() && v@[k as int]@ == id@,
        r is None ==> !has_id(v@, id@),
{
    let mut i: usize = 0;
    while i < v.len()
        invariant
            i <= v@.len(),
            forall|j: int| 0 <= j < i ==> (#[trigger] v@[j])@ != id@,
        decreases v@.len() - i,
    {
        if str_is(v[i].as_str(), id) {
            return Some(i);
        }
        i += 1;
    }
    None
}

fn add_id(v: &mut Vec<String>, id: &str)
    requires
        distinct_ids(old(v)@),
    ensures
        distinct_ids(final(v)@),
        has_id(final(v)@, id@),
        forall|x: Seq<char>| x != id@ ==> (has_id(final(v)@, x) <==> has_id(old(v)@, x)),
        final(v)@.len() == old(v)@.len() + (if has_id(old(v)@, id@) { 0int } else { 1int }),
{
    match position(v, id) {
        Some(k) => {},
        None => {
            let ghost o = v@;
            v.push(String::from_str(id));
            assert(v@[o.len() as int]@ == id@);
            assert forall|x: Seq<char>| x != id@ implies (has_id(v@, x) <==> has_id(o, x)) by {
                if has_id(v@, x) {
                    let i = choose|i: int| 0 <= i < v@.len() && (#[trigger] v@[i])@ == x;
                    assert(i < o.len());
                    assert(o[i] == v@[i]);
                }
                if has_id(o, x) {
                    let i = choose|i: int| 0 <= i < o.len() && (#[trigger] o[i])@ == x;
                    assert(v@[i] == o[i]);
                }
            }
            assert forall|i: int, j: int| 0 <= i < j < v@.len() implies (#[trigger] v@[i])@ != (#[trigger] v@[j])@ by {
                if j == o.len() {
                    assert(v@[i] == o[i]);
                } else {
                    assert(v@[i] == o[i] && v@[j] == o[j]);
                }
            }
        },
    }
}

fn remove_id(v: &mut Vec<String>, id: &str) -> (found: bool)
    requires
        distinct_ids(old(v)@),
    ensures
        found == has_id(old(v)@, id@),
        distinct_ids(final(v)@),
        !has_id(final(v)@, id@),
        forall|x: Seq<char>| x != id@ ==> (has_id(final(v)@, x) <==> has_id(old(v)@, x)),
        final(v)@.len() == old(v)@.len() - (if found { 1int } else { 0int }),
{
    match position(v, id) {
        None => false,
        Some(k) => {
            let ghost o = v@;
            v.remove(k);
            assert(v@ == o.remove(k as int));
            assert forall|x: Seq<char>| x != id@ implies (has_id(v@, x) <==> has_id(o, x)) by {
                if has_id(v@, x) {
                    let i = choose|i: int| 0 <= i < v@.len() && (#[trigger] v@[i])@ == x;
                    if i < k {
                        assert(o[i] == v@[i]);
                    } else {
                        assert(o[i + 1] == v@[i]);
                    }
                }
                if has_id(o, x) {
                    let i = choose|i: int| 0 <= i < o.len() && (#[trigger] o[i])@ == x;
                    assert(i != k);
                    if i < k {
                        assert(v@[i] == o[i]);
                    } else {
                        assert(v@[i - 1] == o[i]);
                    }
                }
            }
            assert(!has_id(v@, id@)) by {
                if has_id(v@, id@) {
                    let i = choose|i: int| 0 <= i < v@.len() && (#[trigger] v@[i])@ == id@;
                    if i < k {
                        assert(o[i] == v@[i]);
                        assert(o[i]@ == o[k as int]@);
                    } else {
                        assert(o[i + 1] == v@[i]);
                        assert(o[i + 1]@ == o[k as int]@);
                    }
                }
            }
            assert forall|i: int, j: int| 0 <= i < j < v@.len() implies (#[trigger] v@[i])@ != (#[trigger] v@[j])@ by {
                let a = if i < k { i } else { i + 1 };
                let b = if j < k { j } else { j + 1 };
                assert(v@[i] == o[a] && v@[j] == o[b]);
            }
            true
        },
    }
}

/// The abstract routing state.
pub struct RoutingView {
    pub running: Seq<String>,
    pub monitored: Option<Seq<char>>,
    pub monitored_sub: Option<Seq<char>>,
    pub watched: Seq<String>,
    pub recording: Seq<String>,
}

pub struct Routing {
    running: Vec<String>,
    monitored: Option<String>,
    monitored_sub: Option<String>,
    watched: Vec<String>,
    recording: Vec<String>,
}

pub open spec fn opt_id(o: Option<String>) -> Option<Seq<char>> {
    match o {
        Some(s) => Some(s@),
        None => None,
    }
}

impl View for Routing {
    type V = RoutingView;

    closed spec fn view(&self) -> RoutingView {
        RoutingView {
            running: self.running@,
            monitored: opt_id(self.monitored),
            monitored_sub: opt_id(self.monitored_sub),
            watched: self.watched@,
            recording: self.recording@,
        }
    }
}

/// The sets hold each id once.
pub open spec fn routing_valid(r: RoutingView) -> bool {
    distinct_ids(r.running) && distinct_ids(r.watched) && distinct_ids(r.recording)
}

/// A monitor may be pointed only at a running receiver (or cleared): a
/// request for any other receiver leaves the monitor as it was.
pub open spec fn monitor_after(cur: Option<Seq<char>>, req: Option<Seq<char>>, running: Seq<String>) -> Option<Seq<char>> {
    match req {
        Some(id) => if has_id(running, id) { Some(id) } else { cur },
        None => None,
    }
}

impl Routing {
    #[verifier::type_invariant]
    spec fn inv(self) -> bool {
        routing_valid(self@)
    }

    /// Nothing running, monitored, watched or recorded.
    pub fn new() -> (r: Self)
        ensures
            r@.running.len() == 0,
            r@.monitored is None,
            r@.monitored_sub is None,
            r@.watched.len() == 0,
            r@.recording.len() == 0,
    {
        Routing { running: Vec::new(), monitored: None, monitored_sub: None, watched: Vec::new(), recording: Vec::new() }
    }

    pub fn is_running(&self, id: &str) -> (r: bool)
        ensures
            r == has_id(self@.running, id@),
    {
        position(&self.running, id).is_some()
    }

    /// Whether the receiver may be started: restarting a running receiver is
    /// always allowed, a new one only below `MAX_SESSIONS` running.
    pub fn may_start(&self, id: &str) -> (r: bool)
        ensures
            r == (has_id(self@.running, id@) || self@.running.len() < MAX_SESSIONS),
    {
        self.is_running(id) || self.running.len() < MAX_SESSIONS
    }

    /// Record that a receiver's session is running.
    pub fn session_started(&mut self, id: &str)
        ensures
            has_id(final(self)@.running, id@),
            forall|x: Seq<char>| x != id@ ==> (has_id(final(self)@.running, x) <==> has_id(old(self)@.running, x)),
            final(self)@.running.len() == old(self)@.running.len() + (if has_id(old(self)@.running, id@) { 0int } else { 1int }),
            final(self)@.monitored == old(self)@.monitored,
            final(self)@.monitored_sub == old(self)@.monitored_sub,
            final(self)@.watched == old(self)@.watched,
            final(self)@.recording == old(self)@.recording,
    {
        proof {
            use_type_invariant(&*self);
        }
        let mut v = Vec::new();
        std::mem::swap(&mut v, &mut self.running);
        add_id(&mut v, id);
        self.running = v;
    }

    /// Record that a receiver's session has stopped; whether it was running.
    pub fn session_stopped(&mut self, id: &str) -> (was: bool)
        ensures
            was == has_id(old(self)@.running, id@),
            !has_id(final(self)@.running, id@),
            forall|x: Seq<char>| x != id@ ==> (has_id(final(self)@.running, x) <==> has_id(old(self)@.running, x)),
            final(self)@.monitored == old(self)@.monitored,
            final(self)@.monitored_sub == old(self)@.monitored_sub,
            final(self)@.watched == old(self)@.watched,
            final(self)@.recording == old(self)@.recording,
    {
        proof {
            use_type_invariant(&*self);
        }
        let mut v = Vec::new();
        std::mem::swap(&mut v, &mut self.running);
        let was = remove_id(&mut v, id);
        self.running = v;
        was
    }

    /// Start a receiver's session, within the cap: a receiver already running
    /// is restarted; a new one is refused when `MAX_SESSIONS` are running.
    pub fn try_start(&mut self, id: &str) -> (r: Result<(), String>)
        ensures
            r is Ok <==> (has_id(old(self)@.running, id@) || old(self)@.running.len() < MAX_SESSIONS),
            r matches Err(e) ==> e@ == "at the 8-receiver limit \u{2014} stop one before starting another"@
                && final(self)@ == old(self)@,
            r is Ok ==> has_id(final(self)@.running, id@)
                && (forall|x: Seq<char>| x != id@ ==> (has_id(final(self)@.running, x) <==> has_id(old(self)@.running, x)))
                && final(self)@.monitored == old(self)@.monitored
                && final(self)@.monitored_sub == old(self)@.monitored_sub
                && final(self)@.watched == old(self)@.watched
                && final(self)@.recording == old(self)@.recording,
            old(self)@.running.len() <= MAX_SESSIONS ==> final(self)@.running.len() <= MAX_SESSIONS,
    {
        if !self.may_start(id) {
            return Err(String::from_str("at the 8-receiver limit \u{2014} stop one before starting another"));
        }
        self.session_started(id);
        Ok(())
    }

    /// The ids of the running receivers.
    pub fn running_ids(&self) -> (r: Vec<String>)
        ensures
            forall|x: Seq<char>| has_id(r@, x) <==> has_id(self@.running, x),
            r@.len() == self@.running.len(),
            distinct_ids(r@),
    {
        proof {
            use_type_invariant(self);
        }
        let r = self.running.clone();
        assert forall|i: int| 0 <= i < r@.len() implies (#[trigger] r@[i])@ == self.running@[i]@ by {
            assert(cloned::<String>(self.running@[i], r@[i]));
        }
        assert forall|x: Seq<char>| has_id(r@, x) <==> has_id(self@.running, x) by {
            if has_id(r@, x) {
                let i = choose|i: int| 0 <= i < r@.len() && (#[trigger] r@[i])@ == x;
                assert(cloned::<String>(self.running@[i], r@[i]));
            }
            if has_id(self@.running, x) {
                let i = choose|i: int| 0 <= i < self.running@.len() && (#[trigger] self.running@[i])@ == x;
                assert(cloned::<String>(self.running@[i], r@[i]));
            }
        }
        r
    }

    /// Point the MAIN monitor at a receiver, or clear it.
    pub fn set_monitor(&mut self, id: Option<String>)
        ensures
            final(self)@.monitored == monitor_after(old(self)@.monitored, opt_id(id), old(self)@.running),
            final(self)@.running == old(self)@.running,
            final(self)@.monitored_sub == old(self)@.monitored_sub,
            final(self)@.watched == old(self)@.watched,
            final(self)@.recording == old(self)@.recording,
    {
        proof {
            use_type_invariant(&*self);
        }
        match id {
            Some(s) => {
                if self.is_running(s.as_str()) {
                    self.monitored = Some(s);
                }
            },
            None => {
                self.monitored = None;
            },
        }
    }

    /// Point the SUB monitor (the right channel) at a receiver, or clear it.
    pub fn set_monitor_sub(&mut self, id: Option<String>)
        ensures
            final(self)@.monitored_sub == monitor_after(old(self)@.monitored_sub, opt_id(id), old(self)@.running),
            final(self)@.running == old(self)@.running,
            final(self)@.monitored == old(self)@.monitored,
            final(self)@.watched == old(self)@.watched,
            final(self)@.recording == old(self)@.recording,
    {
        proof {
            use_type_invariant(&*self);
        }
        match id {
            Some(s) => {
                if self.is_running(s.as_str()) {
                    self.monitored_sub = Some(s);
                }
            },
            None => {
                self.monitored_sub = None;
            },
        }
    }

    /// Set which receivers' waterfalls are on screen.
    pub fn set_watched(&mut self, ids: Vec<String>)
        ensures
            forall|x: Seq<char>| has_id(final(self)@.watched, x) <==> has_id(ids@, x),
            final(self)@.running == old(self)@.running,
            final(self)@.monitored == old(self)@.monitored,
            final(self)@.monitored_sub == old(self)@.monitored_sub,
            final(self)@.recording == old(self)@.recording,
    {
        proof {
            use_type_invariant(&*self);
        }
        let mut w: Vec<String> = Vec::new();
        let mut i: usize = 0;
        while i < ids.len()
            invariant
                i <= ids@.len(),
                distinct_ids(w@),
                forall|x: Seq<char>| has_id(w@, x) <==> has_id(ids@.take(i as int), x),
            decreases ids@.len() - i,
        {
            let ghost t = ids@.take(i as int);
            let ghost t1 = ids@.take(i + 1);
            add_id(&mut w, ids[i].as_str());
            i += 1;
            assert forall|x: Seq<char>| has_id(w@, x) <==> has_id(t1, x) by {
                if has_id(t, x) {
                    let j = choose|j: int| 0 <= j < t.len() && (#[trigger] t[j])@ == x;
                    assert(t1[j] == t[j]);
                }
                if has_id(t1, x) {
                    let j = choose|j: int| 0 <= j < t1.len() && (#[trigger] t1[j])@ == x;
                    if j < t.len() {
                        assert(t[j] == t1[j]);
                    }
                }
                assert(t1[t.len() as int] == ids@[i - 1]);
            }
        }
        assert(ids@.take(ids@.len() as int) == ids@);
        self.watched = w;
    }

    /// Start recording a receiver.
    pub fn start_recording(&mut self, id: &str)
        ensures
            has_id(final(self)@.recording, id@),
            forall|x: Seq<char>| x != id@ ==> (has_id(final(self)@.recording, x) <==> has_id(old(self)@.recording, x)),
            final(self)@.running == old(self)@.running,
            final(self)@.monitored == old(self)@.monitored,
            final(self)@.monitored_sub == old(self)@.monitored_sub,
            final(self)@.watched == old(self)@.watched,
    {
        proof {
            use_type_invariant(&*self);
        }
        let mut v = Vec::new();
        std::mem::swap(&mut v, &mut self.recording);
        add_id(&mut v, id);
        self.recording = v;
    }

    /// Stop recording a receiver.
    pub fn stop_recording(&mut self, id: &str)
        ensures
            !has_id(final(self)@.recording, id@),
            forall|x: Seq<char>| x != id@ ==> (has_id(final(self)@.recording, x) <==> has_id(old(self)@.recording, x)),
            final(self)@.running == old(self)@.running,
            final(self)@.monitored == old(self)@.monitored,
            final(self)@.monitored_sub == old(self)@.monitored_sub,
            final(self)@.watched == old(self)@.watched,
    {
        proof {
            use_type_invariant(&*self);
        }
        let mut v = Vec::new();
        std::mem::swap(&mut v, &mut self.recording);
        remove_id(&mut v, id);
        self.recording = v;
    }

    /// The ids of the receivers being recorded.
    pub fn recording_ids(&self) -> (r: Vec<String>)
        ensures
            forall|x: Seq<char>| has_id(r@, x) <==> has_id(self@.recording, x),
            r@.len() == self@.recording.len(),
            distinct_ids(r@),
    {
        proof {
            use_type_invariant(self);
        }
        let r = self.recording.clone();
        assert forall|i: int| 0 <= i < r@.len() implies (#[trigger] r@[i])@ == self.recording@[i]@ by {
            assert(cloned::<String>(self.recording@[i], r@[i]));
        }
        assert forall|x: Seq<char>| has_id(r@, x) <==> has_id(self@.recording, x) by {
            if has_id(r@, x) {
                let i = choose|i: int| 0 <= i < r@.len() && (#[trigger] r@[i])@ == x;
                assert(cloned::<String>(self.recording@[i], r@[i]));
            }
            if has_id(self@.recording, x) {
                let i = choose|i: int| 0 <= i < self.recording@.len() && (#[trigger] self.recording@[i])@ == x;
                assert(cloned::<String>(self.recording@[i], r@[i]));
            }
        }
        r
    }

    /// Whether the receiver's audio goes to the UI (as MAIN or as SUB).
    pub fn is_monitored(&self, id: &str) -> (r: bool)
        ensures
            r == (self@.monitored == Some(id@) || self@.monitored_sub == Some(id@)),
    {
        let main = match &self.monitored {
            Some(m) => str_is(m.as_str(), id),
            None => false,
        };
        let sub = match &self.monitored_sub {
            Some(m) => str_is(m.as_str(), id),
            None => false,
        };
        main || sub
    }

    /// Whether the receiver's waterfall is on screen.
    pub fn is_watched(&self, id: &str) -> (r: bool)
        ensures
            r == has_id(self@.watched, id@),
    {
        position(&self.watched, id).is_some()
    }

    /// Whether the receiver is being recorded.
    pub fn is_recording(&self, id: &str) -> (r: bool)
        ensures
            r == has_id(self@.recording, id@),
    {
        position(&self.recording, id).is_some()
    }
}

} // verus!
