//! Transport-level descriptions of the streaming service: stream kinds,
//! connection profiles, control messages, transport errors and the bandwidth
//! caps of connected sessions.
use vstd::prelude::*;
use crate::backend::whisper::{assoc_lookup, lemma_assoc_lookup_absent, lemma_assoc_lookup_index};
use crate::text::{owned, str_eq};

verus! {

/// Failures of a transport.
#[derive(Debug, Clone, PartialEq, Eq)]
pub enum TransportError {
    AlreadyConnected { session_id: String },
    NotFound { session_id: String },
    Send,
    Internal { message: String },
}

/// The logical streams a session can carry.
#[derive(Debug, Clone, Copy, PartialEq, Eq, Hash, Structural)]
pub enum StreamKind {
    Audio,
    PartialTranscript,
    FinalTranscript,
    Control,
}

/// What a session's connection is set up with: bitrate cap, latency budget and
/// the set of streams it carries (each kind once).
#[derive(Debug, Clone)]
pub struct ConnectionProfile {
    pub max_bitrate_kbps: u32,
    pub latency_budget_ms: u32,
    pub stream_kinds: Vec<StreamKind>,
}

impl ConnectionProfile {
    /// A profile carrying the given stream kinds; repeated kinds are kept once,
    /// in order of first appearance.
    pub fn new(max_bitrate_kbps: u32, latency_budget_ms: u32, stream_kinds: Vec<StreamKind>) -> (p: Self)
        ensures
            p.max_bitrate_kbps == max_bitrate_kbps,
            p.latency_budget_ms == latency_budget_ms,
            p.stream_kinds@.no_duplicates(),
            forall|k: StreamKind| p.stream_kinds@.contains(k) <==> stream_kinds@.contains(k),
    {
        let mut kinds: Vec<StreamKind> = Vec::new();
        let mut i: usize = 0;
        while i < stream_kinds.len()
            invariant
                i <= stream_kinds@.len(),
                kinds@.no_duplicates(),
                forall|k: StreamKind| kinds@.contains(k) <==> stream_kinds@.take(i as int).contains(k),
            decreases stream_kinds.len() - i,
        {
            let k = stream_kinds[i];
            let mut j: usize = 0;
            let mut seen = false;
            while j < kinds.len()
                invariant
                    j <= kinds@.len(),
                    seen <==> exists|m: int| 0 <= m < j && kinds@[m] == k,
                decreases kinds.len() - j,
            {
                if kinds[j] == k {
                    seen = true;
                }
                j = j + 1;
            }
            let ghost before = kinds@;
            if !seen {
                kinds.push(k);
                proof {
                    assert forall|a: int, b: int| 0 <= a < kinds@.len() && 0 <= b < kinds@.len() && a != b implies kinds@[a] != kinds@[b] by {
                        if a < before.len() && b < before.len() {
                        } else if a < before.len() {
                            assert(kinds@[b] == k);
                        } else {
                            assert(kinds@[a] == k);
                        }
                    }
                }
            }
            proof {
                assert(stream_kinds@.take(i + 1) =~= stream_kinds@.take(i as int).push(k));
                assert forall|x: StreamKind| kinds@.contains(x) <==> stream_kinds@.take(i + 1).contains(x) by {
                    if x == k {
                        assert(stream_kinds@.take(i + 1)[i as int] == k);
                        if seen {
                            let m = choose|m: int| 0 <= m < before.len() && before[m] == k;
                            assert(kinds@[m] == k);
                        } else {
                            assert(kinds@[before.len() as int] == k);
                        }
                    } else {
                        if kinds@.contains(x) {
                            let m = choose|m: int| 0 <= m < kinds@.len() && kinds@[m] == x;
                            assert(before[m] == x);
                            assert(before.contains(x));
                            assert(stream_kinds@.take(i as int).contains(x));
                            let t0 = stream_kinds@.take(i as int);
                            let q = choose|q: int| 0 <= q < t0.len() && #[trigger] t0[q] == x;
                            assert(stream_kinds@.take(i + 1)[q] == x);
                        }
                        if stream_kinds@.take(i + 1).contains(x) {
                            let t1 = stream_kinds@.take(i + 1);
                            let q = choose|q: int| 0 <= q < t1.len() && #[trigger] t1[q] == x;
                            assert(stream_kinds@.take(i as int)[q] == x);
                            assert(before.contains(x));
                            let m = choose|m: int| 0 <= m < before.len() && before[m] == x;
                            assert(kinds@[m] == x);
                        }
                    }
                }
            }
            i = i + 1;
        }
        assert(stream_kinds@.take(i as int) =~= stream_kinds@);
        ConnectionProfile { max_bitrate_kbps, latency_budget_ms, stream_kinds: kinds }
    }
}

/// Control messages of a WebRTC session.
#[derive(Debug, Clone, PartialEq, Eq, Structural)]
pub enum ControlMessage {
    BitrateChange(u32),
    Close,
}

// =============================================================================
// Bandwidth limits
// =============================================================================

/// No two entries carry the same session id.
pub open spec fn keys_distinct(s: Seq<(Seq<char>, u32)>) -> bool {
    forall|i: int, j: int| 0 <= i < s.len() && 0 <= j < s.len() && i != j ==> s[i].0 != s[j].0
}

proof fn lemma_lookup_distinct(s: Seq<(Seq<char>, u32)>, k: Seq<char>)
    requires
        keys_distinct(s),
    ensures
        (forall|i: int| 0 <= i < s.len() ==> s[i].0 != k) ==> assoc_lookup(s, k) is None,
        forall|i: int| 0 <= i < s.len() && s[i].0 == k ==> assoc_lookup(s, k) == Some(s[i].1),
{
    if forall|i: int| 0 <= i < s.len() ==> s[i].0 != k {
        lemma_assoc_lookup_absent(s, k);
    }
    assert forall|i: int| 0 <= i < s.len() && s[i].0 == k implies assoc_lookup(s, k) == Some(s[i].1) by {
        assert forall|j: int| 0 <= j < i implies s[j].0 != k by {
            assert(s[j].0 != s[i].0);
        }
        lemma_assoc_lookup_index(s, k, i);
    }
}

/// The bitrate caps of the connected sessions, in kbit/s, each session once.
#[derive(Debug)]
pub struct BandwidthTable {
    entries: Vec<(String, u32)>,
}

impl View for BandwidthTable {
    type V = Seq<(Seq<char>, u32)>;

    closed spec fn view(&self) -> Seq<(Seq<char>, u32)> {
        self.entries@.map_values(|e: (String, u32)| (e.0@, e.1))
    }
}

impl BandwidthTable {
    #[verifier::type_invariant]
    spec fn wf(&self) -> bool {
        keys_distinct(self@)
    }

    /// The cap of session `id`, if it is connected.
    pub open spec fn limit_of(&self, id: Seq<char>) -> Option<u32> {
        assoc_lookup(self@, id)
    }

    /// No session connected.
    pub fn new() -> (t: Self)
        ensures
            forall|k: Seq<char>| #[trigger] t.limit_of(k) is None,
    {
        let t = BandwidthTable { entries: Vec::new() };
        proof {
            assert forall|k: Seq<char>| #[trigger] t.limit_of(k) is None by {
                lemma_assoc_lookup_absent(t@, k);
            }
        }
        t
    }

    fn find(&self, id: &str) -> (r: Option<usize>)
        ensures
            r matches Some(i) ==> i < self@.len() && self@[i as int].0 == id@,
            r is None ==> forall|j: int| 0 <= j < self@.len() ==> self@[j].0 != id@,
    {
        let mut i: usize = 0;
        while i < self.entries.len()
            invariant
                i <= self.entries@.len(),
                self@.len() == self.entries@.len(),
                self@ == self.entries@.map_values(|e: (String, u32)| (e.0@, e.1)),
                forall|j: int| 0 <= j < i ==> self@[j].0 != id@,
            decreases self.entries.len() - i,
        {
            if str_eq(self.entries[i].0.as_str(), id) {
                return Some(i);
            }
            i = i + 1;
        }
        None
    }

    /// Connects session `id` with cap `max_bitrate_kbps`; a session can be
    /// connected only once.
    pub fn connect(&mut self, id: &str, max_bitrate_kbps: u32) -> (r: Result<(), TransportError>)
        ensures
            old(self).limit_of(id@) is Some ==> (r matches Err(
                TransportError::AlreadyConnected { session_id },
            ) && session_id@ == id@),
            old(self).limit_of(id@) is Some ==> final(self)@ == old(self)@,
            old(self).limit_of(id@) is None ==> r is Ok,
            old(self).limit_of(id@) is None ==> forall|k: Seq<char>|
                #[trigger] final(self).limit_of(k) == if k == id@ {
                    Some(max_bitrate_kbps)
                } else {
                    old(self).limit_of(k)
                },
    {
        proof { use_type_invariant(&*self); }
        let ghost before = self@;
        match self.find(id) {
            Some(i) => {
                proof { lemma_lookup_distinct(before, id@); }
                Err(TransportError::AlreadyConnected { session_id: owned(id) })
            },
            None => {
                proof { lemma_lookup_distinct(before, id@); }
                let mut entries: Vec<(String, u32)> = Vec::new();
                std::mem::swap(&mut entries, &mut self.entries);
                entries.push((owned(id), max_bitrate_kbps));
                proof {
                    let after = entries@.map_values(|e: (String, u32)| (e.0@, e.1));
                    assert(after =~= before.push((id@, max_bitrate_kbps)));
                    assert forall|a: int, b: int| 0 <= a < after.len() && 0 <= b < after.len() && a != b implies after[a].0 != after[b].0 by {
                        if a < before.len() && b < before.len() {
                            assert(after[a] == before[a]);
                            assert(after[b] == before[b]);
                        } else if a < before.len() {
                            assert(after[a] == before[a]);
                        } else {
                            assert(after[b] == before[b]);
                        }
                    }
                }
                self.entries = entries;
                proof {
                    assert(self@ =~= before.push((id@, max_bitrate_kbps)));
                    let after = self@;
                    assert forall|k: Seq<char>| #[trigger] self.limit_of(k) == if k == id@ {
                        Some(max_bitrate_kbps)
                    } else {
                        old(self).limit_of(k)
                    } by {
                        lemma_lookup_distinct(after, k);
                        lemma_lookup_distinct(before, k);
                        assert(after[before.len() as int] == (id@, max_bitrate_kbps));
                        if k != id@ {
                            if exists|m: int| 0 <= m < before.len() && before[m].0 == k {
                                let m = choose|m: int| 0 <= m < before.len() && before[m].0 == k;
                                assert(after[m] == before[m]);
                            } else {
                                assert forall|j: int| 0 <= j < after.len() implies after[j].0 != k by {
                                    if j < before.len() {
                                        assert(after[j] == before[j]);
                                    }
                                }
                            }
                        }
                    }
                }
                Ok(())
            },
        }
    }

    /// Disconnects session `id`.
    pub fn disconnect(&mut self, id: &str) -> (r: Result<(), TransportError>)
        ensures
            old(self).limit_of(id@) is None ==> (r matches Err(TransportError::NotFound { session_id })
                && session_id@ == id@) && final(self)@ == old(self)@,
            old(self).limit_of(id@) is Some ==> r is Ok,
            forall|k: Seq<char>|
                #[trigger] final(self).limit_of(k) == if k == id@ {
                    None
                } else {
                    old(self).limit_of(k)
                },
    {
        proof { use_type_invariant(&*self); }
        let ghost before = self@;
        match self.find(id) {
            None => {
                proof {
                    lemma_lookup_distinct(before, id@);
                }
                Err(TransportError::NotFound { session_id: owned(id) })
            },
            Some(i) => {
                proof { lemma_lookup_distinct(before, id@); }
                let mut entries: Vec<(String, u32)> = Vec::new();
                std::mem::swap(&mut entries, &mut self.entries);
                entries.remove(i);
                proof {
                    let ii = i as int;
                    let after = entries@.map_values(|e: (String, u32)| (e.0@, e.1));
                    assert(after =~= before.remove(ii));
                    assert forall|a: int, b: int| 0 <= a < after.len() && 0 <= b < after.len() && a != b implies after[a].0 != after[b].0 by {
                        let a0 = if a < ii { a } else { a + 1 };
                        let b0 = if b < ii { b } else { b + 1 };
                        assert(after[a] == before[a0]);
                        assert(after[b] == before[b0]);
                    }
                }
                self.entries = entries;
                proof {
                    let ii = i as int;
                    assert(self@ =~= before.remove(ii));
                    let after = self@;
                    assert forall|k: Seq<char>| #[trigger] self.limit_of(k) == if k == id@ {
                        None
                    } else {
                        old(self).limit_of(k)
                    } by {
                        lemma_lookup_distinct(after, k);
                        lemma_lookup_distinct(before, k);
                        if k == id@ {
                            assert forall|j: int| 0 <= j < after.len() implies after[j].0 != k by {
                                let j0 = if j < ii { j } else { j + 1 };
                                assert(after[j] == before[j0]);
                                assert(j0 != ii);
                            }
                        } else if exists|m: int| 0 <= m < before.len() && before[m].0 == k {
                            let m = choose|m: int| 0 <= m < before.len() && before[m].0 == k;
                            assert(m != ii);
                            let m1 = if m < ii { m } else { m - 1 };
                            assert(after[m1] == before[m]);
                        } else {
                            assert forall|j: int| 0 <= j < after.len() implies after[j].0 != k by {
                                let j0 = if j < ii { j } else { j + 1 };
                                assert(after[j] == before[j0]);
                            }
                        }
                    }
                }
                Ok(())
            },
        }
    }

    /// Changes the cap of session `id`.
    pub fn apply_bandwidth_limit(&mut self, id: &str, max_bitrate_kbps: u32) -> (r: Result<(), TransportError>)
        ensures
            old(self).limit_of(id@) is None ==> (r matches Err(TransportError::NotFound { session_id })
                && session_id@ == id@) && final(self)@ == old(self)@,
            old(self).limit_of(id@) is Some ==> r is Ok && forall|k: Seq<char>|
                #[trigger] final(self).limit_of(k) == if k == id@ {
                    Some(max_bitrate_kbps)
                } else {
                    old(self).limit_of(k)
                },
    {
        proof { use_type_invariant(&*self); }
        let ghost before = self@;
        match self.find(id) {
            None => {
                proof { lemma_lookup_distinct(before, id@); }
                Err(TransportError::NotFound { session_id: owned(id) })
            },
            Some(i) => {
                proof { lemma_lookup_distinct(before, id@); }
                let mut entries: Vec<(String, u32)> = Vec::new();
                std::mem::swap(&mut entries, &mut self.entries);
                entries.set(i, (owned(id), max_bitrate_kbps));
                proof {
                    let ii = i as int;
                    let after = entries@.map_values(|e: (String, u32)| (e.0@, e.1));
                    assert(after =~= before.update(ii, (id@, max_bitrate_kbps)));
                    assert forall|a: int, b: int| 0 <= a < after.len() && 0 <= b < after.len() && a != b implies after[a].0 != after[b].0 by {
                        assert(after[a].0 == before[a].0);
                        assert(after[b].0 == before[b].0);
                    }
                }
                self.entries = entries;
                proof {
                    let ii = i as int;
                    assert(self@ =~= before.update(ii, (id@, max_bitrate_kbps)));
                    let after = self@;
                    assert forall|k: Seq<char>| #[trigger] self.limit_of(k) == if k == id@ {
                        Some(max_bitrate_kbps)
                    } else {
                        old(self).limit_of(k)
                    } by {
                        lemma_lookup_distinct(after, k);
                        lemma_lookup_distinct(before, k);
                        assert(after[ii] == (id@, max_bitrate_kbps));
                        if k != id@ {
                            if exists|m: int| 0 <= m < before.len() && before[m].0 == k {
                                let m = choose|m: int| 0 <= m < before.len() && before[m].0 == k;
                                assert(m != ii);
                                assert(after[m] == before[m]);
                            } else {
                                assert forall|j: int| 0 <= j < after.len() implies after[j].0 != k by {
                                    assert(after[j].0 == before[j].0);
                                }
                            }
                        }
                    }
                }
                Ok(())
            },
        }
    }

    /// The cap of session `id`.
    pub fn bandwidth_limit(&self, id: &str) -> (r: Result<u32, TransportError>)
        ensures
            self.limit_of(id@) matches Some(v) ==> r == Ok::<u32, TransportError>(v),
            self.limit_of(id@) is None ==> (r matches Err(TransportError::NotFound { session_id })
                && session_id@ == id@),
    {
        proof { use_type_invariant(self); }
        proof { lemma_lookup_distinct(self@, id@); }
        match self.find(id) {
            Some(i) => Ok(self.entries[i].1),
            None => Err(TransportError::NotFound { session_id: owned(id) }),
        }
    }
}

} // verus!
