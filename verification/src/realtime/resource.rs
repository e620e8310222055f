//! The session table of the signaling service: at most `max_sessions`
//! sessions, each kept alive by heartbeats and expired after a timeout.
use vstd::prelude::*;
use crate::realtime::signaling::{SessionHandle, SignalingError, instant_now, nanos_since};

verus! {

/// The abstract state of the session table: the limit, the expiry timeout in
/// nanoseconds, and each session's id with the time of its last heartbeat.
pub struct ResourceState {
    pub max_sessions: nat,
    pub timeout_ns: nat,
    pub sessions: Seq<(Seq<char>, nat)>,
}

/// A session whose last heartbeat was at `last` is still alive at `now`.
pub open spec fn is_fresh(last: nat, now: nat, timeout_ns: nat) -> bool {
    now <= last + timeout_ns
}

/// The sessions still alive at `now`, in order.
pub open spec fn prune(s: Seq<(Seq<char>, nat)>, now: nat, timeout_ns: nat) -> Seq<(Seq<char>, nat)>
    decreases s.len(),
{
    if s.len() == 0 {
        s
    } else {
        let rest = prune(s.drop_first(), now, timeout_ns);
        if is_fresh(s[0].1, now, timeout_ns) {
            seq![s[0]] + rest
        } else {
            rest
        }
    }
}

/// The position of session `id`, or the number of sessions when absent.
pub open spec fn session_index(s: Seq<(Seq<char>, nat)>, id: Seq<char>) -> nat
    decreases s.len(),
{
    if s.len() == 0 {
        0
    } else if s[0].0 == id {
        0
    } else {
        1 + session_index(s.drop_first(), id)
    }
}

/// The session ids.
pub open spec fn session_ids(s: Seq<(Seq<char>, nat)>) -> Seq<Seq<char>> {
    s.map_values(|e: (Seq<char>, nat)| e.0)
}

/// `s` with session `id` (re)registered at `now`: its entry replaced, or appended.
pub open spec fn upsert(s: Seq<(Seq<char>, nat)>, id: Seq<char>, now: nat) -> Seq<(Seq<char>, nat)> {
    let k = session_index(s, id);
    if k < s.len() {
        s.update(k as int, (id, now))
    } else {
        s.push((id, now))
    }
}

/// Admitting session `id` at `now`: expired sessions are dropped; when the
/// remaining ones fill the limit the request is refused, else `id` is registered.
pub open spec fn allocate_step(st: ResourceState, id: Seq<char>, now: nat) -> (ResourceState, bool) {
    let kept = prune(st.sessions, now, st.timeout_ns);
    if kept.len() >= st.max_sessions {
        (ResourceState { sessions: kept, ..st }, false)
    } else {
        (ResourceState { sessions: upsert(kept, id, now), ..st }, true)
    }
}

/// A heartbeat of session `id` at `now`: known sessions are refreshed.
pub open spec fn heartbeat_step(st: ResourceState, id: Seq<char>, now: nat) -> (ResourceState, bool) {
    let k = session_index(st.sessions, id);
    if k < st.sessions.len() {
        (ResourceState { sessions: st.sessions.update(k as int, (id, now)), ..st }, true)
    } else {
        (st, false)
    }
}

/// Releasing session `id`: a known session is removed.
pub open spec fn release_step(st: ResourceState, id: Seq<char>) -> (ResourceState, bool) {
    let k = session_index(st.sessions, id);
    if k < st.sessions.len() {
        (ResourceState { sessions: st.sessions.remove(k as int), ..st }, true)
    } else {
        (st, false)
    }
}

/// The table respects its limit and holds each session once.
pub open spec fn state_wf(st: ResourceState) -> bool {
    st.sessions.len() <= st.max_sessions && session_ids(st.sessions).no_duplicates()
}

proof fn lemma_session_index(s: Seq<(Seq<char>, nat)>, id: Seq<char>)
    ensures
        session_index(s, id) <= s.len(),
        session_index(s, id) < s.len() ==> s[session_index(s, id) as int].0 == id,
        forall|j: int| 0 <= j < session_index(s, id) ==> s[j].0 != id,
    decreases s.len(),
{
    if s.len() > 0 && s[0].0 != id {
        lemma_session_index(s.drop_first(), id);
        assert forall|j: int| 0 <= j < session_index(s, id) implies s[j].0 != id by {
            if j > 0 {
                assert(s[j] == s.drop_first()[j - 1]);
            }
        }
    }
}

proof fn lemma_session_index_is(s: Seq<(Seq<char>, nat)>, id: Seq<char>, k: int)
    requires
        0 <= k <= s.len(),
        k == s.len() || s[k].0 == id,
        forall|j: int| 0 <= j < k ==> s[j].0 != id,
    ensures
        session_index(s, id) == k,
    decreases k,
{
    if k > 0 {
        lemma_session_index_is(s.drop_first(), id, k - 1);
    }
}

proof fn lemma_prune_subset(s: Seq<(Seq<char>, nat)>, now: nat, timeout_ns: nat)
    ensures
        prune(s, now, timeout_ns).len() <= s.len(),
        forall|x: (Seq<char>, nat)| prune(s, now, timeout_ns).contains(x) ==> s.contains(x),
    decreases s.len(),
{
    if s.len() > 0 {
        lemma_prune_subset(s.drop_first(), now, timeout_ns);
        let rest = prune(s.drop_first(), now, timeout_ns);
        assert forall|x: (Seq<char>, nat)| prune(s, now, timeout_ns).contains(x) implies s.contains(x) by {
            if rest.contains(x) {
                assert(s.drop_first().contains(x));
                let j = choose|j: int| 0 <= j < s.drop_first().len() && s.drop_first()[j] == x;
                assert(s[j + 1] == s.drop_first()[j]);
            } else {
                assert(prune(s, now, timeout_ns) =~= seq![s[0]] + rest);
                let j = choose|j: int| 0 <= j < prune(s, now, timeout_ns).len() && prune(s, now, timeout_ns)[j] == x;
                if j > 0 {
                    assert(rest[j - 1] == x);
                }
                assert(s[0] == x);
            }
        }
    }
}

proof fn lemma_prune_distinct(s: Seq<(Seq<char>, nat)>, now: nat, timeout_ns: nat)
    requires
        session_ids(s).no_duplicates(),
    ensures
        session_ids(prune(s, now, timeout_ns)).no_duplicates(),
    decreases s.len(),
{
    if s.len() > 0 {
        let t = s.drop_first();
        assert(session_ids(t) =~= session_ids(s).drop_first());
        lemma_prune_distinct(t, now, timeout_ns);
        lemma_prune_subset(t, now, timeout_ns);
        let rest = prune(t, now, timeout_ns);
        if is_fresh(s[0].1, now, timeout_ns) {
            let p = seq![s[0]] + rest;
            assert forall|i: int, j: int|
                0 <= i < session_ids(p).len() && 0 <= j < session_ids(p).len() && i != j implies
                session_ids(p)[i] != session_ids(p)[j] by {
                if i > 0 && j > 0 {
                    assert(session_ids(p)[i] == session_ids(rest)[i - 1]);
                    assert(session_ids(p)[j] == session_ids(rest)[j - 1]);
                } else {
                    let k = if i == 0 { j } else { i };
                    assert(rest.contains(rest[k - 1]));
                    assert(t.contains(rest[k - 1]));
                    let m = choose|m: int| 0 <= m < t.len() && t[m] == rest[k - 1];
                    assert(session_ids(s)[m + 1] == rest[k - 1].0);
                    assert(session_ids(s)[0] == s[0].0);
                }
            }
        }
    }
}

proof fn lemma_upsert_wf(s: Seq<(Seq<char>, nat)>, id: Seq<char>, now: nat)
    requires
        session_ids(s).no_duplicates(),
    ensures
        session_ids(upsert(s, id, now)).no_duplicates(),
        upsert(s, id, now).len() <= s.len() + 1,
        session_ids(upsert(s, id, now)).contains(id),
{
    lemma_session_index(s, id);
    let k = session_index(s, id);
    let u = upsert(s, id, now);
    if k < s.len() {
        assert(session_ids(u) =~= session_ids(s).update(k as int, id));
        assert(session_ids(s)[k as int] == id);
        assert(session_ids(s).update(k as int, id) =~= session_ids(s));
        assert(session_ids(u)[k as int] == id);
    } else {
        assert(session_ids(u) =~= session_ids(s).push(id));
        assert forall|i: int, j: int|
            0 <= i < session_ids(u).len() && 0 <= j < session_ids(u).len() && i != j implies
            session_ids(u)[i] != session_ids(u)[j] by {
            if i < s.len() && j < s.len() {
            } else if i < s.len() {
                assert(s[i].0 != id);
            } else if j < s.len() {
                assert(s[j].0 != id);
            }
        }
        assert(session_ids(u)[s.len() as int] == id);
    }
}

proof fn lemma_update_same_id_wf(s: Seq<(Seq<char>, nat)>, k: int, id: Seq<char>, now: nat)
    requires
        0 <= k < s.len(),
        s[k].0 == id,
        session_ids(s).no_duplicates(),
    ensures
        session_ids(s.update(k, (id, now))) == session_ids(s),
{
    assert(session_ids(s.update(k, (id, now))) =~= session_ids(s));
}

proof fn lemma_remove_wf(s: Seq<(Seq<char>, nat)>, k: int)
    requires
        0 <= k < s.len(),
        session_ids(s).no_duplicates(),
    ensures
        session_ids(s.remove(k)).no_duplicates(),
        !session_ids(s.remove(k)).contains(s[k].0),
{
    let r = s.remove(k);
    assert forall|i: int| 0 <= i < r.len() implies r[i] == (if i < k { s[i] } else { s[i + 1] }) by {}
    assert forall|i: int, j: int|
        0 <= i < session_ids(r).len() && 0 <= j < session_ids(r).len() && i != j implies
        session_ids(r)[i] != session_ids(r)[j] by {
        let ii = if i < k { i } else { i + 1 };
        let jj = if j < k { j } else { j + 1 };
        assert(session_ids(s)[ii] != session_ids(s)[jj]);
    }
    if session_ids(r).contains(s[k].0) {
        let i = choose|i: int| 0 <= i < session_ids(r).len() && session_ids(r)[i] == s[k].0;
        let ii = if i < k { i } else { i + 1 };
        assert(session_ids(s)[ii] == session_ids(s)[k]);
    }
}

/// Every session's last heartbeat is at or before time `t`.
pub open spec fn heartbeats_by(s: Seq<(Seq<char>, nat)>, t: nat) -> bool {
    forall|i: int| 0 <= i < s.len() ==> (#[trigger] s[i]).1 <= t
}

proof fn lemma_prune_bounded(s: Seq<(Seq<char>, nat)>, now: nat, timeout_ns: nat, t: nat)
    requires
        heartbeats_by(s, t),
    ensures
        heartbeats_by(prune(s, now, timeout_ns), t),
{
    lemma_prune_subset(s, now, timeout_ns);
    let p = prune(s, now, timeout_ns);
    assert forall|i: int| 0 <= i < p.len() implies (#[trigger] p[i]).1 <= t by {
        assert(p.contains(p[i]));
        assert(s.contains(p[i]));
        let j = choose|j: int| 0 <= j < s.len() && s[j] == p[i];
        assert(s[j].1 <= t);
    }
}

proof fn lemma_upsert_bounded(s: Seq<(Seq<char>, nat)>, id: Seq<char>, now: nat, t: nat)
    requires
        heartbeats_by(s, t),
        now <= t,
    ensures
        heartbeats_by(upsert(s, id, now), t),
{
    let u = upsert(s, id, now);
    let k = session_index(s, id);
    assert forall|i: int| 0 <= i < u.len() implies (#[trigger] u[i]).1 <= t by {
        if k < s.len() {
            if i != k {
                assert(u[i] == s[i]);
            }
        } else {
            if i < s.len() {
                assert(u[i] == s[i]);
            }
        }
    }
}

struct ResourceEntry {
    handle: SessionHandle,
    last_heartbeat_ns: u128,
}

proof fn lemma_index_of_entry(es: Seq<ResourceEntry>, m: int)
    requires
        0 <= m < es.len(),
        session_ids(es.map_values(|e: ResourceEntry| (e.handle.id@, e.last_heartbeat_ns as nat))).no_duplicates(),
    ensures
        session_index(
            es.map_values(|e: ResourceEntry| (e.handle.id@, e.last_heartbeat_ns as nat)),
            es[m].handle.id@,
        ) == m,
{
    let v = es.map_values(|e: ResourceEntry| (e.handle.id@, e.last_heartbeat_ns as nat));
    let id = es[m].handle.id@;
    lemma_session_index(v, id);
    let i = session_index(v, id) as int;
    assert(v[m].0 == id);
    if i < m {
        assert(session_ids(v)[i] == session_ids(v)[m]);
    }
}

/// The handles of the registered sessions other than `except` are those of
/// the same sessions in `before`.
pub open spec fn keeps_handles(after: &ResourceManager, before: &ResourceManager, except: Option<Seq<char>>) -> bool {
    forall|id: Seq<char>|
        #![trigger after.handle_of(id)]
        session_ids(after@.sessions).contains(id) && except != Some(id) ==> after.handle_of(id)
            == before.handle_of(id)
}

/// The session table: admitted sessions with their last heartbeat, bounded by
/// `max_sessions`; sessions without a heartbeat for the timeout are dropped
/// when a new session is admitted.
pub struct ResourceManager {
    max_sessions: u32,
    session_timeout_s: u64,
    timeout_ns: u128,
    epoch: std::time::Instant,
    clock_ns: u128,
    sessions: Vec<ResourceEntry>,
}

impl View for ResourceManager {
    type V = ResourceState;

    closed spec fn view(&self) -> ResourceState {
        ResourceState {
            max_sessions: self.max_sessions as nat,
            timeout_ns: self.timeout_ns as nat,
            sessions: self.sessions@.map_values(
                |e: ResourceEntry| (e.handle.id@, e.last_heartbeat_ns as nat),
            ),
        }
    }
}

impl ResourceManager {
    #[verifier::type_invariant]
    spec fn inv(&self) -> bool {
        &&& state_wf(self@)
        &&& self.timeout_ns == self.session_timeout_s as u128 * 1_000_000_000
        &&& heartbeats_by(self@.sessions, self.clock_ns as nat)
    }

    /// The table's clock: the latest time, in nanoseconds since the table was
    /// made, that the table has read or been given.
    pub closed spec fn clock(&self) -> nat {
        self.clock_ns as nat
    }

    /// Every registered session's last heartbeat is at or before the table's clock.
    pub open spec fn heartbeats_before_clock(&self) -> bool {
        heartbeats_by(self@.sessions, self.clock())
    }

    /// The clock moved to `t` if that is later.
    pub open spec fn clock_after(&self, t: nat) -> nat {
        if t > self.clock() {
            t
        } else {
            self.clock()
        }
    }

    /// The handles of the registered sessions, in table order; the `i`-th is
    /// the handle of the `i`-th session of the view.
    pub closed spec fn handles(&self) -> Seq<SessionHandle> {
        self.sessions@.map_values(|e: ResourceEntry| e.handle)
    }

    /// The handle registered for session `id` (meaningful when `id` is registered).
    pub open spec fn handle_of(&self, id: Seq<char>) -> SessionHandle {
        self.handles()[session_index(self@.sessions, id) as int]
    }

    proof fn lemma_kept_handles(&self, before: &ResourceManager, except: Option<Seq<char>>)
        requires
            session_ids(self@.sessions).no_duplicates(),
            session_ids(before@.sessions).no_duplicates(),
            forall|x: ResourceEntry|
                self.sessions@.contains(x) && except != Some(x.handle.id@) ==> before.sessions@.contains(x),
        ensures
            keeps_handles(self, before, except),
    {
        assert forall|id: Seq<char>|
            session_ids(self@.sessions).contains(id) && except != Some(id) implies self.handle_of(id)
            == before.handle_of(id) by {
            let v = self@.sessions;
            let j = choose|j: int| 0 <= j < session_ids(v).len() && session_ids(v)[j] == id;
            let x = self.sessions@[j];
            lemma_index_of_entry(self.sessions@, j);
            assert(self.sessions@.contains(x));
            let m = choose|m: int| 0 <= m < before.sessions@.len() && before.sessions@[m] == x;
            lemma_index_of_entry(before.sessions@, m);
        }
    }

    /// An empty table with the given limit and expiry timeout.
    pub fn new(max_sessions: u32, session_timeout_s: u64) -> (m: Self)
        ensures
            m@.max_sessions == max_sessions,
            m@.timeout_ns == session_timeout_s * 1_000_000_000,
            m@.sessions.len() == 0,
    {
        let m = ResourceManager {
            max_sessions,
            session_timeout_s,
            timeout_ns: session_timeout_s as u128 * 1_000_000_000,
            epoch: instant_now(),
            clock_ns: 0,
            sessions: Vec::new(),
        };
        assert(session_ids(m@.sessions) =~= Seq::<Seq<char>>::empty());
        m
    }

    /// The concurrency limit.
    pub fn max_sessions(&self) -> (n: u32)
        ensures
            n == self@.max_sessions,
    {
        self.max_sessions
    }

    /// The number of registered sessions; never above the limit.
    pub fn active_sessions(&self) -> (n: usize)
        ensures
            n == self@.sessions.len(),
            n <= self@.max_sessions,
    {
        proof { use_type_invariant(self); }
        self.sessions.len()
    }

    /// The handles of the registered sessions, in table order.
    pub fn session_handles(&self) -> (hs: Vec<SessionHandle>)
        ensures
            hs@.map_values(|h: SessionHandle| h.id@) == session_ids(self@.sessions),
            hs@.len() == self.handles().len(),
            forall|k: int|
                0 <= k < hs@.len() ==> (#[trigger] hs@[k]).id@ == self.handles()[k].id@
                    && hs@[k].owner@ == self.handles()[k].owner@ && hs@[k].client.client_type
                    == self.handles()[k].client.client_type && hs@[k].client.name@
                    == self.handles()[k].client.name@ && hs@[k].client.version@
                    == self.handles()[k].client.version@ && hs@[k].created_at
                    == self.handles()[k].created_at,
    {
        let mut hs: Vec<SessionHandle> = Vec::new();
        let mut i: usize = 0;
        while i < self.sessions.len()
            invariant
                i <= self.sessions@.len(),
                hs@.len() == i,
                forall|k: int|
                    0 <= k < i ==> (#[trigger] hs@[k]).id@ == self.sessions@[k].handle.id@
                        && hs@[k].owner@ == self.sessions@[k].handle.owner@ && hs@[k].client.client_type
                        == self.sessions@[k].handle.client.client_type && hs@[k].client.name@
                        == self.sessions@[k].handle.client.name@ && hs@[k].client.version@
                        == self.sessions@[k].handle.client.version@ && hs@[k].created_at
                        == self.sessions@[k].handle.created_at,
            decreases self.sessions.len() - i,
        {
            hs.push(self.sessions[i].handle.duplicate());
            i = i + 1;
        }
        assert(hs@.map_values(|h: SessionHandle| h.id@) =~= session_ids(self@.sessions));
        hs
    }

    fn find(&self, id: &str) -> (k: usize)
        ensures
            k == session_index(self@.sessions, id@),
    {
        let mut k: usize = 0;
        while k < self.sessions.len() && !crate::text::str_eq(self.sessions[k].handle.id.as_str(), id)
            invariant
                k <= self.sessions@.len(),
                forall|j: int| 0 <= j < k ==> self@.sessions[j].0 != id@,
            decreases self.sessions.len() - k,
        {
            k = k + 1;
        }
        proof { lemma_session_index_is(self@.sessions, id@, k as int); }
        k
    }

    /// Admits session `handle` at time `now_ns` (nanoseconds on the table's clock).
    pub fn try_allocate_at(&mut self, handle: SessionHandle, now_ns: u128) -> (r: Result<(), SignalingError>)
        ensures
            final(self)@ == allocate_step(old(self)@, handle.id@, now_ns as nat).0,
            r is Ok == allocate_step(old(self)@, handle.id@, now_ns as nat).1,
            r matches Err(e) ==> e == SignalingError::ResourceLimitExceeded,
            r is Ok ==> final(self).handle_of(handle.id@) == handle,
            keeps_handles(&*final(self), &*old(self), Some(handle.id@)),
            r is Err ==> keeps_handles(&*final(self), &*old(self), None),
            final(self).clock() == old(self).clock_after(now_ns as nat),
            final(self).heartbeats_before_clock(),
    {
        proof { use_type_invariant(&*self); }
        if now_ns > self.clock_ns {
            self.clock_ns = now_ns;
        }
        let ghost st = self@;
        let mut pending: Vec<ResourceEntry> = Vec::new();
        std::mem::swap(&mut pending, &mut self.sessions);
        let ghost orig = pending@.map_values(|e: ResourceEntry| (e.handle.id@, e.last_heartbeat_ns as nat));
        let ghost orig_entries = pending@;
        assert(orig == st.sessions);
        let mut kept: Vec<ResourceEntry> = Vec::new();
        while pending.len() > 0
            invariant
                forall|x: ResourceEntry| kept@.contains(x) ==> orig_entries.contains(x),
                forall|x: ResourceEntry| pending@.contains(x) ==> orig_entries.contains(x),
                prune(orig, now_ns as nat, st.timeout_ns) == kept@.map_values(
                    |e: ResourceEntry| (e.handle.id@, e.last_heartbeat_ns as nat),
                ) + prune(
                    pending@.map_values(|e: ResourceEntry| (e.handle.id@, e.last_heartbeat_ns as nat)),
                    now_ns as nat,
                    st.timeout_ns,
                ),
                self.timeout_ns == st.timeout_ns,
            decreases pending.len(),
        {
            let ghost pv = pending@.map_values(|e: ResourceEntry| (e.handle.id@, e.last_heartbeat_ns as nat));
            let ghost kv = kept@.map_values(|e: ResourceEntry| (e.handle.id@, e.last_heartbeat_ns as nat));
            let ghost pe = pending@;
            let ghost ke = kept@;
            let e = pending.remove(0);
            proof {
                assert(pending@.map_values(|e: ResourceEntry| (e.handle.id@, e.last_heartbeat_ns as nat)) =~= pv.drop_first());
                assert(pe.contains(pe[0]));
                assert forall|x: ResourceEntry| pending@.contains(x) implies orig_entries.contains(x) by {
                    let j = choose|j: int| 0 <= j < pending@.len() && pending@[j] == x;
                    assert(pe[j + 1] == x);
                    assert(pe.contains(x));
                }
            }
            let fresh = now_ns <= e.last_heartbeat_ns || now_ns - e.last_heartbeat_ns <= self.timeout_ns;
            if fresh {
                kept.push(e);
                proof {
                    assert forall|x: ResourceEntry| kept@.contains(x) implies orig_entries.contains(x) by {
                        let j = choose|j: int| 0 <= j < kept@.len() && kept@[j] == x;
                        if j < ke.len() {
                            assert(ke.contains(ke[j]));
                        }
                    }
                    assert(kept@.map_values(|e: ResourceEntry| (e.handle.id@, e.last_heartbeat_ns as nat)) =~= kv.push(pv[0]));
                    assert(kv.push(pv[0]) + prune(pv.drop_first(), now_ns as nat, st.timeout_ns) =~= kv + (seq![pv[0]] + prune(pv.drop_first(), now_ns as nat, st.timeout_ns)));
                }
            }
        }
        let ghost kept_view = kept@.map_values(|e: ResourceEntry| (e.handle.id@, e.last_heartbeat_ns as nat));
        proof {
            assert(kept_view =~= prune(orig, now_ns as nat, st.timeout_ns));
            lemma_prune_subset(orig, now_ns as nat, st.timeout_ns);
            lemma_prune_distinct(orig, now_ns as nat, st.timeout_ns);
            lemma_prune_bounded(orig, now_ns as nat, st.timeout_ns, self.clock_ns as nat);
        }
        if kept.len() >= self.max_sessions as usize {
            self.sessions = kept;
            proof { self.lemma_kept_handles(&*old(self), None); }
            return Err(SignalingError::ResourceLimitExceeded);
        }
        let ghost pre = kept@;
        let k = {
            let mut k: usize = 0;
            while k < kept.len() && !crate::text::str_eq(kept[k].handle.id.as_str(), handle.id.as_str())
                invariant
                    k <= kept@.len(),
                    kept_view == kept@.map_values(|e: ResourceEntry| (e.handle.id@, e.last_heartbeat_ns as nat)),
                    forall|j: int| 0 <= j < k ==> kept_view[j].0 != handle.id@,
                decreases kept.len() - k,
            {
                k = k + 1;
            }
            proof { lemma_session_index_is(kept_view, handle.id@, k as int); }
            k
        };
        let ghost hid = handle.id@;
        let ghost h = handle;
        let entry = ResourceEntry { handle, last_heartbeat_ns: now_ns };
        if k < kept.len() {
            kept.set(k, entry);
            proof {
                let nv = kept@.map_values(|e: ResourceEntry| (e.handle.id@, e.last_heartbeat_ns as nat));
                assert(nv =~= kept_view.update(k as int, (hid, now_ns as nat)));
                lemma_session_index_is(nv, hid, k as int);
            }
        } else {
            kept.push(entry);
            proof {
                let nv = kept@.map_values(|e: ResourceEntry| (e.handle.id@, e.last_heartbeat_ns as nat));
                assert(nv =~= kept_view.push((hid, now_ns as nat)));
                assert forall|j: int| 0 <= j < k implies nv[j].0 != hid by {
                    assert(nv[j] == kept_view[j]);
                }
                lemma_session_index_is(nv, hid, k as int);
            }
        }
        proof {
            lemma_upsert_wf(kept_view, hid, now_ns as nat);
            lemma_upsert_bounded(kept_view, hid, now_ns as nat, self.clock_ns as nat);
        }
        self.sessions = kept;
        proof {
            assert(self.handles()[k as int] == h);
            assert forall|x: ResourceEntry| self.sessions@.contains(x) && x.handle.id@ != hid implies
                orig_entries.contains(x) by {
                let j = choose|j: int| 0 <= j < self.sessions@.len() && self.sessions@[j] == x;
                assert(j != k);
                assert(pre[j] == x);
                assert(pre.contains(pre[j]));
            }
            self.lemma_kept_handles(&*old(self), Some(hid));
        }
        Ok(())
    }

    /// Reads the table's clock: nanoseconds since the table was created, and
    /// never earlier than a time the table has already seen.
    pub(crate) fn now_ns(&mut self) -> (t: u128)
        ensures
            t >= old(self).clock(),
            final(self).clock() == t,
            final(self)@ == old(self)@,
            final(self).handles() == old(self).handles(),
            final(self).heartbeats_before_clock(),
    {
        proof { use_type_invariant(&*self); }
        let read = nanos_since(&self.epoch);
        let t = if read < self.clock_ns {
            self.clock_ns
        } else {
            read
        };
        self.clock_ns = t;
        t
    }

    /// Admits session `handle` now.
    pub fn try_allocate(&mut self, handle: SessionHandle) -> (r: Result<(), SignalingError>)
        ensures
            exists|now: nat|
                final(self)@ == allocate_step(old(self)@, handle.id@, now).0 && r is Ok
                    == allocate_step(old(self)@, handle.id@, now).1,
            r matches Err(e) ==> e == SignalingError::ResourceLimitExceeded,
            r is Ok ==> final(self).handle_of(handle.id@) == handle,
            keeps_handles(&*final(self), &*old(self), Some(handle.id@)),
            r is Err ==> keeps_handles(&*final(self), &*old(self), None),
            final(self).clock() >= old(self).clock(),
            final(self)@ == allocate_step(old(self)@, handle.id@, final(self).clock()).0,
            r is Ok == allocate_step(old(self)@, handle.id@, final(self).clock()).1,
            final(self).heartbeats_before_clock(),
    {
        let now = self.now_ns();
        self.try_allocate_at(handle, now)
    }

    /// Records a heartbeat of session `session_id` at `now_ns`.
    pub fn heartbeat_at(&mut self, session_id: &str, now_ns: u128) -> (r: Result<(), SignalingError>)
        ensures
            final(self)@ == heartbeat_step(old(self)@, session_id@, now_ns as nat).0,
            r is Ok == heartbeat_step(old(self)@, session_id@, now_ns as nat).1,
            r matches Err(e) ==> e matches SignalingError::SessionNotFound { session_id: s } && s@
                == session_id@,
            final(self).handles() == old(self).handles(),
            final(self).clock() == old(self).clock_after(now_ns as nat),
            final(self).heartbeats_before_clock(),
    {
        proof { use_type_invariant(&*self); }
        if now_ns > self.clock_ns {
            self.clock_ns = now_ns;
        }
        let k = self.find(session_id);
        if k < self.sessions.len() {
            proof { lemma_session_index(self@.sessions, session_id@); }
            let ghost st = self@;
            let mut pending: Vec<ResourceEntry> = Vec::new();
            std::mem::swap(&mut pending, &mut self.sessions);
            let e = pending.remove(k);
            let ghost hid = e.handle.id@;
            let refreshed = ResourceEntry { handle: e.handle, last_heartbeat_ns: now_ns };
            pending.insert(k, refreshed);
            proof {
                assert(pending@.map_values(|e: ResourceEntry| e.handle) =~= old(self).handles());
                assert(pending@.map_values(|e: ResourceEntry| (e.handle.id@, e.last_heartbeat_ns as nat)) =~= st.sessions.update(k as int, (session_id@, now_ns as nat)));
                lemma_update_same_id_wf(st.sessions, k as int, session_id@, now_ns as nat);
                let u = st.sessions.update(k as int, (session_id@, now_ns as nat));
                assert forall|i: int| 0 <= i < u.len() implies (#[trigger] u[i]).1 <= self.clock_ns by {
                    if i != k {
                        assert(u[i] == st.sessions[i]);
                    }
                }
            }
            self.sessions = pending;
            Ok(())
        } else {
            Err(SignalingError::SessionNotFound { session_id: crate::text::owned(session_id) })
        }
    }

    /// Records a heartbeat of session `session_id` now.
    pub fn heartbeat(&mut self, session_id: &str) -> (r: Result<(), SignalingError>)
        ensures
            exists|now: nat|
                final(self)@ == heartbeat_step(old(self)@, session_id@, now).0 && r is Ok
                    == heartbeat_step(old(self)@, session_id@, now).1,
            r matches Err(e) ==> e matches SignalingError::SessionNotFound { session_id: s } && s@
                == session_id@,
            final(self).handles() == old(self).handles(),
            final(self).clock() >= old(self).clock(),
            final(self)@ == heartbeat_step(old(self)@, session_id@, final(self).clock()).0,
            r is Ok == heartbeat_step(old(self)@, session_id@, final(self).clock()).1,
            final(self).heartbeats_before_clock(),
    {
        let now = self.now_ns();
        self.heartbeat_at(session_id, now)
    }

    /// Removes session `session_id`.
    pub fn release(&mut self, session_id: &str) -> (r: Result<(), SignalingError>)
        ensures
            final(self)@ == release_step(old(self)@, session_id@).0,
            r is Ok == release_step(old(self)@, session_id@).1,
            r matches Err(e) ==> e matches SignalingError::SessionNotFound { session_id: s } && s@
                == session_id@,
            r is Ok ==> final(self).handles() == old(self).handles().remove(
                session_index(old(self)@.sessions, session_id@) as int,
            ),
            r is Err ==> final(self).handles() == old(self).handles(),
            keeps_handles(&*final(self), &*old(self), None),
            final(self).clock() == old(self).clock(),
            final(self).heartbeats_before_clock(),
    {
        proof { use_type_invariant(&*self); }
        let k = self.find(session_id);
        if k < self.sessions.len() {
            let ghost st = self@;
            let mut pending: Vec<ResourceEntry> = Vec::new();
            std::mem::swap(&mut pending, &mut self.sessions);
            let _removed = pending.remove(k);
            proof {
                assert(pending@.map_values(|e: ResourceEntry| e.handle) =~= old(self).handles().remove(k as int));
                assert(pending@.map_values(|e: ResourceEntry| (e.handle.id@, e.last_heartbeat_ns as nat)) =~= st.sessions.remove(k as int));
                lemma_remove_wf(st.sessions, k as int);
                let rm = st.sessions.remove(k as int);
                assert forall|i: int| 0 <= i < rm.len() implies (#[trigger] rm[i]).1 <= self.clock_ns by {
                    if i < k {
                        assert(rm[i] == st.sessions[i]);
                    } else {
                        assert(rm[i] == st.sessions[i + 1]);
                    }
                }
                assert forall|x: ResourceEntry| pending@.contains(x) implies old(self).sessions@.contains(x) by {
                    let j = choose|j: int| 0 <= j < pending@.len() && pending@[j] == x;
                    let jj = if j < k { j } else { j + 1 };
                    assert(old(self).sessions@[jj] == x);
                }
            }
            self.sessions = pending;
            proof { self.lemma_kept_handles(&*old(self), None); }
            Ok(())
        } else {
            Err(SignalingError::SessionNotFound { session_id: crate::text::owned(session_id) })
        }
    }
}


/// Every table operation keeps the table within its limit and each session
/// registered once.
pub proof fn law_operations_keep_limit(st: ResourceState, id: Seq<char>, now: nat)
    requires
        state_wf(st),
    ensures
        state_wf(allocate_step(st, id, now).0),
        state_wf(heartbeat_step(st, id, now).0),
        state_wf(release_step(st, id).0),
{
    lemma_prune_subset(st.sessions, now, st.timeout_ns);
    lemma_prune_distinct(st.sessions, now, st.timeout_ns);
    let kept = prune(st.sessions, now, st.timeout_ns);
    if kept.len() < st.max_sessions {
        lemma_upsert_wf(kept, id, now);
    }
    lemma_session_index(st.sessions, id);
    let k = session_index(st.sessions, id);
    if k < st.sessions.len() {
        lemma_update_same_id_wf(st.sessions, k as int, id, now);
        lemma_remove_wf(st.sessions, k as int);
    }
}

/// An admitted session is registered; releasing it then succeeds and leaves it
/// unregistered, so a second release or a heartbeat of it is refused.
pub proof fn law_admit_then_release(st: ResourceState, id: Seq<char>, now: nat, later: nat)
    requires
        state_wf(st),
        allocate_step(st, id, now).1,
    ensures
        session_ids(allocate_step(st, id, now).0.sessions).contains(id),
        release_step(allocate_step(st, id, now).0, id).1,
        !session_ids(release_step(allocate_step(st, id, now).0, id).0.sessions).contains(id),
        !release_step(release_step(allocate_step(st, id, now).0, id).0, id).1,
        !heartbeat_step(release_step(allocate_step(st, id, now).0, id).0, id, later).1,
{
    law_operations_keep_limit(st, id, now);
    let kept = prune(st.sessions, now, st.timeout_ns);
    lemma_prune_distinct(st.sessions, now, st.timeout_ns);
    lemma_upsert_wf(kept, id, now);
    let a = allocate_step(st, id, now).0;
    lemma_session_index(a.sessions, id);
    let k = session_index(a.sessions, id);
    let i = choose|i: int| 0 <= i < session_ids(a.sessions).len() && session_ids(a.sessions)[i] == id;
    if k >= a.sessions.len() {
        assert(a.sessions[i].0 == id);
    }
    lemma_remove_wf(a.sessions, k as int);
    let r = release_step(a, id).0;
    lemma_session_index(r.sessions, id);
    if session_index(r.sessions, id) < r.sessions.len() {
        assert(session_ids(r.sessions)[session_index(r.sessions, id) as int] == id);
    }
}

/// Refused requests change nothing: a heartbeat or release of an unknown
/// session leaves the table as it was.
pub proof fn law_unknown_session_unchanged(st: ResourceState, id: Seq<char>, now: nat)
    requires
        !session_ids(st.sessions).contains(id),
    ensures
        !heartbeat_step(st, id, now).1,
        heartbeat_step(st, id, now).0 == st,
        !release_step(st, id).1,
        release_step(st, id).0 == st,
{
    lemma_session_index(st.sessions, id);
    if session_index(st.sessions, id) < st.sessions.len() {
        assert(session_ids(st.sessions)[session_index(st.sessions, id) as int] == id);
    }
}


proof fn lemma_prune_fresh(s: Seq<(Seq<char>, nat)>, now: nat, timeout_ns: nat)
    ensures
        forall|i: int|
            0 <= i < prune(s, now, timeout_ns).len() ==> is_fresh(
                (#[trigger] prune(s, now, timeout_ns)[i]).1,
                now,
                timeout_ns,
            ),
    decreases s.len(),
{
    if s.len() > 0 {
        lemma_prune_fresh(s.drop_first(), now, timeout_ns);
        let rest = prune(s.drop_first(), now, timeout_ns);
        let p = prune(s, now, timeout_ns);
        if is_fresh(s[0].1, now, timeout_ns) {
            assert forall|i: int| 0 <= i < p.len() implies is_fresh((#[trigger] p[i]).1, now, timeout_ns) by {
                if i > 0 {
                    assert(p[i] == rest[i - 1]);
                }
            }
        }
    }
}

proof fn lemma_prune_keeps_fresh(s: Seq<(Seq<char>, nat)>, now: nat, timeout_ns: nat, j: int)
    requires
        0 <= j < s.len(),
        is_fresh(s[j].1, now, timeout_ns),
    ensures
        prune(s, now, timeout_ns).contains(s[j]),
    decreases s.len(),
{
    let rest = prune(s.drop_first(), now, timeout_ns);
    let p = prune(s, now, timeout_ns);
    if j == 0 {
        assert(p[0] == s[0]);
    } else {
        lemma_prune_keeps_fresh(s.drop_first(), now, timeout_ns, j - 1);
        assert(s.drop_first()[j - 1] == s[j]);
        let m = choose|m: int| 0 <= m < rest.len() && rest[m] == s[j];
        if is_fresh(s[0].1, now, timeout_ns) {
            assert(p[m + 1] == s[j]);
        } else {
            assert(p[m] == s[j]);
        }
    }
}

proof fn lemma_upsert_keeps_ids(s: Seq<(Seq<char>, nat)>, id: Seq<char>, now: nat, sid: Seq<char>)
    requires
        session_ids(s).contains(sid),
    ensures
        session_ids(upsert(s, id, now)).contains(sid),
{
    lemma_session_index(s, id);
    let k = session_index(s, id);
    let u = upsert(s, id, now);
    let j = choose|j: int| 0 <= j < session_ids(s).len() && session_ids(s)[j] == sid;
    if k < s.len() && j == k {
        assert(session_ids(u)[j] == id);
        assert(s[k as int].0 == id);
    } else {
        assert(session_ids(u)[j] == sid);
    }
}

/// Admission at time `now` leaves no expired session in the table: every
/// session kept or admitted had its last heartbeat at most the timeout before
/// `now`. (The table's operations admit at the table's clock.)
pub proof fn law_admission_drops_expired(st: ResourceState, id: Seq<char>, now: nat)
    ensures
        forall|i: int|
            0 <= i < allocate_step(st, id, now).0.sessions.len() ==> now <= (#[trigger] allocate_step(
                st,
                id,
                now,
            ).0.sessions[i]).1 + st.timeout_ns,
{
    lemma_prune_fresh(st.sessions, now, st.timeout_ns);
    let kept = prune(st.sessions, now, st.timeout_ns);
    if kept.len() < st.max_sessions {
        let u = upsert(kept, id, now);
        lemma_session_index(kept, id);
        let k = session_index(kept, id);
        assert forall|i: int| 0 <= i < u.len() implies now <= (#[trigger] u[i]).1 + st.timeout_ns by {
            if k < kept.len() {
                if i != k {
                    assert(u[i] == kept[i]);
                }
            } else if i < kept.len() {
                assert(u[i] == kept[i]);
            }
        }
    }
}

/// A heartbeat keeps a session alive: a session that heartbeats at `t` is
/// still registered after an admission at any time up to the timeout after
/// `t`, whether that admission is granted or refused.
pub proof fn law_heartbeat_keeps_alive(st: ResourceState, sid: Seq<char>, t: nat, id: Seq<char>, now: nat)
    requires
        session_ids(st.sessions).contains(sid),
        now <= t + st.timeout_ns,
    ensures
        heartbeat_step(st, sid, t).1,
        session_ids(allocate_step(heartbeat_step(st, sid, t).0, id, now).0.sessions).contains(sid),
{
    lemma_session_index(st.sessions, sid);
    let k = session_index(st.sessions, sid);
    let j = choose|j: int| 0 <= j < session_ids(st.sessions).len() && session_ids(st.sessions)[j] == sid;
    assert(k < st.sessions.len()) by {
        if k >= st.sessions.len() {
            assert(st.sessions[j].0 != sid);
        }
    }
    let hb = heartbeat_step(st, sid, t).0;
    assert(hb.sessions[k as int] == (sid, t));
    lemma_prune_keeps_fresh(hb.sessions, now, st.timeout_ns, k as int);
    let kept = prune(hb.sessions, now, st.timeout_ns);
    let m = choose|m: int| 0 <= m < kept.len() && kept[m] == (sid, t);
    assert(session_ids(kept)[m] == sid);
    assert(session_ids(kept).contains(sid));
    if kept.len() < st.max_sessions {
        lemma_upsert_keeps_ids(kept, id, now, sid);
    }
}

} // verus!
