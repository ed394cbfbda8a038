//! The in-memory session registry: for each license key, the client
//! sessions that checked in under it.
use vstd::prelude::*;
use dashmap::DashMap;
use crate::concurrent::lists_keys_once;

verus! {

/// One client process's claim against a license.
#[derive(Debug, Clone)]
pub struct Session {
    pub session_id: String,
    pub hwid_hash: Option<String>,
    /// Last heartbeat, in seconds since the Unix epoch.
    pub last_seen: i64,
}

/// What `touch_or_insert` did.
#[derive(Debug, Clone, Copy, PartialEq, Eq, Structural)]
pub enum Outcome {
    /// The session was already there; its `last_seen` was moved to now.
    Refreshed,
    /// A new session was recorded.
    Inserted,
    /// The key already has `current` live sessions of at most `max`; nothing
    /// was changed.
    LimitReached { current: usize, max: usize },
}

/// The map from license key to its sessions.
pub type SessionMap = DashMap<String, Vec<Session>>;

/// What the session map holds: for each key (by view), its sessions in order.
pub uninterp spec fn session_lists(m: SessionMap) -> Map<Seq<char>, Seq<Session>>;

/// Relies on dashmap's `DashMap::new`: an empty map.
#[verifier::external_body]
fn lists_new() -> (r: SessionMap)
    ensures
        session_lists(r) == no_lists(),
{
    DashMap::new()
}

/// Relies on dashmap's `DashMap::get`: a copy of the list under `key`, if any.
#[verifier::external_body]
fn lists_get(m: &SessionMap, key: &String) -> (r: Option<Vec<Session>>)
    ensures
        r matches Some(v) ==> session_lists(*m).contains_key(key@) && v@ == session_lists(*m)[key@],
        r is None ==> !session_lists(*m).contains_key(key@),
{
    m.get(key).map(|e| e.value().clone())
}

/// Relies on dashmap's `DashMap::insert`: `key` now maps to `v`.
#[verifier::external_body]
fn lists_insert(m: &mut SessionMap, key: String, v: Vec<Session>)
    ensures
        session_lists(*final(m)) == session_lists(*old(m)).insert(key@, v@),
{
    m.insert(key, v);
}

/// Relies on dashmap's `DashMap::remove`: `key` no longer maps to anything.
#[verifier::external_body]
fn lists_remove(m: &mut SessionMap, key: &String)
    ensures
        session_lists(*final(m)) == session_lists(*old(m)).remove(key@),
{
    m.remove(key);
}

/// Relies on dashmap's `DashMap::iter`: every key once, in no stated order.
#[verifier::external_body]
fn lists_keys(m: &SessionMap) -> (r: Vec<String>)
    ensures
        lists_keys_once(r@, session_lists(*m).dom()),
{
    m.iter().map(|e| e.key().clone()).collect()
}

/// The empty registry.
pub open spec fn no_lists() -> Map<Seq<char>, Seq<Session>> {
    Map::empty()
}

/// A session is live while less than `timeout` seconds passed since it was
/// last seen.
pub open spec fn is_live(s: Session, now: i64, timeout: i64) -> bool {
    now - s.last_seen < timeout
}

/// The live sessions of `list`, in order.
pub open spec fn live_of(list: Seq<Session>, now: i64, timeout: i64) -> Seq<Session>
    decreases list.len(),
{
    if list.len() == 0 {
        list
    } else {
        let rest = live_of(list.drop_last(), now, timeout);
        if is_live(list.last(), now, timeout) { rest.push(list.last()) } else { rest }
    }
}

pub open spec fn has_id(list: Seq<Session>, sid: Seq<char>) -> bool {
    exists|i: int| 0 <= i < list.len() && (#[trigger] list[i]).session_id@ == sid
}

/// `list` with every session of id `sid` seen at `now`.
pub open spec fn refreshed(list: Seq<Session>, sid: Seq<char>, now: i64) -> Seq<Session> {
    list.map_values(|s: Session| if s.session_id@ == sid { Session { last_seen: now, ..s } } else { s })
}

/// The number of sessions held under `key`.
pub open spec fn count_of(m: Map<Seq<char>, Seq<Session>>, key: Seq<char>) -> nat {
    if m.contains_key(key) { m[key].len() } else { 0 }
}

pub open spec fn sum_counts(m: Map<Seq<char>, Seq<Session>>, keys: Seq<String>) -> nat
    decreases keys.len(),
{
    if keys.len() == 0 { 0 } else { sum_counts(m, keys.drop_last()) + count_of(m, keys.last()@) }
}

/// The map after idle eviction of the keys in `done` only.
pub open spec fn evicted_within(
    m: Map<Seq<char>, Seq<Session>>,
    done: Set<Seq<char>>,
    now: i64,
    timeout: i64,
) -> Map<Seq<char>, Seq<Session>> {
    Map::new(
        |k: Seq<char>| m.contains_key(k) && (!done.contains(k) || live_of(m[k], now, timeout).len() > 0),
        |k: Seq<char>| if done.contains(k) { live_of(m[k], now, timeout) } else { m[k] },
    )
}

/// Whether a session of id `sid` is held under `key`.
pub open spec fn held(m: Map<Seq<char>, Seq<Session>>, key: Seq<char>, sid: Seq<char>) -> bool {
    m.contains_key(key) && has_id(m[key], sid)
}

/// The live sessions under `key` (none where the key is absent).
pub open spec fn live_under(m: Map<Seq<char>, Seq<Session>>, key: Seq<char>, now: i64, timeout: i64) -> Seq<Session> {
    if m.contains_key(key) { live_of(m[key], now, timeout) } else { Seq::empty() }
}

/// Whether admission succeeds: the session is held, or fewer than `max`
/// live sessions are.
pub open spec fn admits(m: Map<Seq<char>, Seq<Session>>, key: Seq<char>, sid: Seq<char>, max: usize, now: i64, timeout: i64) -> bool {
    held(m, key, sid) || live_under(m, key, now, timeout).len() < max
}

/// The registry after admission of session `sid` from machine `hwid`.
pub open spec fn after_admission(
    m: Map<Seq<char>, Seq<Session>>,
    key: String,
    sid: String,
    hwid: String,
    max: usize,
    now: i64,
    timeout: i64,
) -> Map<Seq<char>, Seq<Session>> {
    if held(m, key@, sid@) {
        m.insert(key@, refreshed(m[key@], sid@, now))
    } else if live_under(m, key@, now, timeout).len() < max {
        m.insert(key@, live_under(m, key@, now, timeout).push(Session { session_id: sid, hwid_hash: Some(hwid), last_seen: now }))
    } else {
        m
    }
}

/// `n`, or `usize::MAX` where `n` is larger.
pub open spec fn capped(n: nat) -> usize {
    if n > usize::MAX { usize::MAX } else { n as usize }
}

/// The map after idle eviction: each list keeps its live sessions, and keys
/// left with none are gone.
pub open spec fn evicted(m: Map<Seq<char>, Seq<Session>>, now: i64, timeout: i64) -> Map<Seq<char>, Seq<Session>> {
    Map::new(
        |k: Seq<char>| m.contains_key(k) && live_of(m[k], now, timeout).len() > 0,
        |k: Seq<char>| live_of(m[k], now, timeout),
    )
}

/// A field-for-field copy of a session.
pub fn copy_session(s: &Session) -> (r: Session)
    ensures
        r == *s,
{
    Session {
        session_id: s.session_id.clone(),
        hwid_hash: match &s.hwid_hash {
            None => None,
            Some(h) => Some(h.clone()),
        },
        last_seen: s.last_seen,
    }
}

/// The live sessions of `list`, in order.
pub fn live_sessions(list: &Vec<Session>, now: i64, timeout: i64) -> (r: Vec<Session>)
    ensures
        r@ == live_of(list@, now, timeout),
{
    let mut out: Vec<Session> = Vec::new();
    let mut i: usize = 0;
    while i < list.len()
        invariant
            i <= list@.len(),
            out@ == live_of(list@.subrange(0, i as int), now, timeout),
        decreases list@.len() - i,
    {
        let ghost pre = list@.subrange(0, i as int);
        let ghost next = list@.subrange(0, i + 1);
        assert(next.drop_last() =~= pre);
        assert(next.last() == list@[i as int]);
        assert(live_of(next, now, timeout) == if is_live(list@[i as int], now, timeout) {
            live_of(pre, now, timeout).push(list@[i as int])
        } else {
            live_of(pre, now, timeout)
        });
        let s = &list[i];
        let idle: i128 = now as i128 - s.last_seen as i128;
        if idle < timeout as i128 {
            out.push(copy_session(s));
        }
        i = i + 1;
    }
    assert(list@.subrange(0, i as int) =~= list@);
    out
}

/// Whether `list` holds a session of id `sid`.
fn find_id(list: &Vec<Session>, sid: &String) -> (r: bool)
    ensures
        r == has_id(list@, sid@),
{
    let mut i: usize = 0;
    while i < list.len()
        invariant
            i <= list@.len(),
            forall|j: int| 0 <= j < i ==> (#[trigger] list@[j]).session_id@ != sid@,
        decreases list@.len() - i,
    {
        if list[i].session_id.eq(sid) {
            return true;
        }
        i = i + 1;
    }
    false
}

/// `list` with every session of id `sid` seen at `now`.
fn refresh_list(list: &Vec<Session>, sid: &String, now: i64) -> (r: Vec<Session>)
    ensures
        r@ == refreshed(list@, sid@, now),
{
    let mut out: Vec<Session> = Vec::new();
    let mut i: usize = 0;
    while i < list.len()
        invariant
            i <= list@.len(),
            out@ == refreshed(list@.subrange(0, i as int), sid@, now),
        decreases list@.len() - i,
    {
        let s = copy_session(&list[i]);
        if s.session_id.eq(sid) {
            out.push(Session { last_seen: now, ..s });
        } else {
            out.push(s);
        }
        assert(refreshed(list@.subrange(0, i + 1), sid@, now) =~= refreshed(list@.subrange(0, i as int), sid@, now).push(
            refreshed(list@, sid@, now)[i as int],
        ));
        i = i + 1;
    }
    assert(list@.subrange(0, i as int) =~= list@);
    out
}

/// Refreshing a held session keeps every key's session count, and changes
/// no session but for its `last_seen`.
pub proof fn lemma_refresh_keeps_count(m: Map<Seq<char>, Seq<Session>>, key: Seq<char>, sid: Seq<char>, now: i64)
    requires
        m.contains_key(key),
    ensures
        forall|k: Seq<char>| #[trigger] count_of(m.insert(key, refreshed(m[key], sid, now)), k) == count_of(m, k),
        forall|i: int| 0 <= i < m[key].len() ==> {
            let s = #[trigger] refreshed(m[key], sid, now)[i];
            &&& s.session_id == m[key][i].session_id
            &&& s.hwid_hash == m[key][i].hwid_hash
        },
{
}

/// After a successful admission a key holds at most `max` sessions, given
/// that it held at most `max` before; an admission that would exceed it is
/// refused and changes nothing.
pub proof fn lemma_admission_within_limit(
    m: Map<Seq<char>, Seq<Session>>,
    key: String,
    sid: String,
    hwid: String,
    max: usize,
    now: i64,
    timeout: i64,
)
    requires
        count_of(m, key@) <= max,
    ensures
        admits(m, key@, sid@, max, now, timeout) ==> count_of(after_admission(m, key, sid, hwid, max, now, timeout), key@) <= max,
        !admits(m, key@, sid@, max, now, timeout) ==> after_admission(m, key, sid, hwid, max, now, timeout) == m,
{
}

/// The process-wide session registry.
pub struct SessionStore {
    lists: SessionMap,
}

impl View for SessionStore {
    type V = Map<Seq<char>, Seq<Session>>;

    closed spec fn view(&self) -> Map<Seq<char>, Seq<Session>> {
        session_lists(self.lists)
    }
}

impl SessionStore {
    pub fn new() -> (r: SessionStore)
        ensures
            r@ == no_lists(),
    {
        SessionStore { lists: lists_new() }
    }

    /// The sessions held under `key`, live or not.
    pub fn count(&self, key: &String) -> (r: usize)
        ensures
            r == count_of(self@, key@),
    {
        match lists_get(&self.lists, key) {
            None => 0,
            Some(v) => v.len(),
        }
    }

    /// Whether a session of id `sid` is held under `key`.
    pub fn has_session(&self, key: &String, sid: &String) -> (r: bool)
        ensures
            r == (self@.contains_key(key@) && has_id(self@[key@], sid@)),
    {
        match lists_get(&self.lists, key) {
            None => false,
            Some(v) => find_id(&v, sid),
        }
    }

    /// The fast path: if a session of id `sid` is held under `key`, it is seen
    /// at `now` and `true` comes back; otherwise nothing changes.
    pub fn touch(&mut self, key: &String, sid: &String, now: i64) -> (r: bool)
        ensures
            r == (old(self)@.contains_key(key@) && has_id(old(self)@[key@], sid@)),
            r ==> final(self)@ == old(self)@.insert(key@, refreshed(old(self)@[key@], sid@, now)),
            !r ==> final(self)@ == old(self)@,
            forall|k: Seq<char>| count_of(final(self)@, k) == count_of(old(self)@, k),
    {
        match lists_get(&self.lists, key) {
            None => false,
            Some(v) => {
                if find_id(&v, sid) {
                    let nv = refresh_list(&v, sid, now);
                    lists_insert(&mut self.lists, key.clone(), nv);
                    true
                } else {
                    false
                }
            },
        }
    }

    /// Session admission. A held session is refreshed; otherwise, when the
    /// key has fewer than `max` live sessions, its idle sessions are dropped
    /// and the new session is recorded; otherwise nothing changes.
    pub fn touch_or_insert(
        &mut self,
        key: &String,
        sid: &String,
        hwid: &String,
        max: usize,
        now: i64,
        timeout: i64,
    ) -> (r: Outcome)
        ensures
            final(self)@ == after_admission(old(self)@, *key, *sid, *hwid, max, now, timeout),
            held(old(self)@, key@, sid@) ==> r == Outcome::Refreshed,
            !held(old(self)@, key@, sid@) && admits(old(self)@, key@, sid@, max, now, timeout) ==> r == Outcome::Inserted,
            !admits(old(self)@, key@, sid@, max, now, timeout) ==> live_under(old(self)@, key@, now, timeout).len() <= usize::MAX,
            !admits(old(self)@, key@, sid@, max, now, timeout) ==> r == (Outcome::LimitReached {
                current: live_under(old(self)@, key@, now, timeout).len() as usize,
                max,
            }),
    {
        if self.touch(key, sid, now) {
            return Outcome::Refreshed;
        }
        let mut live = match lists_get(&self.lists, key) {
            None => Vec::new(),
            Some(v) => live_sessions(&v, now, timeout),
        };
        proof {
            if !old(self)@.contains_key(key@) {
                assert(live_of(Seq::<Session>::empty(), now, timeout) =~= Seq::<Session>::empty());
            }
        }
        if live.len() >= max {
            return Outcome::LimitReached { current: live.len(), max };
        }
        live.push(Session { session_id: sid.clone(), hwid_hash: Some(hwid.clone()), last_seen: now });
        lists_insert(&mut self.lists, key.clone(), live);
        Outcome::Inserted
    }

    /// Removes every session under `key`.
    pub fn drop_all(&mut self, key: &String)
        ensures
            final(self)@ == old(self)@.remove(key@),
    {
        lists_remove(&mut self.lists, key);
    }

    /// Removes the sessions idle for `timeout` seconds or more, and the keys
    /// left without sessions.
    pub fn evict_idle(&mut self, now: i64, timeout: i64)
        ensures
            final(self)@ == evicted(old(self)@, now, timeout),
    {
        let keys = lists_keys(&self.lists);
        let ghost m0 = self@;
        let ghost mut done: Set<Seq<char>> = Set::empty();
        assert(self@ =~= evicted_within(m0, done, now, timeout));
        let mut i: usize = 0;
        while i < keys.len()
            invariant
                i <= keys@.len(),
                lists_keys_once(keys@, m0.dom()),
                self@ == evicted_within(m0, done, now, timeout),
                forall|j: int| 0 <= j < i ==> done.contains(#[trigger] keys@[j]@),
                forall|k: Seq<char>| done.contains(k) ==> exists|j: int| 0 <= j < i && #[trigger] keys@[j]@ == k,
            decreases keys@.len() - i,
        {
            let key = &keys[i];
            let ghost kv = key@;
            assert(m0.contains_key(kv));
            assert(!done.contains(kv)) by {
                if done.contains(kv) {
                    let j = choose|j: int| 0 <= j < i && #[trigger] keys@[j]@ == kv;
                    assert(keys@[j]@ != keys@[i as int]@);
                }
            }
            match lists_get(&self.lists, key) {
                None => {},
                Some(v) => {
                    let live = live_sessions(&v, now, timeout);
                    if live.len() == 0 {
                        lists_remove(&mut self.lists, key);
                    } else {
                        lists_insert(&mut self.lists, key.clone(), live);
                    }
                },
            }
            proof {
                let old_done = done;
                done = done.insert(kv);
                assert(self@ =~= evicted_within(m0, done, now, timeout));
                assert forall|k: Seq<char>| done.contains(k) implies exists|j: int| 0 <= j < i + 1 && #[trigger] keys@[j]@ == k by {
                    if k != kv {
                        assert(old_done.contains(k));
                        let j = choose|j: int| 0 <= j < i && #[trigger] keys@[j]@ == k;
                        assert(0 <= j < i + 1 && keys@[j]@ == k);
                    } else {
                        assert(keys@[i as int]@ == k);
                    }
                }
            }
            i = i + 1;
        }
        proof {
            assert forall|k: Seq<char>| m0.contains_key(k) implies done.contains(k) by {
                let j = choose|j: int| 0 <= j < keys@.len() && #[trigger] keys@[j]@ == k;
            }
            assert(self@ =~= evicted(m0, now, timeout));
        }
    }

    /// The number of sessions held over all keys (saturating at
    /// `usize::MAX`). Each key's list is read on its own; the sum is not a
    /// snapshot across keys.
    pub fn total_count(&self) -> (r: usize)
        ensures
            exists|keys: Seq<String>|
                lists_keys_once(keys, self@.dom()) && r == capped(sum_counts(self@, keys)),
    {
        let keys = lists_keys(&self.lists);
        let mut total: usize = 0;
        let mut i: usize = 0;
        while i < keys.len()
            invariant
                i <= keys@.len(),
                total == capped(sum_counts(self@, keys@.subrange(0, i as int))),
            decreases keys@.len() - i,
        {
            assert(keys@.subrange(0, i + 1).drop_last() =~= keys@.subrange(0, i as int));
            let c = self.count(&keys[i]);
            if total > usize::MAX - c {
                total = usize::MAX;
            } else {
                total = total + c;
            }
            i = i + 1;
        }
        assert(keys@.subrange(0, i as int) =~= keys@);
        total
    }
}

} // verus!
