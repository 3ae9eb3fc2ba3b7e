use vstd::prelude::*;
use crate::event::{BatchedEvent, EventType, text_or};
use crate::json::same_text;
use crate::text::{push_str, push_int, int_text};

verus! {

#[verifier::external_type_specification]
#[verifier::external_body]
pub struct ExInstant(std::time::Instant);

/// Reads the monotonic clock with `std::time::Instant::now`.
#[verifier::external_body]
fn clock_now() -> (t: std::time::Instant) {
    std::time::Instant::now()
}

/// Nanoseconds elapsed since `since`, from `Instant::elapsed` as `Duration::as_nanos` gives
/// them. The reading depends on the clock: nothing is claimed of it.
#[verifier::external_body]
fn nanos_since(since: &std::time::Instant) -> (n: u128) {
    since.elapsed().as_nanos()
}

/// A store of recently seen keys.
pub trait DedupCache {
    /// Returns true if this key was seen recently (duplicate). Registers the key if new.
    fn is_duplicate(&mut self, key: &str) -> bool;
}

/// `a - b`, or 0 when `b` is larger.
pub open spec fn age(now: int, at: int) -> int {
    if now >= at {
        now - at
    } else {
        0
    }
}

/// The entries of `seen` that are younger than `ttl` at time `now`, in order.
pub open spec fn fresh(seen: Seq<(Seq<char>, int)>, now: int, ttl: int) -> Seq<(Seq<char>, int)>
    decreases seen.len(),
{
    if seen.len() == 0 {
        seen
    } else {
        let rest = fresh(seen.drop_last(), now, ttl);
        if age(now, seen.last().1) < ttl {
            rest.push(seen.last())
        } else {
            rest
        }
    }
}

/// Whether some entry of `seen` carries `key`.
pub open spec fn has_key(seen: Seq<(Seq<char>, int)>, key: Seq<char>) -> bool {
    exists|i: int| 0 <= i < seen.len() && #[trigger] seen[i].0 == key
}

/// Whether no key occurs twice in `seen`.
pub open spec fn keys_unique(seen: Seq<(Seq<char>, int)>) -> bool {
    forall|i: int, j: int| 0 <= i < j < seen.len() ==> #[trigger] seen[i].0 != #[trigger] seen[j].0
}

/// What the cache holds after `key` is looked up at time `now`, and whether it was a duplicate.
pub open spec fn observe(seen: Seq<(Seq<char>, int)>, key: Seq<char>, now: int, ttl: int) -> (
    Seq<(Seq<char>, int)>,
    bool,
) {
    let kept = fresh(seen, now, ttl);
    if has_key(kept, key) {
        (kept, true)
    } else {
        (kept.push((key, now)), false)
    }
}

pub proof fn lemma_fresh_sub(seen: Seq<(Seq<char>, int)>, now: int, ttl: int)
    ensures
        fresh(seen, now, ttl).len() <= seen.len(),
        forall|i: int|
            0 <= i < fresh(seen, now, ttl).len() ==> exists|j: int|
                0 <= j < seen.len() && #[trigger] fresh(seen, now, ttl)[i] == #[trigger] seen[j]
                    && age(now, seen[j].1) < ttl,
        forall|j: int|
            0 <= j < seen.len() && age(now, #[trigger] seen[j].1) < ttl ==> has_key(
                fresh(seen, now, ttl),
                seen[j].0,
            ),
        keys_unique(seen) ==> keys_unique(fresh(seen, now, ttl)),
    decreases seen.len(),
{
    if seen.len() > 0 {
        let init = seen.drop_last();
        lemma_fresh_sub(init, now, ttl);
        let rest = fresh(init, now, ttl);
        let f = fresh(seen, now, ttl);
        assert forall|i: int| 0 <= i < f.len() implies exists|j: int|
            0 <= j < seen.len() && #[trigger] f[i] == #[trigger] seen[j] && age(now, seen[j].1)
                < ttl by {
            if i < rest.len() {
                assert(f[i] == rest[i]);
                let j = choose|j: int|
                    0 <= j < init.len() && #[trigger] rest[i] == #[trigger] init[j] && age(
                        now,
                        init[j].1,
                    ) < ttl;
                assert(seen[j] == init[j]);
            } else {
                assert(f[i] == seen[seen.len() - 1]);
            }
        }
        assert forall|j: int| 0 <= j < seen.len() && age(now, #[trigger] seen[j].1) < ttl implies has_key(
            f,
            seen[j].0,
        ) by {
            if j < init.len() {
                assert(init[j] == seen[j]);
                let i = choose|i: int| 0 <= i < rest.len() && #[trigger] rest[i].0 == seen[j].0;
                assert(f[i] == rest[i]);
            } else {
                assert(f[f.len() - 1] == seen[j]);
            }
        }
        if keys_unique(seen) {
            assert(keys_unique(init));
            assert forall|a: int, b: int| 0 <= a < b < f.len() implies #[trigger] f[a].0
                != #[trigger] f[b].0 by {
                let ja = choose|j: int|
                    0 <= j < seen.len() && #[trigger] f[a] == #[trigger] seen[j] && age(
                        now,
                        seen[j].1,
                    ) < ttl;
                let jb = choose|j: int|
                    0 <= j < seen.len() && #[trigger] f[b] == #[trigger] seen[j] && age(
                        now,
                        seen[j].1,
                    ) < ttl;
                if b == f.len() - 1 && f.len() > rest.len() {
                    assert(f[b] == seen.last());
                    assert(f[a] == rest[a]);
                    let j2 = choose|j: int|
                        0 <= j < init.len() && #[trigger] rest[a] == #[trigger] init[j] && age(
                            now,
                            init[j].1,
                        ) < ttl;
                    assert(seen[j2] == init[j2]);
                    assert(j2 < seen.len() - 1);
                } else {
                    assert(f[a] == rest[a]);
                    assert(f[b] == rest[b]);
                }
            }
        }
    }
}

proof fn lemma_fresh_keeps(seen: Seq<(Seq<char>, int)>, now: int, ttl: int)
    ensures
        forall|j: int|
            0 <= j < seen.len() && age(now, #[trigger] seen[j].1) < ttl ==> fresh(seen, now, ttl).contains(seen[j]),
    decreases seen.len(),
{
    if seen.len() > 0 {
        let init = seen.drop_last();
        lemma_fresh_keeps(init, now, ttl);
        let rest = fresh(init, now, ttl);
        let f = fresh(seen, now, ttl);
        assert forall|j: int| 0 <= j < seen.len() && age(now, #[trigger] seen[j].1) < ttl implies f.contains(
            seen[j],
        ) by {
            if j < init.len() {
                assert(init[j] == seen[j]);
                let i = choose|i: int| 0 <= i < rest.len() && rest[i] == init[j];
                assert(f[i] == rest[i]);
            } else {
                assert(f[f.len() - 1] == seen[j]);
            }
        }
    }
}

/// What one lookup does to the cache, entry by entry: every entry younger than the window is
/// kept, whatever key is looked up; nothing else stays but, for a key not held among them,
/// the new entry `(key, now)`; and the key is a duplicate exactly when an entry younger than
/// the window carries it.
pub proof fn lemma_observe_entries(seen: Seq<(Seq<char>, int)>, key: Seq<char>, now: int, ttl: int)
    ensures
        forall|j: int|
            0 <= j < seen.len() && age(now, #[trigger] seen[j].1) < ttl ==> observe(seen, key, now, ttl).0.contains(
                seen[j],
            ),
        forall|i: int|
            0 <= i < observe(seen, key, now, ttl).0.len() ==> #[trigger] observe(seen, key, now, ttl).0[i] == (
                key,
                now,
            ) || exists|j: int|
                0 <= j < seen.len() && age(now, seen[j].1) < ttl && observe(seen, key, now, ttl).0[i]
                    == #[trigger] seen[j],
        observe(seen, key, now, ttl).1 <==> exists|j: int|
            0 <= j < seen.len() && age(now, seen[j].1) < ttl && #[trigger] seen[j].0 == key,
        !observe(seen, key, now, ttl).1 ==> observe(seen, key, now, ttl).0.contains((key, now)),
{
    lemma_fresh_sub(seen, now, ttl);
    lemma_fresh_keeps(seen, now, ttl);
    let f = fresh(seen, now, ttl);
    let r = observe(seen, key, now, ttl);
    if has_key(f, key) {
        let i = choose|i: int| 0 <= i < f.len() && #[trigger] f[i].0 == key;
        let j = choose|j: int|
            0 <= j < seen.len() && #[trigger] f[i] == #[trigger] seen[j] && age(now, seen[j].1) < ttl;
        assert(seen[j].0 == key);
    } else {
        assert forall|j: int| 0 <= j < seen.len() && age(now, #[trigger] seen[j].1) < ttl implies r.0.contains(
            seen[j],
        ) by {
            let i = choose|i: int| 0 <= i < f.len() && f[i] == seen[j];
            assert(r.0[i] == f[i]);
        }
        assert forall|j: int| 0 <= j < seen.len() && age(now, seen[j].1) < ttl implies #[trigger] seen[j].0
            != key by {
            let i = choose|i: int| 0 <= i < f.len() && f[i] == seen[j];
            assert(f[i].0 == seen[j].0);
        }
        assert(r.0[r.0.len() - 1] == (key, now));
        assert forall|i: int| 0 <= i < r.0.len() implies #[trigger] r.0[i] == (key, now) || exists|j: int|
            0 <= j < seen.len() && age(now, seen[j].1) < ttl && r.0[i] == #[trigger] seen[j] by {
            if i < f.len() {
                assert(r.0[i] == f[i]);
            }
        }
    }
}

/// Registering one key forgets no other: if `k1` is registered at `t1` and then a different
/// key `k2` is looked up at `t2`, a lookup of `k1` at any `t3` still within `k1`'s window
/// (`t1 <= t2 <= t3` and `t3 - t1 < ttl`) is a duplicate.
pub proof fn lemma_other_keys_survive(
    seen: Seq<(Seq<char>, int)>,
    k1: Seq<char>,
    t1: int,
    k2: Seq<char>,
    t2: int,
    t3: int,
    ttl: int,
)
    requires
        observe(seen, k1, t1, ttl).1 == false,
        k1 != k2,
        t1 <= t2 <= t3,
        t3 - t1 < ttl,
    ensures
        observe(observe(observe(seen, k1, t1, ttl).0, k2, t2, ttl).0, k1, t3, ttl).1,
{
    let s1 = observe(seen, k1, t1, ttl).0;
    lemma_observe_entries(seen, k1, t1, ttl);
    let i1 = choose|i: int| 0 <= i < s1.len() && s1[i] == (k1, t1);
    lemma_observe_entries(s1, k2, t2, ttl);
    assert(age(t2, s1[i1].1) < ttl);
    let s2 = observe(s1, k2, t2, ttl).0;
    let i2 = choose|i: int| 0 <= i < s2.len() && s2[i] == s1[i1];
    lemma_observe_entries(s2, k1, t3, ttl);
    assert(age(t3, s2[i2].1) < ttl);
    assert(s2[i2].0 == k1);
}

/// A key never seen before is not a duplicate, and the cache then holds it alone.
pub proof fn lemma_first_sighting(key: Seq<char>, now: int, ttl: int)
    ensures
        observe(Seq::empty(), key, now, ttl) == (seq![(key, now)], false),
{
    let e = Seq::<(Seq<char>, int)>::empty();
    assert(fresh(e, now, ttl) == e);
    assert(e.push((key, now)) =~= seq![(key, now)]);
}

/// The dedup window: once a new key is registered at time `t`, looking it up again at a time
/// `t2 >= t` finds a duplicate exactly when `t2 - t` is less than the window.
pub proof fn lemma_dedup_window(seen: Seq<(Seq<char>, int)>, key: Seq<char>, t: int, t2: int, ttl: int)
    requires
        observe(seen, key, t, ttl).1 == false,
        t <= t2,
    ensures
        observe(observe(seen, key, t, ttl).0, key, t2, ttl).1 == (t2 - t < ttl),
{
    let kept = fresh(seen, t, ttl);
    let s1 = kept.push((key, t));
    assert(observe(seen, key, t, ttl).0 == s1);
    assert(s1.drop_last() =~= kept);
    let f = fresh(s1, t2, ttl);
    lemma_fresh_sub(kept, t2, ttl);
    if t2 - t < ttl {
        assert(f == fresh(kept, t2, ttl).push((key, t)));
        assert(f[f.len() - 1].0 == key);
        assert(has_key(f, key));
    } else {
        assert(f == fresh(kept, t2, ttl));
        if has_key(f, key) {
            let i = choose|i: int| 0 <= i < f.len() && #[trigger] f[i].0 == key;
            let j = choose|j: int|
                0 <= j < kept.len() && #[trigger] f[i] == #[trigger] kept[j] && age(t2, kept[j].1) < ttl;
            assert(kept[j].0 == key);
            assert(has_key(kept, key));
        }
    }
}

/// Remembers keys for a time-to-live window (a sliding window from first sighting).
pub struct InMemoryDedupCache {
    seen: Vec<(String, u128)>,
    ttl_nanos: u128,
    origin: std::time::Instant,
}

impl InMemoryDedupCache {
    #[verifier::type_invariant]
    closed spec fn wf(&self) -> bool {
        keys_unique(self.entries())
    }

    /// The remembered keys with the time (nanoseconds on the cache's clock) each was first seen.
    pub closed spec fn entries(&self) -> Seq<(Seq<char>, int)> {
        self.seen@.map_values(|e: (String, u128)| (e.0@, e.1 as int))
    }

    /// The window, in nanoseconds.
    pub closed spec fn ttl(&self) -> int {
        self.ttl_nanos as int
    }

    /// An empty cache whose window is `ttl_secs` seconds.
    pub fn new(ttl_secs: u64) -> (c: Self)
        ensures
            c.entries() == Seq::<(Seq<char>, int)>::empty(),
            c.ttl() == ttl_secs * 1000000000,
    {
        let c = InMemoryDedupCache {
            seen: Vec::new(),
            ttl_nanos: (ttl_secs as u128) * 1000000000,
            origin: clock_now(),
        };
        proof {
            assert(c.entries() =~= Seq::<(Seq<char>, int)>::empty());
        }
        c
    }

    /// The current time on the cache's clock, in nanoseconds.
    pub fn clock(&self) -> (now: u128) {
        nanos_since(&self.origin)
    }

    /// Drops the entries that are at least `ttl` old at time `now`.
    fn evict_expired(&mut self, now: u128)
        ensures
            final(self).entries() == fresh(old(self).entries(), now as int, old(self).ttl()),
            final(self).ttl() == old(self).ttl(),
    {
        proof {
            use_type_invariant(&*self);
            lemma_fresh_sub(self.entries(), now as int, self.ttl());
        }
        let ghost before = self.entries();
        let mut kept: Vec<(String, u128)> = Vec::new();
        let mut i: usize = 0;
        while i < self.seen.len()
            invariant
                i <= self.seen.len(),
                before == self.seen@.map_values(|e: (String, u128)| (e.0@, e.1 as int)),
                kept@.map_values(|e: (String, u128)| (e.0@, e.1 as int)) == fresh(
                    before.take(i as int),
                    now as int,
                    self.ttl_nanos as int,
                ),
            decreases self.seen.len() - i,
        {
            let at = self.seen[i].1;
            let a: u128 = if now >= at {
                now - at
            } else {
                0
            };
            proof {
                assert(before.take(i + 1).drop_last() =~= before.take(i as int));
                assert(before.take(i + 1).last() == before[i as int]);
            }
            if a < self.ttl_nanos {
                let k = self.seen[i].0.clone();
                let ghost prev = kept@;
                kept.push((k, at));
                proof {
                    assert(kept@.map_values(|e: (String, u128)| (e.0@, e.1 as int)) =~= prev.map_values(
                        |e: (String, u128)| (e.0@, e.1 as int),
                    ).push(before[i as int]));
                }
            }
            i = i + 1;
        }
        proof {
            assert(before.take(self.seen.len() as int) =~= before);
            lemma_fresh_sub(before, now as int, self.ttl_nanos as int);
        }
        self.seen = kept;
    }

    /// Looks `key` up at time `now` (nanoseconds on the cache's clock): entries at least a
    /// window old are dropped first; a key still held is a duplicate, a new one is remembered.
    pub fn observe(&mut self, key: &str, now: u128) -> (dup: bool)
        ensures
            (final(self).entries(), dup) == observe(old(self).entries(), key@, now as int, old(self).ttl()),
            final(self).ttl() == old(self).ttl(),
    {
        self.evict_expired(now);
        proof {
            use_type_invariant(&*self);
        }
        let ghost kept0 = self.entries();
        let mut i: usize = 0;
        while i < self.seen.len()
            invariant
                i <= self.seen.len(),
                self.entries() == kept0,
                kept0 == fresh(old(self).entries(), now as int, old(self).ttl()),
                self.ttl() == old(self).ttl(),
                forall|j: int| 0 <= j < i ==> #[trigger] self.entries()[j].0 != key@,
            decreases self.seen.len() - i,
        {
            if same_text(self.seen[i].0.as_str(), key) {
                proof {
                    assert(self.entries()[i as int].0 == key@);
                }
                return true;
            }
            i = i + 1;
        }
        let ghost kept = self.entries();
        proof {
            assert(!has_key(kept, key@));
        }
        let mut seen: Vec<(String, u128)> = Vec::new();
        std::mem::swap(&mut seen, &mut self.seen);
        seen.push((String::from_str(key), now));
        proof {
            assert(seen@.map_values(|e: (String, u128)| (e.0@, e.1 as int)) =~= kept.push(
                (key@, now as int),
            ));
        }
        self.seen = seen;
        false
    }
}

impl DedupCache for InMemoryDedupCache {
    /// Looks `key` up at the current time on the cache's clock.
    fn is_duplicate(&mut self, key: &str) -> (dup: bool)
        ensures
            final(self).ttl() == old(self).ttl(),
            exists|now: int|
                now >= 0 && #[trigger] observe(old(self).entries(), key@, now, old(self).ttl()) == (
                    final(self).entries(),
                    dup,
                ),
    {
        let now = nanos_since(&self.origin);
        self.observe(key, now)
    }
}

/// Debug name of an event type.
pub open spec fn event_type_label(t: EventType) -> Seq<char> {
    match t {
        EventType::Track => "Track"@,
        EventType::Identify => "Identify"@,
        EventType::Error => "Error"@,
    }
}

/// `a / b` rounded toward zero, as Rust divides integers.
pub open spec fn div_trunc(a: int, b: int) -> int {
    if a >= 0 {
        a / b
    } else {
        -((-a) / b)
    }
}

/// Key = sessionId + event_type + event_name + timestamp in whole seconds, joined by colons.
pub open spec fn dedup_key_text(event: BatchedEvent) -> Seq<char> {
    event.context.session_id@ + ":"@ + event_type_label(event.event_type) + ":"@ + text_or(
        event.event,
        Seq::empty(),
    ) + ":"@ + int_text(div_trunc(event.context.timestamp as int, 1000))
}

/// Two events from the same session, of the same type and name, within the same whole
/// second, share their dedup key.
pub proof fn lemma_same_second_same_key(e1: BatchedEvent, e2: BatchedEvent)
    requires
        e1.context.session_id@ == e2.context.session_id@,
        e1.event_type == e2.event_type,
        text_or(e1.event, Seq::empty()) == text_or(e2.event, Seq::empty()),
        div_trunc(e1.context.timestamp as int, 1000) == div_trunc(e2.context.timestamp as int, 1000),
    ensures
        dedup_key_text(e1) == dedup_key_text(e2),
{
}

/// Events of different sessions never share a dedup key, provided session ids hold no colon.
pub proof fn lemma_sessions_separate_keys(e1: BatchedEvent, e2: BatchedEvent)
    requires
        forall|i: int| 0 <= i < e1.context.session_id@.len() ==> #[trigger] e1.context.session_id@[i] != ':',
        forall|i: int| 0 <= i < e2.context.session_id@.len() ==> #[trigger] e2.context.session_id@[i] != ':',
        dedup_key_text(e1) == dedup_key_text(e2),
    ensures
        e1.context.session_id@ == e2.context.session_id@,
{
    let s1 = e1.context.session_id@;
    let s2 = e2.context.session_id@;
    let k = dedup_key_text(e1);
    reveal_strlit(":");
    let t1 = event_type_label(e1.event_type) + ":"@ + text_or(e1.event, Seq::empty()) + ":"@ + int_text(
        div_trunc(e1.context.timestamp as int, 1000),
    );
    let t2 = event_type_label(e2.event_type) + ":"@ + text_or(e2.event, Seq::empty()) + ":"@ + int_text(
        div_trunc(e2.context.timestamp as int, 1000),
    );
    assert(k =~= s1 + (":"@ + t1));
    assert(k =~= s2 + (":"@ + t2));
    assert(k[s1.len() as int] == ':');
    assert(k[s2.len() as int] == ':');
    if s1.len() < s2.len() {
        assert(k[s1.len() as int] == s2[s1.len() as int]);
    } else if s2.len() < s1.len() {
        assert(k[s2.len() as int] == s1[s2.len() as int]);
    }
    assert(s1 =~= k.take(s1.len() as int));
    assert(s2 =~= k.take(s2.len() as int));
}

/// Seconds in `ts_ms` milliseconds, rounded toward zero.
pub fn whole_seconds(ts_ms: i64) -> (s: i64)
    ensures
        s == div_trunc(ts_ms as int, 1000),
{
    if ts_ms >= 0 {
        ts_ms / 1000
    } else {
        let m: i128 = -(ts_ms as i128);
        let q: i128 = m / 1000;
        (-q) as i64
    }
}

/// Derives a stable dedup key from an event.
/// Key = sessionId + event_type + event_name + timestamp in whole seconds (milliseconds
/// divided by 1000, rounded toward zero), joined by colons. Whole seconds keep normal
/// inter-event timing apart but catch sendBeacon double-fires within the same second.
pub fn dedup_key(event: &BatchedEvent) -> (key: String)
    ensures
        key@ == dedup_key_text(*event),
{
    let mut key = String::new();
    push_str(&mut key, event.context.session_id.as_str());
    push_str(&mut key, ":");
    let name = match event.event_type {
        EventType::Track => "Track",
        EventType::Identify => "Identify",
        EventType::Error => "Error",
    };
    push_str(&mut key, name);
    push_str(&mut key, ":");
    match &event.event {
        Some(e) => push_str(&mut key, e.as_str()),
        None => {},
    }
    push_str(&mut key, ":");
    push_int(&mut key, whole_seconds(event.context.timestamp));
    proof {
        assert(Seq::<char>::empty() + event.context.session_id@ =~= event.context.session_id@);
        if event.event is None {
            assert(key@ =~= dedup_key_text(*event));
        }
        assert(key@ =~= dedup_key_text(*event));
    }
    key
}

} // verus!
