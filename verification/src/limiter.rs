//! The rate-limiter core: a per-client counter map with a fixed capacity and
//! a fixed window. The windowing policy is a fixed window with a hard reset:
//! a key's window starts at its first recorded request and lapses
//! `WINDOW_MILLIS` milliseconds later; the first request after the lapse
//! starts a fresh window with its counter back at one.

use vstd::prelude::*;
use vstd::hash_map::StringHashMap;

verus! {

/// Length of one rate-limiting window, in milliseconds.
pub const WINDOW_MILLIS: u64 = 60_000;

/// The per-key counter record: how many requests have been admitted or
/// evaluated in the window that began at `window_start` (a timestamp in
/// milliseconds).
#[derive(Clone, Copy, Debug, PartialEq, Eq, Structural)]
pub struct CounterRecord {
    pub count: u64,
    pub window_start: u64,
}

/// The outcome of evaluating one request against the limiter.
#[derive(Clone, Copy, Debug, PartialEq, Eq, Structural)]
pub enum Decision {
    Allowed,
    Denied,
}

/// Rejected configuration: a limiter cannot be built with capacity zero.
#[derive(Clone, Copy, Debug, PartialEq, Eq, Structural)]
pub struct InvalidCapacity;

/// A key's window has lapsed at time `now` when at least a full window has
/// passed since the window began. A `now` earlier than the window start
/// (a clock that went backwards) never counts as lapsed.
pub open spec fn window_expired(rec: CounterRecord, now: u64) -> bool {
    now - rec.window_start >= WINDOW_MILLIS
}

/// Whether one request under key `key` at time `now` is admitted against the
/// counter map `m` with capacity `cap`: an unseen key, a lapsed window, or a
/// count still under capacity.
pub open spec fn spec_allowed(
    m: Map<Seq<char>, CounterRecord>,
    cap: u64,
    key: Seq<char>,
    now: u64,
) -> bool {
    !m.contains_key(key) || window_expired(m[key], now) || m[key].count < cap
}

/// The counter map after one request under key `key` at time `now`: a fresh
/// record for an unseen key or a lapsed window, an increment while under
/// capacity, and no change at all on denial.
pub open spec fn spec_step(
    m: Map<Seq<char>, CounterRecord>,
    cap: u64,
    key: Seq<char>,
    now: u64,
) -> Map<Seq<char>, CounterRecord> {
    if !m.contains_key(key) || window_expired(m[key], now) {
        m.insert(key, CounterRecord { count: 1, window_start: now })
    } else if m[key].count < cap {
        m.insert(
            key,
            CounterRecord { count: (m[key].count + 1) as u64, window_start: m[key].window_start },
        )
    } else {
        m
    }
}

/// Inserting a record whose count lies between one and the capacity keeps
/// every count in the map between one and the capacity.
proof fn lemma_wf_after_insert(
    m: Map<Seq<char>, CounterRecord>,
    cap: u64,
    key: Seq<char>,
    rec: CounterRecord,
)
    requires
        forall|k: Seq<char>| #[trigger] m.contains_key(k) ==> 1 <= m[k].count <= cap,
        1 <= rec.count <= cap,
    ensures
        forall|k: Seq<char>| #[trigger] m.insert(key, rec).contains_key(k) ==> 1 <= m.insert(
            key,
            rec,
        )[k].count <= cap,
{
    assert forall|k: Seq<char>| #[trigger] m.insert(key, rec).contains_key(k) implies 1 <= m.insert(
        key,
        rec,
    )[k].count <= cap by {
        if k != key {
            assert(m.contains_key(k));
        }
    }
}

/// The per-client request-rate limiter: a map from client key to counter
/// record, with a capacity fixed at construction.
pub struct RateLimiter {
    capacity: u64,
    entries: StringHashMap<CounterRecord>,
}

impl RateLimiter {
    /// The counter map, as a mathematical map from client key to record.
    pub closed spec fn counters(&self) -> Map<Seq<char>, CounterRecord> {
        self.entries@
    }

    /// The per-window capacity the limiter was built with.
    pub closed spec fn spec_capacity(&self) -> u64 {
        self.capacity
    }

    /// Well-formedness: the capacity is positive, and every record's count
    /// lies between one and the capacity. A denied request never pushes a
    /// count past the capacity.
    pub open spec fn wf(&self) -> bool {
        &&& self.spec_capacity() >= 1
        &&& forall|k: Seq<char>| #[trigger] self.counters().contains_key(k)
            ==> 1 <= self.counters()[k].count <= self.spec_capacity()
    }

    /// Builds a limiter with the given per-window capacity, or rejects a
    /// zero capacity as a configuration error.
    pub fn new(capacity: u64) -> (r: Result<RateLimiter, InvalidCapacity>)
        ensures
            r is Ok <==> capacity >= 1,
            r is Ok ==> {
                &&& r.unwrap().wf()
                &&& r.unwrap().spec_capacity() == capacity
                &&& r.unwrap().counters() == Map::<Seq<char>, CounterRecord>::empty()
            },
    {
        if capacity == 0 {
            Err(InvalidCapacity)
        } else {
            Ok(RateLimiter { capacity, entries: StringHashMap::new() })
        }
    }

    /// The capacity the limiter was built with.
    pub fn capacity(&self) -> (c: u64)
        ensures
            c == self.spec_capacity(),
    {
        self.capacity
    }

    /// Decides whether one request under `key` at time `now` (milliseconds)
    /// may proceed, and records the decision's effect: exactly one step of
    /// `spec_step`, and `Allowed` exactly when `spec_allowed` holds of the
    /// state the call found.
    pub fn check_and_record(&mut self, key: &String, now: u64) -> (d: Decision)
        requires
            old(self).wf(),
        ensures
            final(self).wf(),
            final(self).spec_capacity() == old(self).spec_capacity(),
            d == Decision::Allowed <==> spec_allowed(
                old(self).counters(),
                old(self).spec_capacity(),
                key@,
                now,
            ),
            final(self).counters() == spec_step(
                old(self).counters(),
                old(self).spec_capacity(),
                key@,
                now,
            ),
    {
        let existing = self.entries.get(key.as_str());
        match existing {
            None => {
                self.entries.insert(key.clone(), CounterRecord { count: 1, window_start: now });
                proof {
                    lemma_wf_after_insert(
                        old(self).counters(),
                        self.capacity,
                        key@,
                        CounterRecord { count: 1, window_start: now },
                    );
                }
                Decision::Allowed
            },
            Some(rec) => {
                let rec = *rec;
                if now >= rec.window_start && now - rec.window_start >= WINDOW_MILLIS {
                    self.entries.insert(
                        key.clone(),
                        CounterRecord { count: 1, window_start: now },
                    );
                    proof {
                        lemma_wf_after_insert(
                            old(self).counters(),
                            self.capacity,
                            key@,
                            CounterRecord { count: 1, window_start: now },
                        );
                    }
                    Decision::Allowed
                } else if rec.count < self.capacity {
                    self.entries.insert(
                        key.clone(),
                        CounterRecord { count: rec.count + 1, window_start: rec.window_start },
                    );
                    proof {
                        lemma_wf_after_insert(
                            old(self).counters(),
                            self.capacity,
                            key@,
                            CounterRecord {
                                count: (rec.count + 1) as u64,
                                window_start: rec.window_start,
                            },
                        );
                    }
                    Decision::Allowed
                } else {
                    Decision::Denied
                }
            },
        }
    }

    /// The count currently recorded for `key`, if any, as recorded in the
    /// counter map.
    pub fn count_for(&self, key: &String) -> (c: Option<u64>)
        ensures
            match c {
                Some(n) => self.counters().contains_key(key@) && n == self.counters()[key@].count,
                None => !self.counters().contains_key(key@),
            },
    {
        match self.entries.get(key.as_str()) {
            Some(rec) => Some(rec.count),
            None => None,
        }
    }
}

/// The counter map after a whole sequence of requests under one key, one
/// `spec_step` per entry of `times`, in order.
pub open spec fn run_counters(
    m: Map<Seq<char>, CounterRecord>,
    cap: u64,
    key: Seq<char>,
    times: Seq<u64>,
) -> Map<Seq<char>, CounterRecord>
    decreases times.len(),
{
    if times.len() == 0 {
        m
    } else {
        spec_step(run_counters(m, cap, key, times.drop_last()), cap, key, times.last())
    }
}

/// How many of a sequence of requests under one key are admitted, each
/// evaluated against the state left by those before it.
pub open spec fn admitted_count(
    m: Map<Seq<char>, CounterRecord>,
    cap: u64,
    key: Seq<char>,
    times: Seq<u64>,
) -> nat
    decreases times.len(),
{
    if times.len() == 0 {
        0
    } else {
        admitted_count(m, cap, key, times.drop_last()) + (if spec_allowed(
            run_counters(m, cap, key, times.drop_last()),
            cap,
            key,
            times.last(),
        ) {
            1nat
        } else {
            0nat
        })
    }
}

/// Law: a key whose window has lapsed is admitted again whatever its count —
/// a previously denied key among them — and its record restarts from a count
/// of one with the window anchored at `now`.
pub proof fn lemma_window_reset(m: Map<Seq<char>, CounterRecord>, cap: u64, key: Seq<char>, now: u64)
    requires
        m.contains_key(key),
        now - m[key].window_start >= WINDOW_MILLIS,
    ensures
        spec_allowed(m, cap, key, now),
        spec_step(m, cap, key, now).contains_key(key),
        spec_step(m, cap, key, now)[key].count == 1,
        spec_step(m, cap, key, now)[key].window_start == now,
{
}

/// Law: a request under one key never touches another key's record — neither
/// its presence nor its contents.
pub proof fn lemma_no_cross_key_interference(
    m: Map<Seq<char>, CounterRecord>,
    cap: u64,
    key: Seq<char>,
    now: u64,
    other: Seq<char>,
)
    requires
        other != key,
    ensures
        spec_step(m, cap, key, now).contains_key(other) == m.contains_key(other),
        m.contains_key(other) ==> spec_step(m, cap, key, now)[other] == m[other],
{
}

/// Law: a denied request mutates nothing: when a request is not admitted the
/// counter map is left exactly as it was.
pub proof fn lemma_denied_no_mutation(
    m: Map<Seq<char>, CounterRecord>,
    cap: u64,
    key: Seq<char>,
    now: u64,
)
    requires
        !spec_allowed(m, cap, key, now),
    ensures
        spec_step(m, cap, key, now) == m,
{
}

/// The state and tally after a run of requests under one previously-unseen
/// key, all falling inside the window the first request opens: the record's
/// window is anchored at the first request's time, the count stands at the
/// smaller of the run's length and the capacity, and exactly that many
/// requests were admitted.
pub proof fn lemma_run_in_window(
    m: Map<Seq<char>, CounterRecord>,
    cap: u64,
    key: Seq<char>,
    times: Seq<u64>,
)
    requires
        cap >= 1,
        !m.contains_key(key),
        times.len() >= 1,
        forall|i: int| 0 <= i < times.len() ==> times[0] <= #[trigger] times[i] < times[0]
            + WINDOW_MILLIS,
    ensures
        run_counters(m, cap, key, times).contains_key(key),
        run_counters(m, cap, key, times)[key].window_start == times[0],
        run_counters(m, cap, key, times)[key].count == vstd::math::min(
            times.len() as int,
            cap as int,
        ),
        admitted_count(m, cap, key, times) == vstd::math::min(times.len() as int, cap as int),
    decreases times.len(),
{
    let prefix = times.drop_last();
    let t = times.last();
    if times.len() == 1 {
        assert(t == times[0]);
        assert(run_counters(m, cap, key, prefix) == m);
        assert(spec_allowed(m, cap, key, t));
        assert(admitted_count(m, cap, key, times) == 1);
    } else {
        assert(prefix[0] == times[0]);
        assert forall|i: int| 0 <= i < prefix.len() implies prefix[0] <= #[trigger] prefix[i]
            < prefix[0] + WINDOW_MILLIS by {
            assert(prefix[i] == times[i]);
        }
        lemma_run_in_window(m, cap, key, prefix);
        let mr = run_counters(m, cap, key, prefix);
        assert(times[0] <= t < times[0] + WINDOW_MILLIS);
        assert(!window_expired(mr[key], t));
        if prefix.len() < cap {
            assert(mr[key].count < cap);
            assert(spec_allowed(mr, cap, key, t));
            assert(admitted_count(m, cap, key, times) == admitted_count(m, cap, key, prefix) + 1);
        } else {
            assert(mr[key].count == cap);
            assert(!spec_allowed(mr, cap, key, t));
            assert(admitted_count(m, cap, key, times) == admitted_count(m, cap, key, prefix));
        }
    }
}

/// Law: for a limiter of capacity `cap` and any burst of requests from one
/// previously-unseen key, all inside the window the first of them opens,
/// exactly the smaller of the burst's length and the capacity are admitted —
/// never more than the capacity. `times` ranges over every ordering the
/// window condition admits, and concurrent callers of `check_and_record`
/// are serialized by the exclusive access it demands, so every interleaving
/// of simultaneous requests is one such sequence.
pub proof fn lemma_exactly_capacity_admitted(
    m: Map<Seq<char>, CounterRecord>,
    cap: u64,
    key: Seq<char>,
    times: Seq<u64>,
)
    requires
        cap >= 1,
        !m.contains_key(key),
        forall|i: int| 0 <= i < times.len() ==> times[0] <= #[trigger] times[i] < times[0]
            + WINDOW_MILLIS,
    ensures
        admitted_count(m, cap, key, times) == vstd::math::min(times.len() as int, cap as int),
{
    if times.len() == 0 {
    } else {
        lemma_run_in_window(m, cap, key, times);
    }
}

/// Law: in a burst of requests from one previously-unseen key, all inside
/// the window the first of them opens, the request at position `i` is
/// admitted exactly when fewer than `cap` requests precede it: the first
/// `cap` are allowed and every later one is denied.
pub proof fn lemma_first_capacity_allowed(
    m: Map<Seq<char>, CounterRecord>,
    cap: u64,
    key: Seq<char>,
    times: Seq<u64>,
    i: int,
)
    requires
        cap >= 1,
        !m.contains_key(key),
        forall|j: int| 0 <= j < times.len() ==> times[0] <= #[trigger] times[j] < times[0]
            + WINDOW_MILLIS,
        0 <= i < times.len(),
    ensures
        spec_allowed(run_counters(m, cap, key, times.subrange(0, i)), cap, key, times[i]) <==> i
            < cap,
{
    let pre = times.subrange(0, i);
    if i == 0 {
        assert(run_counters(m, cap, key, pre) == m);
    } else {
        assert(pre[0] == times[0]);
        assert forall|j: int| 0 <= j < pre.len() implies pre[0] <= #[trigger] pre[j] < pre[0]
            + WINDOW_MILLIS by {
            assert(pre[j] == times[j]);
        }
        lemma_run_in_window(m, cap, key, pre);
        let mr = run_counters(m, cap, key, pre);
        assert(times[0] <= times[i] < times[0] + WINDOW_MILLIS);
        assert(!window_expired(mr[key], times[i]));
    }
}

} // verus!
