//! A limit on login attempts for each client.
use vstd::prelude::*;

verus! {

/// How long a window lasts.
pub const RATE_LIMIT_WINDOW_SECS: u64 = 60;

/// How many attempts a window allows.
pub const RATE_LIMIT_MAX_ATTEMPTS: u32 = 5;

/// Nanoseconds in a second.
pub const NANOS: u64 = 1_000_000_000;

/// `dashmap::DashMap`, which holds a counter for each client.
#[verifier::external_type_specification]
#[verifier::external_body]
#[verifier::reject_recursive_types(K)]
#[verifier::reject_recursive_types(V)]
#[verifier::reject_recursive_types(S)]
pub struct ExDashMap<K, V, S>(dashmap::DashMap<K, V, S>);

/// The attempts of each client and the start of its window.
pub type Counters = dashmap::DashMap<String, (u32, u64)>;

/// What the counters are: for each client its attempts and the start of its window.
pub uninterp spec fn counters(m: Counters) -> Map<Seq<char>, (u32, u64)>;

/// No counters.
pub open spec fn no_counters() -> Map<Seq<char>, (u32, u64)> {
    Map::empty()
}

/// `DashMap::new`. The claim: there are no entries.
#[verifier::external_body]
fn counters_new() -> (m: Counters)
    ensures
        counters(m) == no_counters(),
{
    dashmap::DashMap::new()
}

/// `DashMap::entry` with `or_insert`. The claims: an entry that is there stays and is given back;
/// else the given value is put in and given back; no other entry changes.
#[verifier::external_body]
fn counters_or_insert(
    m: &mut Counters,
    key: &str,
    value: (u32, u64),
) -> (r: (u32, u64))
    ensures
        counters(*old(m)).contains_key(key@) ==> r == counters(*old(m))[key@] && counters(*final(m))
            == counters(*old(m)),
        !counters(*old(m)).contains_key(key@) ==> r == value && counters(*final(m)) == counters(
            *old(m),
        ).insert(key@, value),
{
    *m.entry(key.to_string()).or_insert(value)
}

/// `DashMap::insert`. The claim: the key's entry becomes the given value; no other entry changes.
#[verifier::external_body]
fn counters_insert(m: &mut Counters, key: &str, value: (u32, u64))
    ensures
        counters(*final(m)) == counters(*old(m)).insert(key@, value),
{
    m.insert(key.to_string(), value);
}

/// The counters of all clients.
#[derive(Debug)]
pub struct RateLimiter {
    entries: Counters,
}

impl View for RateLimiter {
    type V = Map<Seq<char>, (u32, u64)>;

    closed spec fn view(&self) -> Map<Seq<char>, (u32, u64)> {
        counters(self.entries)
    }
}

/// Whether an attempt at `now` is allowed, and what the client's counter is then. A client's
/// first attempt, and the first after a window has ended, starts a window.
pub open spec fn attempt(e: Option<(u32, u64)>, now: u64) -> (bool, (u32, u64)) {
    match e {
        None => (true, (1, now)),
        Some((count, start)) => if now >= start && (now - start) / NANOS as int
            >= RATE_LIMIT_WINDOW_SECS {
            (true, (1, now))
        } else if count < RATE_LIMIT_MAX_ATTEMPTS {
            (true, ((count + 1) as u32, start))
        } else {
            (false, (count, start))
        },
    }
}

/// The counter of a client.
pub open spec fn counter_of(m: Map<Seq<char>, (u32, u64)>, key: Seq<char>) -> Option<(u32, u64)> {
    if m.contains_key(key) {
        Some(m[key])
    } else {
        None
    }
}

impl RateLimiter {
    /// No attempts yet.
    pub fn new() -> (r: RateLimiter)
        ensures
            r@ == no_counters(),
    {
        RateLimiter { entries: counters_new() }
    }

    /// Counts an attempt of a client at a time, in nanoseconds, and says whether it is allowed.
    pub fn check_rate_limit(&mut self, client_key: &str, now: u64) -> (r: bool)
        ensures
            r == attempt(counter_of(old(self)@, client_key@), now).0,
            final(self)@ == old(self)@.insert(
                client_key@,
                attempt(counter_of(old(self)@, client_key@), now).1,
            ),
    {
        let ghost before = self@;
        let (count, start) = counters_or_insert(&mut self.entries, client_key, (0, now));
        let elapsed: u64 = if now >= start {
            (now - start) / NANOS
        } else {
            0
        };
        let (allowed, next) = if elapsed >= RATE_LIMIT_WINDOW_SECS {
            (true, (1u32, now))
        } else if count < RATE_LIMIT_MAX_ATTEMPTS {
            (true, (count + 1, start))
        } else {
            (false, (count, start))
        };
        counters_insert(&mut self.entries, client_key, next);
        assert(self@ =~= before.insert(client_key@, next));
        allowed
    }
}

/// How many of a client's attempts are allowed, and its counter after them.
pub open spec fn attempts(e: Option<(u32, u64)>, times: Seq<u64>) -> (int, Option<(u32, u64)>)
    decreases times.len(),
{
    if times.len() == 0 {
        (0, e)
    } else {
        let (n, f) = attempts(e, times.drop_last());
        let (ok, g) = attempt(f, times.last());
        (
            n + if ok {
                1int
            } else {
                0
            },
            Some(g),
        )
    }
}

/// In the window that a client's first attempt starts, exactly the first five attempts are
/// allowed.
pub proof fn law_five_attempts_in_a_window(times: Seq<u64>)
    requires
        times.len() > 0,
        forall|i: int|
            0 <= i < times.len() ==> times[0] <= #[trigger] times[i] < times[0]
                + RATE_LIMIT_WINDOW_SECS * NANOS,
    ensures
        attempts(None, times).0 == if times.len() <= RATE_LIMIT_MAX_ATTEMPTS {
            times.len() as int
        } else {
            RATE_LIMIT_MAX_ATTEMPTS as int
        },
        attempts(None, times).1 == Some((attempts(None, times).0 as u32, times[0])),
    decreases times.len(),
{
    if times.len() == 1 {
        assert(times.drop_last() =~= Seq::empty());
        assert(attempts(None, times.drop_last()) == (0int, None::<(u32, u64)>));
    } else {
        let before = times.drop_last();
        assert forall|i: int| 0 <= i < before.len() implies before[0] <= #[trigger] before[i]
            < before[0] + RATE_LIMIT_WINDOW_SECS * NANOS by {
            assert(times[i] == before[i]);
        }
        law_five_attempts_in_a_window(before);
        let last = times[times.len() - 1];
        assert(times[0] <= last < times[0] + RATE_LIMIT_WINDOW_SECS * NANOS);
        assert((last - times[0]) / (NANOS as int) < RATE_LIMIT_WINDOW_SECS);
    }
}

/// Once a window has ended, the next attempt is allowed and starts a new one.
pub proof fn law_window_ends(count: u32, start: u64, now: u64)
    requires
        now >= start + RATE_LIMIT_WINDOW_SECS * NANOS,
    ensures
        attempt(Some((count, start)), now) == (true, (1u32, now)),
{
}

/// The counters after attempts of several clients, each with its time.
pub open spec fn counters_after(m: Map<Seq<char>, (u32, u64)>, events: Seq<(Seq<char>, u64)>) -> Map<
    Seq<char>,
    (u32, u64),
>
    decreases events.len(),
{
    if events.len() == 0 {
        m
    } else {
        let before = counters_after(m, events.drop_last());
        let (key, now) = events.last();
        before.insert(key, attempt(counter_of(before, key), now).1)
    }
}

/// The times of one client's attempts.
pub open spec fn times_of(events: Seq<(Seq<char>, u64)>, key: Seq<char>) -> Seq<u64>
    decreases events.len(),
{
    if events.len() == 0 {
        Seq::empty()
    } else if events.last().0 == key {
        times_of(events.drop_last(), key).push(events.last().1)
    } else {
        times_of(events.drop_last(), key)
    }
}

/// Clients do not affect each other: a client's counter is what its own attempts make it.
pub proof fn law_clients_are_independent(
    m: Map<Seq<char>, (u32, u64)>,
    events: Seq<(Seq<char>, u64)>,
    key: Seq<char>,
)
    ensures
        counter_of(counters_after(m, events), key) == attempts(
            counter_of(m, key),
            times_of(events, key),
        ).1,
    decreases events.len(),
{
    if events.len() > 0 {
        let rest = events.drop_last();
        law_clients_are_independent(m, rest, key);
        if events.last().0 == key {
            let times = times_of(rest, key);
            assert(times.push(events.last().1).drop_last() =~= times);
        }
    }
}

} // verus!
