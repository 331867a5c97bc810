//! Whether an advertisement of our buds leads to a connection attempt.
//!
//! Buds that nobody wears are left alone: connecting would keep them awake.
//! Attempts to one address keep a pause between them and do not overlap.
use std::collections::{HashMap, HashSet};
use std::time::{Duration, Instant};
use vstd::prelude::*;

use crate::address::{address_codes_are_distinct, Address};
use crate::cooldown::{backoff_ok, comes_after, cooldown_is_over, elapsed_nanos, since_attempt};

verus! {

broadcast use vstd::std_specs::hash::group_hash_axioms;

/// The pause between two attempts to one address, in seconds.
pub const RECONNECT_COOLDOWN_SECS: u64 = 10;

/// The pause in nanoseconds.
pub open spec fn cooldown_nanos() -> nat {
    (RECONNECT_COOLDOWN_SECS * 1_000_000_000) as nat
}

/// Whether an advertisement is worth asking for the user's preference.
#[derive(Clone, Copy, Debug, PartialEq, Eq, Structural)]
pub enum Readiness {
    /// No bud is in an ear.
    NotWorn,
    /// The last attempt is too recent.
    CoolingDown,
    /// Ask for the preference.
    Ready,
}

/// What comes of an advertisement that found the buds ready.
#[derive(Clone, Copy, Debug, PartialEq, Eq, Structural)]
pub enum ConnectStep {
    /// The user does not want connections made.
    Disabled,
    /// An attempt to the same address is under way.
    AlreadyConnecting,
    /// An attempt to the same address was made too recently, if only since the
    /// buds were found ready.
    TooEarly,
    /// Connect, and report when the attempt has ended.
    Connect,
}

/// The time of the last attempt to an address.
pub open spec fn last_attempt_to(attempts: Map<u64, Instant>, addr: Address) -> Option<Instant> {
    if attempts.contains_key(addr.spec_code()) {
        Some(attempts[addr.spec_code()])
    } else {
        None
    }
}

/// Whether a new attempt to an address comes too early.
pub open spec fn too_early(attempts: Map<u64, Instant>, addr: Address, now: Instant) -> bool {
    !cooldown_is_over(since_attempt(last_attempt_to(attempts, addr), now), cooldown_nanos())
}

/// How ready the buds are for an attempt on an advertisement from `addr` at `now`.
pub open spec fn readiness_for(
    attempts: Map<u64, Instant>,
    addr: Address,
    worn: bool,
    now: Instant,
) -> Readiness {
    if !worn {
        Readiness::NotWorn
    } else if too_early(attempts, addr, now) {
        Readiness::CoolingDown
    } else {
        Readiness::Ready
    }
}

/// What comes of an advertisement from `addr` at `now` that found the buds ready.
pub open spec fn step_for(
    in_flight: Set<u64>,
    attempts: Map<u64, Instant>,
    addr: Address,
    now: Instant,
    auto_connect: bool,
) -> ConnectStep {
    if !auto_connect {
        ConnectStep::Disabled
    } else if in_flight.contains(addr.spec_code()) {
        ConnectStep::AlreadyConnecting
    } else if too_early(attempts, addr, now) {
        ConnectStep::TooEarly
    } else {
        ConnectStep::Connect
    }
}

/// How ready buds are that are worn or not, inside or outside the pause after
/// an attempt.
pub fn readiness_when(worn: bool, within_cooldown: bool) -> (r: Readiness)
    ensures
        r == Readiness::NotWorn <==> !worn,
        r == Readiness::CoolingDown <==> worn && within_cooldown,
        r == Readiness::Ready <==> worn && !within_cooldown,
{
    if !worn {
        Readiness::NotWorn
    } else if within_cooldown {
        Readiness::CoolingDown
    } else {
        Readiness::Ready
    }
}

/// Whether each of the times lies at least the pause behind every one that
/// follows it.
pub open spec fn keep_the_pause(times: Seq<Instant>) -> bool {
    forall|i: int, k: int|
        0 <= i < k < times.len() ==> elapsed_nanos(#[trigger] times[k], #[trigger] times[i])
            >= cooldown_nanos()
}

/// When the last attempt to each address was made.
pub struct AttemptLog {
    last_attempt: HashMap<u64, Instant>,
    /// The times of all attempts to each address, in the order in which they
    /// were made.
    made: Ghost<Map<u64, Seq<Instant>>>,
}

impl View for AttemptLog {
    type V = Map<u64, Instant>;

    closed spec fn view(&self) -> Map<u64, Instant> {
        self.last_attempt@
    }
}

impl AttemptLog {
    /// The times of all attempts to `addr`, in the order in which they were made.
    pub closed spec fn attempts_to(self, addr: Address) -> Seq<Instant> {
        if self.made@.contains_key(addr.spec_code()) {
            self.made@[addr.spec_code()]
        } else {
            Seq::empty()
        }
    }

    /// The last of the attempts to an address is the one that is logged, and
    /// all of them keep the pause.
    pub closed spec fn wf(self) -> bool {
        &&& self.made@.dom() == self.last_attempt@.dom()
        &&& forall|code: u64| #[trigger]
            self.made@.contains_key(code) ==> {
                &&& self.made@[code].len() > 0
                &&& self.made@[code].last() == self.last_attempt@[code]
                &&& keep_the_pause(self.made@[code])
            }
    }

    /// A log of no attempts.
    pub fn new() -> (log: AttemptLog)
        ensures
            log.wf(),
            log@ == Map::<u64, Instant>::empty(),
            forall|addr: Address| #[trigger] log.attempts_to(addr) == Seq::<Instant>::empty(),
    {
        let log = AttemptLog { last_attempt: HashMap::new(), made: Ghost(Map::empty()) };
        assert(log.made@.dom() =~= log.last_attempt@.dom());
        log
    }

    /// Whether a new attempt to `addr` at `now` comes too early.
    pub fn within_cooldown(&self, addr: &Address, now: Instant) -> (r: bool)
        ensures
            r == too_early(self@, *addr, now),
            r <==> self@.contains_key(addr.spec_code()) && elapsed_nanos(
                now,
                self@[addr.spec_code()],
            ) < 10_000_000_000,
            last_attempt_to(self@, *addr) matches Some(t) ==> comes_after(now, t),
    {
        let last: Option<Instant> = match self.last_attempt.get(&addr.code()) {
            Some(t) => Some(*t),
            None => None,
        };
        !backoff_ok(last, now, Duration::from_secs(RECONNECT_COOLDOWN_SECS))
    }

    /// Whether an advertisement from `addr` at `now` is worth going on with.
    pub fn readiness(&self, addr: &Address, worn: bool, now: Instant) -> (r: Readiness)
        ensures
            r == readiness_for(self@, *addr, worn, now),
            r == Readiness::NotWorn <==> !worn,
            r == Readiness::CoolingDown <==> worn && self@.contains_key(addr.spec_code())
                && elapsed_nanos(now, self@[addr.spec_code()]) < 10_000_000_000,
            r == Readiness::Ready <==> worn && (self@.contains_key(addr.spec_code())
                ==> elapsed_nanos(now, self@[addr.spec_code()]) >= 10_000_000_000),
    {
        readiness_when(worn, self.within_cooldown(addr, now))
    }
}

/// The addresses to which an attempt is under way.
pub struct InFlight {
    connecting: HashSet<u64>,
}

impl View for InFlight {
    type V = Set<u64>;

    closed spec fn view(&self) -> Set<u64> {
        self.connecting@
    }
}

impl InFlight {
    /// No attempt is under way.
    pub fn new() -> (r: InFlight)
        ensures
            r@ == Set::<u64>::empty(),
    {
        InFlight { connecting: HashSet::new() }
    }

    /// Decides whether to connect to `addr` and, if so, marks the attempt as
    /// under way and logs its time. The pause is looked at here too: between
    /// finding the buds ready and deciding, another advertisement of the same
    /// address may have led to an attempt. Whatever came of earlier attempts to
    /// `addr` and whatever happened since, there is no new one within the pause
    /// after any of them.
    pub fn begin(
        &mut self,
        attempts: &mut AttemptLog,
        addr: &Address,
        now: Instant,
        auto_connect: bool,
    ) -> (step: ConnectStep)
        requires
            old(attempts).wf(),
        ensures
            final(attempts).wf(),
            step == step_for(old(self)@, old(attempts)@, *addr, now, auto_connect),
            step == ConnectStep::Connect <==> auto_connect && !old(self)@.contains(addr.spec_code())
                && !too_early(old(attempts)@, *addr, now),
            step == ConnectStep::Disabled <==> !auto_connect,
            step == ConnectStep::AlreadyConnecting <==> auto_connect && old(self)@.contains(
                addr.spec_code(),
            ),
            step == ConnectStep::TooEarly <==> {
                &&& auto_connect
                &&& !old(self)@.contains(addr.spec_code())
                &&& old(attempts)@.contains_key(addr.spec_code())
                &&& elapsed_nanos(now, old(attempts)@[addr.spec_code()]) < 10_000_000_000
            },
            step == ConnectStep::Connect ==> {
                &&& final(self)@ == old(self)@.insert(addr.spec_code())
                &&& final(attempts)@ == old(attempts)@.insert(addr.spec_code(), now)
                &&& final(attempts).attempts_to(*addr) == old(attempts).attempts_to(*addr).push(now)
                &&& forall|other: Address|
                    other.octets@ != addr.octets@ ==> #[trigger] final(attempts).attempts_to(other)
                        == old(attempts).attempts_to(other)
            },
            step != ConnectStep::Connect ==> {
                &&& final(self)@ == old(self)@
                &&& *final(attempts) == *old(attempts)
            },
            forall|i: int|
                0 <= i < old(attempts).attempts_to(*addr).len() && elapsed_nanos(
                    now,
                    #[trigger] old(attempts).attempts_to(*addr)[i],
                ) < cooldown_nanos() ==> step != ConnectStep::Connect,
            forall|i: int|
                0 <= i < old(attempts).attempts_to(*addr).len() && elapsed_nanos(
                    now,
                    #[trigger] old(attempts).attempts_to(*addr)[i],
                ) < 10_000_000_000 ==> step != ConnectStep::Connect,
            ledger(final(self)@, final(attempts)@) == ledger_after(
                ledger(old(self)@, old(attempts)@),
                (Event::Begin { addr: *addr, now, auto_connect }),
            ),
    {
        let code: u64 = addr.code();
        if !auto_connect {
            ConnectStep::Disabled
        } else if self.connecting.contains(&code) {
            ConnectStep::AlreadyConnecting
        } else if attempts.within_cooldown(addr, now) {
            ConnectStep::TooEarly
        } else {
            self.connecting.insert(code);
            attempts.last_attempt.insert(code, now);
            attempts.made = Ghost(
                attempts.made@.insert(code, attempts.attempts_to(*addr).push(now)),
            );
            proof {
                let before = old(attempts).attempts_to(*addr);
                assert forall|i: int| 0 <= i < before.len() implies elapsed_nanos(
                    now,
                    #[trigger] before[i],
                ) >= cooldown_nanos() by {
                    assert(old(attempts).made@.contains_key(code));
                    assert(elapsed_nanos(now, before.last()) >= cooldown_nanos());
                    if i < before.len() - 1 {
                        assert(elapsed_nanos(before[before.len() - 1], before[i])
                            >= cooldown_nanos());
                    }
                }
                assert(attempts.made@.dom() =~= attempts.last_attempt@.dom());
                assert forall|other: Address|
                    other.octets@ != addr.octets@ implies #[trigger] attempts.attempts_to(other)
                    == old(attempts).attempts_to(other) by {
                    address_codes_are_distinct(other, *addr);
                }
            }
            ConnectStep::Connect
        }
    }

    /// The attempt to `addr` has ended. However it ended, a later
    /// advertisement may try again.
    pub fn finish(&mut self, addr: &Address)
        ensures
            final(self)@ == old(self)@.remove(addr.spec_code()),
            forall|attempts: Map<u64, Instant>| #[trigger]
                ledger(final(self)@, attempts) == ledger_after(
                    ledger(old(self)@, attempts),
                    (Event::Finished { addr: *addr }),
                ),
    {
        self.connecting.remove(&addr.code());
        assert(self@ =~= old(self)@.remove(addr.spec_code()));
    }
}

/// Both records together.
pub struct Ledger {
    pub in_flight: Set<u64>,
    pub attempts: Map<u64, Instant>,
}

/// The two records as one.
pub open spec fn ledger(in_flight: Set<u64>, attempts: Map<u64, Instant>) -> Ledger {
    Ledger { in_flight, attempts }
}

/// What happens to the records.
pub enum Event {
    /// It is decided whether to connect on an advertisement from `addr` at `now`.
    Begin { addr: Address, now: Instant, auto_connect: bool },
    /// An attempt has ended.
    Finished { addr: Address },
}

/// Whether an event makes a connection attempt to `addr`.
pub open spec fn connects(ledger: Ledger, event: Event, addr: Address) -> bool {
    match event {
        Event::Begin { addr: a, now, auto_connect } => {
            &&& a.spec_code() == addr.spec_code()
            &&& step_for(ledger.in_flight, ledger.attempts, a, now, auto_connect)
                == ConnectStep::Connect
        },
        Event::Finished { .. } => false,
    }
}

/// The records after an event.
pub open spec fn ledger_after(ledger: Ledger, event: Event) -> Ledger {
    match event {
        Event::Begin { addr, now, .. } => if connects(ledger, event, addr) {
            Ledger {
                in_flight: ledger.in_flight.insert(addr.spec_code()),
                attempts: ledger.attempts.insert(addr.spec_code(), now),
            }
        } else {
            ledger
        },
        Event::Finished { addr } => Ledger {
            in_flight: ledger.in_flight.remove(addr.spec_code()),
            ..ledger
        },
    }
}

/// The records after `events`, from the start of a run on.
pub open spec fn ledger_of(events: Seq<Event>) -> Ledger
    decreases events.len(),
{
    if events.len() == 0 {
        Ledger { in_flight: Set::empty(), attempts: Map::empty() }
    } else {
        ledger_after(ledger_of(events.drop_last()), events.last())
    }
}

/// Whether event number `k` makes a connection attempt to `addr`.
pub open spec fn connects_at(events: Seq<Event>, k: int, addr: Address) -> bool {
    0 <= k < events.len() && connects(ledger_of(events.take(k)), events[k], addr)
}

/// Whether event number `k` ends an attempt to `addr`.
pub open spec fn finishes_at(events: Seq<Event>, k: int, addr: Address) -> bool {
    0 <= k < events.len() && (events[k] matches Event::Finished { addr: a } && a.spec_code()
        == addr.spec_code())
}

/// The time of the advertisement on which it is decided.
pub open spec fn time_of(event: Event) -> Instant {
    event->now
}

/// An advertisement leads to an attempt exactly if somebody wears the buds, the
/// user wants it, no attempt is under way, and the last one lies far enough
/// back, both in the log of when the advertisement arrived (`seen`) and in that
/// of when it is decided.
pub proof fn connects_only_when_worn_and_wanted(
    seen: Map<u64, Instant>,
    ledger: Ledger,
    addr: Address,
    worn: bool,
    now: Instant,
    auto_connect: bool,
)
    ensures
        readiness_for(seen, addr, worn, now) == Readiness::Ready && connects(
            ledger,
            Event::Begin { addr, now, auto_connect },
            addr,
        ) <==> {
            &&& worn
            &&& auto_connect
            &&& !ledger.in_flight.contains(addr.spec_code())
            &&& (seen.contains_key(addr.spec_code()) ==> elapsed_nanos(now, seen[addr.spec_code()])
                >= cooldown_nanos())
            &&& (ledger.attempts.contains_key(addr.spec_code()) ==> elapsed_nanos(
                now,
                ledger.attempts[addr.spec_code()],
            ) >= cooldown_nanos())
        },
{
}

/// The pause is ten seconds. An attempt comes too early exactly if one to the
/// same address was made and less than the pause went by since; only that makes
/// worn buds not ready.
pub proof fn the_pause_is_ten_seconds(
    attempts: Map<u64, Instant>,
    addr: Address,
    worn: bool,
    now: Instant,
)
    ensures
        cooldown_nanos() == 10_000_000_000,
        too_early(attempts, addr, now) <==> attempts.contains_key(addr.spec_code())
            && elapsed_nanos(now, attempts[addr.spec_code()]) < 10_000_000_000,
        readiness_for(attempts, addr, worn, now) == Readiness::NotWorn <==> !worn,
        readiness_for(attempts, addr, worn, now) == Readiness::CoolingDown <==> worn
            && attempts.contains_key(addr.spec_code()) && elapsed_nanos(
            now,
            attempts[addr.spec_code()],
        ) < 10_000_000_000,
{
}

/// An attempt is made exactly on a decision for that address that is wanted,
/// finds none under way and comes ten seconds after the last one at the
/// earliest. It is then marked and logged. Only its end takes the mark away.
pub proof fn an_attempt_is_made_and_marked_so(ledger: Ledger, event: Event, addr: Address)
    ensures
        connects(ledger, event, addr) <==> match event {
            Event::Begin { addr: a, now, auto_connect } => {
                &&& a.octets@ == addr.octets@
                &&& auto_connect
                &&& !ledger.in_flight.contains(addr.spec_code())
                &&& ledger.attempts.contains_key(addr.spec_code()) ==> elapsed_nanos(
                    now,
                    ledger.attempts[addr.spec_code()],
                ) >= 10_000_000_000
            },
            Event::Finished { .. } => false,
        },
        connects(ledger, event, addr) ==> {
            &&& ledger_after(ledger, event).in_flight == ledger.in_flight.insert(addr.spec_code())
            &&& ledger_after(ledger, event).attempts == ledger.attempts.insert(
                addr.spec_code(),
                event->now,
            )
        },
        event matches Event::Begin { addr: a, .. } ==> (!connects(ledger, event, a)
            ==> ledger_after(ledger, event) == ledger),
        event matches Event::Finished { addr: a } ==> {
            &&& ledger_after(ledger, event).in_flight == ledger.in_flight.remove(a.spec_code())
            &&& ledger_after(ledger, event).attempts == ledger.attempts
        },
{
    match event {
        Event::Begin { addr: a, .. } => {
            address_codes_are_distinct(a, addr);
        },
        Event::Finished { .. } => {},
    }
}

/// What happens to one address does not touch another.
pub proof fn addresses_do_not_interfere(ledger: Ledger, event: Event, other: Address)
    requires
        match event {
            Event::Begin { addr, .. } => addr.octets@ != other.octets@,
            Event::Finished { addr } => addr.octets@ != other.octets@,
        },
    ensures
        !connects(ledger, event, other),
        last_attempt_to(ledger_after(ledger, event).attempts, other) == last_attempt_to(
            ledger.attempts,
            other,
        ),
        ledger_after(ledger, event).in_flight.contains(other.spec_code())
            == ledger.in_flight.contains(other.spec_code()),
{
    match event {
        Event::Begin { addr, .. } => {
            address_codes_are_distinct(addr, other);
        },
        Event::Finished { addr } => {
            address_codes_are_distinct(addr, other);
        },
    }
}

/// The first events are the same whether looked at alone or among all.
proof fn lemma_first_events(events: Seq<Event>, n: int, addr: Address)
    requires
        0 <= n <= events.len(),
    ensures
        forall|j: int|
            j < n ==> #[trigger] connects_at(events.take(n), j, addr) == connects_at(
                events,
                j,
                addr,
            ),
        forall|j: int|
            j < n ==> #[trigger] finishes_at(events.take(n), j, addr) == finishes_at(
                events,
                j,
                addr,
            ),
{
    assert forall|j: int| j < n implies #[trigger] connects_at(events.take(n), j, addr)
        == connects_at(events, j, addr) by {
        if 0 <= j {
            assert(events.take(n).take(j) =~= events.take(j));
        }
    }
}

/// The log holds the time of the latest attempt.
proof fn lemma_log_holds_latest(events: Seq<Event>, k: int, addr: Address)
    requires
        connects_at(events, k, addr),
        forall|j: int| k < j < events.len() ==> !#[trigger] connects_at(events, j, addr),
    ensures
        last_attempt_to(ledger_of(events).attempts, addr) == Some(time_of(events[k])),
    decreases events.len(),
{
    let before = events.drop_last();
    let last = events.len() - 1;
    assert(events.take(last) =~= before);
    if k < last {
        lemma_first_events(events, last, addr);
        assert(connects_at(before, k, addr));
        assert forall|j: int| k < j < before.len() implies !#[trigger] connects_at(
            before,
            j,
            addr,
        ) by {
            assert(!connects_at(events, j, addr));
        }
        lemma_log_holds_latest(before, k, addr);
        assert(!connects_at(events, last, addr));
    }
}

/// Two attempts to one address with none between them lie at least the pause
/// apart, whatever else happened meanwhile.
pub proof fn neighbouring_attempts_keep_their_distance(
    events: Seq<Event>,
    i: int,
    k: int,
    addr: Address,
)
    requires
        i < k,
        connects_at(events, i, addr),
        connects_at(events, k, addr),
        forall|j: int| i < j < k ==> !#[trigger] connects_at(events, j, addr),
    ensures
        elapsed_nanos(time_of(events[k]), time_of(events[i])) >= cooldown_nanos(),
{
    let before = events.take(k);
    lemma_first_events(events, k, addr);
    assert(connects_at(before, i, addr));
    assert forall|j: int| i < j < before.len() implies !#[trigger] connects_at(
        before,
        j,
        addr,
    ) by {
        assert(!connects_at(events, j, addr));
    }
    lemma_log_holds_latest(before, i, addr);
}

/// Any two attempts to one address that a log has seen lie at least the pause
/// apart, however many advertisements and other attempts came between them.
pub proof fn attempts_keep_their_distance(log: AttemptLog, addr: Address, i: int, k: int)
    requires
        log.wf(),
        0 <= i < k < log.attempts_to(addr).len(),
    ensures
        elapsed_nanos(log.attempts_to(addr)[k], log.attempts_to(addr)[i]) >= cooldown_nanos(),
        elapsed_nanos(log.attempts_to(addr)[k], log.attempts_to(addr)[i]) >= 10_000_000_000,
{
}

/// An attempt stays marked as under way until it ends.
proof fn lemma_marked_until_finished(events: Seq<Event>, i: int, addr: Address)
    requires
        connects_at(events, i, addr),
        forall|j: int| i < j < events.len() ==> !#[trigger] finishes_at(events, j, addr),
    ensures
        ledger_of(events).in_flight.contains(addr.spec_code()),
    decreases events.len(),
{
    let before = events.drop_last();
    let last = events.len() - 1;
    assert(events.take(last) =~= before);
    if i != last {
        lemma_first_events(events, last, addr);
        assert(connects_at(before, i, addr));
        assert forall|j: int| i < j < before.len() implies !#[trigger] finishes_at(
            before,
            j,
            addr,
        ) by {
            assert(!finishes_at(events, j, addr));
        }
        lemma_marked_until_finished(before, i, addr);
        assert(!finishes_at(events, last, addr));
    }
}

/// Attempts to one address do not overlap: between two of them the first ends.
pub proof fn attempts_do_not_overlap(events: Seq<Event>, i: int, k: int, addr: Address)
    requires
        i < k,
        connects_at(events, i, addr),
        connects_at(events, k, addr),
    ensures
        exists|j: int| i < j < k && #[trigger] finishes_at(events, j, addr),
{
    if forall|j: int| i < j < k ==> !#[trigger] finishes_at(events, j, addr) {
        let before = events.take(k);
        lemma_first_events(events, k, addr);
        assert(connects_at(before, i, addr));
        assert forall|j: int| i < j < before.len() implies !#[trigger] finishes_at(
            before,
            j,
            addr,
        ) by {
            assert(!finishes_at(events, j, addr));
        }
        lemma_marked_until_finished(before, i, addr);
    }
}

/// Once an attempt has ended, its mark stays away until the next attempt.
proof fn lemma_unmarked_once_finished(events: Seq<Event>, f: int, addr: Address)
    requires
        finishes_at(events, f, addr),
        forall|j: int| f < j < events.len() ==> !#[trigger] connects_at(events, j, addr),
    ensures
        !ledger_of(events).in_flight.contains(addr.spec_code()),
    decreases events.len(),
{
    let before = events.drop_last();
    let last = events.len() - 1;
    assert(events.take(last) =~= before);
    if f != last {
        lemma_first_events(events, last, addr);
        assert(finishes_at(before, f, addr));
        assert forall|j: int| f < j < before.len() implies !#[trigger] connects_at(
            before,
            j,
            addr,
        ) by {
            assert(!connects_at(events, j, addr));
        }
        lemma_unmarked_once_finished(before, f, addr);
        assert(!connects_at(events, last, addr));
    }
}

/// An attempt that has ended blocks nothing: once the pause is over, an
/// advertisement of worn buds finds them ready and leads to a new attempt if the
/// user wants it, whatever happened meanwhile short of another attempt.
pub proof fn an_ended_attempt_can_be_repeated(
    events: Seq<Event>,
    i: int,
    f: int,
    addr: Address,
    later: Instant,
)
    requires
        i < f,
        connects_at(events, i, addr),
        finishes_at(events, f, addr),
        forall|j: int| i < j < events.len() ==> !#[trigger] connects_at(events, j, addr),
        elapsed_nanos(later, time_of(events[i])) >= cooldown_nanos(),
    ensures
        readiness_for(ledger_of(events).attempts, addr, true, later) == Readiness::Ready,
        connects_at(
            events.push(Event::Begin { addr, now: later, auto_connect: true }),
            events.len() as int,
            addr,
        ),
{
    lemma_log_holds_latest(events, i, addr);
    lemma_unmarked_once_finished(events, f, addr);
    let more = events.push(Event::Begin { addr, now: later, auto_connect: true });
    assert(more.take(events.len() as int) =~= events);
}

} // verus!
