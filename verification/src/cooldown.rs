//! The pause between two connection attempts to one device.
use std::time::{Duration, Instant};
use vstd::prelude::*;

verus! {

/// `std::time::Instant`, of which nothing is known but what the functions below
/// say.
#[verifier::external_type_specification]
#[verifier::external_body]
pub struct ExInstant(Instant);

/// The length of a duration in nanoseconds, as `Duration::as_nanos` gives it.
pub uninterp spec fn duration_nanos(d: Duration) -> nat;

/// The nanoseconds from `earlier` to `later`, as `Instant::duration_since`
/// gives them.
pub uninterp spec fn elapsed_nanos(later: Instant, earlier: Instant) -> nat;

/// `Duration::as_nanos`: the total number of nanoseconds of the duration.
pub assume_specification[ Duration::as_nanos ](d: &Duration) -> (n: u128)
    ensures
        n == duration_nanos(*d),
;

/// `Duration::from_secs`: a duration of that many whole seconds.
pub assume_specification[ Duration::from_secs ](secs: u64) -> (d: Duration)
    ensures
        duration_nanos(d) == secs * 1_000_000_000,
;

/// `Instant::duration_since`: the time that went by from `earlier` to `later`,
/// which is none where `earlier` is the later of the two. The clock does not go
/// back: an instant before `earlier` lies no less far behind `later`.
pub assume_specification[ Instant::duration_since ](later: &Instant, earlier: Instant) -> (d:
    Duration)
    ensures
        duration_nanos(d) == elapsed_nanos(*later, earlier),
        elapsed_nanos(earlier, *later) > 0 ==> duration_nanos(d) == 0,
        forall|older: Instant|
            duration_nanos(d) > 0 && #[trigger] elapsed_nanos(earlier, older) > 0 ==> elapsed_nanos(
                *later,
                older,
            ) >= duration_nanos(d),
;

/// Whether a pause of `cooldown` is over when `elapsed` went by since the last
/// attempt, if there was one.
pub open spec fn cooldown_is_over(elapsed: Option<nat>, cooldown: nat) -> bool {
    match elapsed {
        None => true,
        Some(nanos) => nanos >= cooldown,
    }
}

/// The time since the last attempt, if there was one.
pub open spec fn since_attempt(last_attempt: Option<Instant>, now: Instant) -> Option<nat> {
    match last_attempt {
        None => None,
        Some(t) => Some(elapsed_nanos(now, t)),
    }
}

/// Whether every instant before `earlier` lies at least as far behind `later` as
/// `earlier` does.
pub open spec fn comes_after(later: Instant, earlier: Instant) -> bool {
    forall|older: Instant|
        elapsed_nanos(later, earlier) > 0 && #[trigger] elapsed_nanos(earlier, older) > 0
            ==> elapsed_nanos(later, older) >= elapsed_nanos(later, earlier)
}

/// A pause is over if no attempt was made, and else exactly if at least the
/// pause went by from that attempt until now. A shorter pause is over as soon as
/// a longer one is.
pub proof fn a_pause_ends_when_it_has_gone_by(
    last_attempt: Option<Instant>,
    now: Instant,
    cooldown: nat,
    shorter: nat,
)
    requires
        shorter <= cooldown,
    ensures
        match last_attempt {
            None => cooldown_is_over(since_attempt(last_attempt, now), cooldown),
            Some(t) => cooldown_is_over(since_attempt(last_attempt, now), cooldown)
                <==> elapsed_nanos(now, t) >= cooldown,
        },
        cooldown_is_over(since_attempt(last_attempt, now), cooldown) ==> cooldown_is_over(
            since_attempt(last_attempt, now),
            shorter,
        ),
{
}

/// Whether a pause of `cooldown` nanoseconds is over when `elapsed` nanoseconds
/// went by since the last attempt, if there was one.
pub fn cooldown_over(elapsed: Option<u128>, cooldown: u128) -> (r: bool)
    ensures
        r == cooldown_is_over(
            match elapsed {
                None => None,
                Some(nanos) => Some(nanos as nat),
            },
            cooldown as nat,
        ),
        match elapsed {
            None => r,
            Some(nanos) => r <==> nanos >= cooldown,
        },
{
    match elapsed {
        None => true,
        Some(nanos) => nanos >= cooldown,
    }
}

/// Whether a new attempt may be made at `now`: none was made before, or the
/// last one lies at least `cooldown` back. An attempt that lies in the future
/// counts as just made.
pub fn backoff_ok(last_attempt: Option<Instant>, now: Instant, cooldown: Duration) -> (r: bool)
    ensures
        r == cooldown_is_over(since_attempt(last_attempt, now), duration_nanos(cooldown)),
        match last_attempt {
            None => r,
            Some(t) => r <==> elapsed_nanos(now, t) >= duration_nanos(cooldown),
        },
        last_attempt matches Some(t) && elapsed_nanos(t, now) > 0 ==> r == (duration_nanos(cooldown)
            == 0),
        last_attempt matches Some(t) ==> comes_after(now, t),
{
    let elapsed: Option<u128> = match last_attempt {
        None => None,
        Some(t) => Some(now.duration_since(t).as_nanos()),
    };
    cooldown_over(elapsed, cooldown.as_nanos())
}

} // verus!
