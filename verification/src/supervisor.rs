//! When the advertisement monitor runs: only while none of our AirPods is
//! connected to this adapter.
use vstd::prelude::*;

verus! {

/// Where the supervisor stands.
#[derive(Clone, Copy, Debug, PartialEq, Eq, Structural)]
pub enum Phase {
    /// No monitor runs; one starts as soon as no AirPods are connected.
    Waiting,
    /// A monitor runs; it stops as soon as AirPods are connected.
    Monitoring,
    /// The application is shutting down.
    Stopped,
}

/// What the supervisor learns of the local connection.
#[derive(Clone, Copy, Debug, PartialEq, Eq, Structural)]
pub enum LinkEvent {
    /// The current state: whether AirPods are connected to this adapter.
    Connected(bool),
    /// Nobody is left to report the state.
    Closed,
}

/// What the supervisor has to do next.
#[derive(Clone, Copy, Debug, PartialEq, Eq, Structural)]
pub enum Action {
    /// Wait for the state to change, then report it.
    AwaitChange,
    /// Load the known devices afresh, start a monitor, then report the state.
    StartMonitor,
    /// Stop the monitor, then report the state.
    StopMonitor,
    /// Stop the monitor and end.
    StopMonitorAndExit,
    /// End.
    Exit,
}

/// The transition of the supervisor.
pub open spec fn next(phase: Phase, event: LinkEvent) -> (Phase, Action) {
    match (phase, event) {
        (Phase::Stopped, _) => (Phase::Stopped, Action::Exit),
        (Phase::Waiting, LinkEvent::Closed) => (Phase::Stopped, Action::Exit),
        (Phase::Monitoring, LinkEvent::Closed) => (Phase::Stopped, Action::StopMonitorAndExit),
        (Phase::Waiting, LinkEvent::Connected(true)) => (Phase::Waiting, Action::AwaitChange),
        (Phase::Waiting, LinkEvent::Connected(false)) => (Phase::Monitoring, Action::StartMonitor),
        (Phase::Monitoring, LinkEvent::Connected(false)) => (
            Phase::Monitoring,
            Action::AwaitChange,
        ),
        (Phase::Monitoring, LinkEvent::Connected(true)) => (Phase::Waiting, Action::StopMonitor),
    }
}

/// One step of the supervisor.
pub fn supervise(phase: Phase, event: LinkEvent) -> (r: (Phase, Action))
    ensures
        r == next(phase, event),
        phase == Phase::Stopped ==> r == (Phase::Stopped, Action::Exit),
        phase == Phase::Waiting && event == LinkEvent::Closed ==> r == (
            Phase::Stopped,
            Action::Exit,
        ),
        phase == Phase::Waiting && event == LinkEvent::Connected(true) ==> r == (
            Phase::Waiting,
            Action::AwaitChange,
        ),
        phase == Phase::Waiting && event == LinkEvent::Connected(false) ==> r == (
            Phase::Monitoring,
            Action::StartMonitor,
        ),
        phase == Phase::Monitoring && event == LinkEvent::Closed ==> r == (
            Phase::Stopped,
            Action::StopMonitorAndExit,
        ),
        phase == Phase::Monitoring && event == LinkEvent::Connected(true) ==> r == (
            Phase::Waiting,
            Action::StopMonitor,
        ),
        phase == Phase::Monitoring && event == LinkEvent::Connected(false) ==> r == (
            Phase::Monitoring,
            Action::AwaitChange,
        ),
{
    match phase {
        Phase::Stopped => (Phase::Stopped, Action::Exit),
        Phase::Waiting => match event {
            LinkEvent::Closed => (Phase::Stopped, Action::Exit),
            LinkEvent::Connected(connected) => if connected {
                (Phase::Waiting, Action::AwaitChange)
            } else {
                (Phase::Monitoring, Action::StartMonitor)
            },
        },
        Phase::Monitoring => match event {
            LinkEvent::Closed => (Phase::Stopped, Action::StopMonitorAndExit),
            LinkEvent::Connected(connected) => if connected {
                (Phase::Waiting, Action::StopMonitor)
            } else {
                (Phase::Monitoring, Action::AwaitChange)
            },
        },
    }
}

/// A step waits exactly if it leaves the phase as it was before shutdown, it
/// starts a monitor exactly if it enters the monitoring phase, stops one exactly
/// if it leaves it, and ends exactly in the last phase.
pub proof fn actions_go_with_phases(phase: Phase, event: LinkEvent)
    ensures
        ({
            let (after, action) = next(phase, event);
            &&& action == Action::AwaitChange <==> after == phase && phase != Phase::Stopped
            &&& action == Action::StartMonitor <==> phase != Phase::Monitoring && after
                == Phase::Monitoring
            &&& action == Action::StopMonitor || action == Action::StopMonitorAndExit <==> phase
                == Phase::Monitoring && after != Phase::Monitoring
            &&& action == Action::Exit || action == Action::StopMonitorAndExit <==> after
                == Phase::Stopped
        }),
{
}

/// The phase after `events`, from the start on.
pub open spec fn phase_after(events: Seq<LinkEvent>) -> Phase
    decreases events.len(),
{
    if events.len() == 0 {
        Phase::Waiting
    } else {
        next(phase_after(events.drop_last()), events.last()).0
    }
}

/// The actions taken on `events`, from the start on.
pub open spec fn actions_on(events: Seq<LinkEvent>) -> Seq<Action>
    decreases events.len(),
{
    if events.len() == 0 {
        Seq::empty()
    } else {
        actions_on(events.drop_last()).push(
            next(phase_after(events.drop_last()), events.last()).1,
        )
    }
}

/// How many monitors the actions leave running: starts less stops.
pub open spec fn monitors_left(actions: Seq<Action>) -> int
    decreases actions.len(),
{
    if actions.len() == 0 {
        0
    } else {
        let before = monitors_left(actions.drop_last());
        match actions.last() {
            Action::StartMonitor => before + 1,
            Action::StopMonitor | Action::StopMonitorAndExit => before - 1,
            _ => before,
        }
    }
}

/// A monitor runs exactly while the last that was heard is that no AirPods are
/// connected here, and it was heard before shutdown.
pub proof fn monitor_runs_only_while_disconnected(events: Seq<LinkEvent>)
    ensures
        phase_after(events) == Phase::Monitoring <==> {
            &&& events.len() > 0
            &&& events.last() == LinkEvent::Connected(false)
            &&& !events.contains(LinkEvent::Closed)
        },
        phase_after(events) == Phase::Stopped <==> events.contains(LinkEvent::Closed),
    decreases events.len(),
{
    if events.len() > 0 {
        let before = events.drop_last();
        monitor_runs_only_while_disconnected(before);
        assert(events =~= before.push(events.last()));
        assert(events.contains(LinkEvent::Closed) <==> before.contains(LinkEvent::Closed)
            || events.last() == LinkEvent::Closed) by {
            if before.contains(LinkEvent::Closed) {
                let i = choose|i: int| 0 <= i < before.len() && before[i] == LinkEvent::Closed;
                assert(events[i] == LinkEvent::Closed);
            }
            if events.last() == LinkEvent::Closed {
                assert(events[events.len() - 1] == LinkEvent::Closed);
            }
            if events.contains(LinkEvent::Closed) && events.last() != LinkEvent::Closed {
                let i = choose|i: int| 0 <= i < events.len() && events[i] == LinkEvent::Closed;
                assert(before[i] == LinkEvent::Closed);
            }
        }
    }
}

/// Starts and stops of the monitor take turns: one monitor is left running in
/// the monitoring phase and none in any other, so that none outlives shutdown.
pub proof fn at_most_one_monitor_runs(events: Seq<LinkEvent>)
    ensures
        monitors_left(actions_on(events)) == (if phase_after(events) == Phase::Monitoring {
            1int
        } else {
            0
        }),
    decreases events.len(),
{
    if events.len() > 0 {
        let before = events.drop_last();
        at_most_one_monitor_runs(before);
        assert(actions_on(events).drop_last() =~= actions_on(before));
    }
}

} // verus!
