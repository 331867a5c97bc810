//! Which of several launches of the application is the running one.
//!
//! The first process claims a name on the session bus and serves the
//! application interface there. A later launch sees that the name is taken,
//! asks the owner to raise its window, and exits.
use vstd::prelude::*;

verus! {

/// The bus name that the running application owns.
pub const BUS_NAME: &'static str = "me.kavishdevar.librepods";

/// The object that the running application serves.
pub const OBJ_PATH: &'static str = "/me/kavishdevar/librepods";

/// The interface of that object.
pub const APP_IFACE: &'static str = "org.freedesktop.Application";

#[derive(Clone, Copy, Debug, PartialEq, Eq, Structural)]
pub enum InstanceRole {
    /// We own the name; we are the running application.
    Primary,
    /// Another instance already owns the name; the caller should exit.
    Secondary,
}

/// The bus's answer to a request for the name.
#[derive(Clone, Copy, Debug, PartialEq, Eq, Structural)]
pub enum NameReply {
    PrimaryOwner,
    InQueue,
    Exists,
    AlreadyOwner,
}

/// How far the claim of the name came.
#[derive(Clone, Copy, Debug, PartialEq, Eq, Structural)]
pub enum ClaimEvent {
    /// The thread that talks to the bus could not be started.
    WorkerNotStarted,
    /// The session bus cannot be reached.
    BusUnavailable,
    /// The bus answered the request.
    Answered(NameReply),
    /// The request failed.
    RequestFailed,
    /// The thread that talks to the bus ended without a word.
    WorkerLost,
}

/// What follows from a claim.
#[derive(Clone, Copy, Debug, PartialEq, Eq, Structural)]
pub struct Claim {
    pub role: InstanceRole,
    /// Serve the application interface until the process exits.
    pub serve: bool,
    /// Ask the owner of the name to raise its window.
    pub raise: bool,
}

/// The ways in which the request for the name is made.
#[derive(Clone, Copy, Debug, PartialEq, Eq, Structural)]
pub struct NameRequest {
    pub allow_replacement: bool,
    pub replace_existing: bool,
    pub do_not_queue: bool,
}

/// The methods of the application interface.
#[derive(Clone, Copy, Debug, PartialEq, Eq, Structural)]
pub enum AppMethod {
    Activate,
    Open,
    ActivateAction,
}

/// The name of a method on the bus.
pub open spec fn name_of(method: AppMethod) -> Seq<char> {
    match method {
        AppMethod::Activate => "Activate"@,
        AppMethod::Open => "Open"@,
        AppMethod::ActivateAction => "ActivateAction"@,
    }
}

/// The name of a method on the bus, under which it is served and called.
pub fn method_name(method: AppMethod) -> (name: &'static str)
    ensures
        name@ == name_of(method),
        method == AppMethod::Activate ==> name@ == "Activate"@,
        method == AppMethod::Open ==> name@ == "Open"@,
        method == AppMethod::ActivateAction ==> name@ == "ActivateAction"@,
{
    match method {
        AppMethod::Activate => "Activate",
        AppMethod::Open => "Open",
        AppMethod::ActivateAction => "ActivateAction",
    }
}

/// What the interface tells the user interface.
#[derive(Clone, Copy, Debug, PartialEq, Eq, Structural)]
pub enum UiMessage {
    OpenWindow,
}

/// Whether a reply says that the name is ours.
pub open spec fn name_is_ours(reply: NameReply) -> bool {
    reply == NameReply::PrimaryOwner || reply == NameReply::AlreadyOwner
}

/// Whether the bus said that another process owns the name.
pub open spec fn another_owns_name(event: ClaimEvent) -> bool {
    event matches ClaimEvent::Answered(reply) && !name_is_ours(reply)
}

/// Whether the bus gave us the name.
pub open spec fn name_granted(event: ClaimEvent) -> bool {
    event matches ClaimEvent::Answered(reply) && name_is_ours(reply)
}

/// What follows when the claim of the name came to `event`.
pub open spec fn settled(event: ClaimEvent, raise_existing: bool) -> Claim {
    Claim {
        role: if another_owns_name(event) {
            InstanceRole::Secondary
        } else {
            InstanceRole::Primary
        },
        serve: name_granted(event),
        raise: another_owns_name(event) && raise_existing,
    }
}

/// We are secondary exactly if the bus answers that the name exists or would be
/// queued for, serve exactly if it answers that the name is ours, and raise the
/// other's window exactly if we are secondary and were asked to.
pub proof fn the_answer_decides(event: ClaimEvent, raise_existing: bool)
    ensures
        ({
            let claim = settled(event, raise_existing);
            &&& claim.role == InstanceRole::Secondary <==> event == ClaimEvent::Answered(
                NameReply::Exists,
            ) || event == ClaimEvent::Answered(NameReply::InQueue)
            &&& claim.serve <==> event == ClaimEvent::Answered(NameReply::PrimaryOwner) || event
                == ClaimEvent::Answered(NameReply::AlreadyOwner)
            &&& claim.raise <==> claim.role == InstanceRole::Secondary && raise_existing
        }),
{
}

/// Of two launches that the bus answered, and that it did not both give the
/// name to, at most one stays: the other is secondary and does not serve.
/// Only a secondary asks for the window of the other to be raised.
pub proof fn one_answered_launch_stays(first: NameReply, second: NameReply, raise_existing: bool)
    requires
        !(name_is_ours(first) && name_is_ours(second)),
    ensures
        ({
            let a = settled(ClaimEvent::Answered(first), raise_existing);
            let b = settled(ClaimEvent::Answered(second), raise_existing);
            &&& a.role == InstanceRole::Secondary || b.role == InstanceRole::Secondary
            &&& a.serve <==> a.role == InstanceRole::Primary
            &&& b.serve <==> b.role == InstanceRole::Primary
            &&& a.raise ==> a.role == InstanceRole::Secondary
            &&& b.raise ==> b.role == InstanceRole::Secondary
        }),
{
}

/// Where the bus gave no answer the application starts all the same, without
/// serving and without troubling anyone.
pub proof fn no_bus_is_no_obstacle(event: ClaimEvent, raise_existing: bool)
    requires
        event !is Answered,
    ensures
        settled(event, raise_existing) == (Claim {
            role: InstanceRole::Primary,
            serve: false,
            raise: false,
        }),
{
}

/// How the name is requested: nobody may take it from us, and the answer comes
/// at once instead of from a queue.
pub fn name_request() -> (r: NameRequest)
    ensures
        !r.allow_replacement,
        r.replace_existing,
        r.do_not_queue,
{
    NameRequest { allow_replacement: false, replace_existing: true, do_not_queue: true }
}

/// What to do once the claim of the name came to `event`. We are secondary
/// only where the bus says that another process owns the name: without a bus
/// the application runs unguarded rather than not at all.
pub fn settle_claim(event: ClaimEvent, raise_existing: bool) -> (r: Claim)
    ensures
        r == settled(event, raise_existing),
        r.role == InstanceRole::Secondary <==> event == ClaimEvent::Answered(NameReply::Exists)
            || event == ClaimEvent::Answered(NameReply::InQueue),
        r.serve <==> event == ClaimEvent::Answered(NameReply::PrimaryOwner) || event
            == ClaimEvent::Answered(NameReply::AlreadyOwner),
        r.raise <==> r.role == InstanceRole::Secondary && raise_existing,
{
    match event {
        ClaimEvent::Answered(reply) => match reply {
            NameReply::PrimaryOwner | NameReply::AlreadyOwner => Claim {
                role: InstanceRole::Primary,
                serve: true,
                raise: false,
            },
            NameReply::Exists | NameReply::InQueue => Claim {
                role: InstanceRole::Secondary,
                serve: false,
                raise: raise_existing,
            },
        },
        _ => Claim { role: InstanceRole::Primary, serve: false, raise: false },
    }
}

/// What a call of the application interface means for the user interface:
/// activating and opening raise the window, actions lead nowhere.
pub fn on_method(method: AppMethod) -> (r: Option<UiMessage>)
    ensures
        r == match method {
            AppMethod::Activate | AppMethod::Open => Some(UiMessage::OpenWindow),
            AppMethod::ActivateAction => None,
        },
{
    match method {
        AppMethod::Activate | AppMethod::Open => Some(UiMessage::OpenWindow),
        AppMethod::ActivateAction => None,
    }
}

} // verus!
