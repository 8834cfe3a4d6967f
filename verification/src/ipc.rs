//! The daemon's line protocol: requests, responses and events, and the
//! decisions taken on each side of the socket.

use vstd::prelude::*;
use crate::clicker::{Command, Status};
use crate::desktop::{join_path, joined};
use crate::text::{decimal, push_str, push_decimal, string_from_chars};

verus! {

/// A request sent to the daemon, one JSON object per line.
#[derive(Debug, Clone, Copy, PartialEq, Eq, Structural)]
pub enum Request {
    Status,
    Cycle,
    Stop,
    Reload,
    Quit,
    SubscribeShutdown,
    SubscribeStatus,
    SetSlotInterval { slot_id: u8, interval_ms: u64 },
    SetSlotEnabled { slot_id: u8, enabled: bool },
}

/// The daemon's answer to a request.
#[derive(Debug, Clone)]
pub struct Response {
    pub ok: bool,
    pub status: Option<Status>,
    pub error: Option<String>,
}

/// A message pushed to a subscriber.
#[derive(Debug, Clone)]
pub enum Event {
    Shutdown,
    Status { status: Status },
}

/// Where the daemon listens: `autolon.sock` in the runtime directory when
/// one is set, otherwise `autolon-<euid>.sock` in the temporary directory.
pub open spec fn socket_path_spec(runtime_dir: Option<Seq<char>>, temp_dir: Seq<char>, euid: u32) -> Seq<char> {
    match runtime_dir {
        Some(r) => joined(r, "autolon.sock"@),
        None => joined(temp_dir, "autolon-"@ + decimal(euid as nat) + ".sock"@),
    }
}

/// The daemon's socket path.
pub fn socket_path(runtime_dir: Option<&str>, temp_dir: &str, euid: u32) -> (p: String)
    ensures
        p@ == socket_path_spec(match runtime_dir { Some(r) => Some(r@), None => None }, temp_dir@, euid),
{
    match runtime_dir {
        Some(r) => join_path(r, "autolon.sock"),
        None => {
            let mut v: Vec<char> = Vec::new();
            push_str(&mut v, "autolon-");
            push_decimal(euid as u64, &mut v);
            push_str(&mut v, ".sock");
            let name = string_from_chars(v.as_slice());
            join_path(temp_dir, name.as_str())
        },
    }
}

/// How many times a client polls a daemon it has just started before giving up.
pub const READY_POLLS: u32 = 40;

/// The pause before each of those polls, in milliseconds.
pub const READY_POLL_INTERVAL_MS: u64 = 50;

/// What a client does while waiting for a daemon it started.
#[derive(Debug, Clone, Copy, PartialEq, Eq, Structural)]
pub enum ReadyStep {
    /// The daemon answered: go on.
    Ready,
    /// Wait this many milliseconds, then poll again.
    Wait { ms: u64 },
    /// The daemon did not become ready.
    GiveUp,
}

/// The next step after `polls` polls, the last of which was answered when
/// `answered` (before the first poll, `answered` is whether the daemon was
/// already running): an answer means ready; otherwise wait and poll again
/// until `READY_POLLS` polls have gone unanswered.
pub fn ready_step(polls: u32, answered: bool) -> (r: ReadyStep)
    ensures
        r == (if answered {
            ReadyStep::Ready
        } else if polls < READY_POLLS {
            ReadyStep::Wait { ms: READY_POLL_INTERVAL_MS }
        } else {
            ReadyStep::GiveUp
        }),
{
    if answered {
        ReadyStep::Ready
    } else if polls < READY_POLLS {
        ReadyStep::Wait { ms: READY_POLL_INTERVAL_MS }
    } else {
        ReadyStep::GiveUp
    }
}

/// A request that the command loop does not take.
#[derive(Debug, Clone, Copy, PartialEq, Eq, Structural)]
pub enum DispatchError {
    ShutdownSubscription,
    StatusSubscription,
}

/// The text of a dispatch error.
pub open spec fn dispatch_error_text(e: DispatchError) -> Seq<char> {
    match e {
        DispatchError::ShutdownSubscription => "shutdown subscriptions are handled before dispatch"@,
        DispatchError::StatusSubscription => "status subscriptions are handled before dispatch"@,
    }
}

impl DispatchError {
    pub fn message(&self) -> (s: String)
        ensures
            s@ == dispatch_error_text(*self),
    {
        match self {
            DispatchError::ShutdownSubscription => String::from_str("shutdown subscriptions are handled before dispatch"),
            DispatchError::StatusSubscription => String::from_str("status subscriptions are handled before dispatch"),
        }
    }
}

/// The command that a request asks of the clicker loop.
pub open spec fn command_for(r: Request) -> Result<Command, DispatchError> {
    match r {
        Request::Status => Ok(Command::Status),
        Request::Cycle => Ok(Command::Cycle),
        Request::Stop => Ok(Command::Stop),
        Request::Reload => Ok(Command::Reload),
        Request::Quit => Ok(Command::Quit),
        Request::SubscribeShutdown => Err(DispatchError::ShutdownSubscription),
        Request::SubscribeStatus => Err(DispatchError::StatusSubscription),
        Request::SetSlotInterval { slot_id, interval_ms } => Ok(Command::SetSlotInterval { slot_id, interval_ms }),
        Request::SetSlotEnabled { slot_id, enabled } => Ok(Command::SetSlotEnabled { slot_id, enabled }),
    }
}

/// Maps a request to the command that the clicker loop carries out;
/// subscriptions are served by the connection itself and are refused here.
pub fn dispatch(request: &Request) -> (r: Result<Command, DispatchError>)
    ensures
        r == command_for(*request),
{
    match *request {
        Request::Status => Ok(Command::Status),
        Request::Cycle => Ok(Command::Cycle),
        Request::Stop => Ok(Command::Stop),
        Request::Reload => Ok(Command::Reload),
        Request::Quit => Ok(Command::Quit),
        Request::SubscribeShutdown => Err(DispatchError::ShutdownSubscription),
        Request::SubscribeStatus => Err(DispatchError::StatusSubscription),
        Request::SetSlotInterval { slot_id, interval_ms } => Ok(Command::SetSlotInterval { slot_id, interval_ms }),
        Request::SetSlotEnabled { slot_id, enabled } => Ok(Command::SetSlotEnabled { slot_id, enabled }),
    }
}

/// Two different requests that the loop takes never become the same command.
pub proof fn law_dispatch_is_faithful(a: Request, b: Request)
    ensures
        command_for(a) is Ok && command_for(a) == command_for(b) ==> a == b,
{
}

/// The response that carries the loop's reply: the status on success, the
/// error text on failure.
pub fn response_from_reply(reply: Result<Status, String>) -> (r: Response)
    ensures
        match reply {
            Ok(status) => r.ok && r.status == Some(status) && r.error is None,
            Err(e) => !r.ok && r.status is None && r.error == Some(e),
        },
{
    match reply {
        Ok(status) => Response { ok: true, status: Some(status), error: None },
        Err(error) => Response { ok: false, status: None, error: Some(error) },
    }
}

/// The response that accepts a subscription.
pub fn subscription_accepted() -> (r: Response)
    ensures
        r.ok && r.status is None && r.error is None,
{
    Response { ok: true, status: None, error: None }
}

/// How a connection serves the request on its first line.
#[derive(Debug, Clone, Copy, PartialEq, Eq, Structural)]
pub enum Route {
    /// Keep the connection to send the shutdown event later.
    SubscribeShutdown,
    /// Keep the connection to stream status events.
    SubscribeStatus,
    /// Pass the request to the clicker loop and write back one response.
    Dispatch,
}

/// How a request is served.
pub fn route(request: &Request) -> (r: Route)
    ensures
        r == (match *request {
            Request::SubscribeShutdown => Route::SubscribeShutdown,
            Request::SubscribeStatus => Route::SubscribeStatus,
            _ => Route::Dispatch,
        }),
{
    match request {
        Request::SubscribeShutdown => Route::SubscribeShutdown,
        Request::SubscribeStatus => Route::SubscribeStatus,
        _ => Route::Dispatch,
    }
}

/// Shutdown subscribers are told when a quit request succeeded.
pub fn notifies_shutdown(request: &Request, response: &Response) -> (r: bool)
    ensures
        r == (*request == Request::Quit && response.ok),
{
    match request {
        Request::Quit => response.ok,
        _ => false,
    }
}

/// The text after "rejected: " when a subscription is refused.
pub open spec fn rejection_detail(error: Option<String>) -> Seq<char> {
    match error {
        Some(e) => e@,
        None => "unknown error"@,
    }
}

fn rejection_text(prefix: &str, response: &Response) -> (s: String)
    ensures
        s@ == prefix@ + rejection_detail(response.error),
{
    let mut s = String::from_str(prefix);
    match &response.error {
        Some(e) => s.append(e.as_str()),
        None => s.append("unknown error"),
    }
    s
}

/// Whether the daemon accepted a shutdown subscription.
pub fn check_shutdown_subscription(response: &Response) -> (r: Result<(), String>)
    ensures
        r is Ok <==> response.ok,
        r matches Err(e) ==> e@ == "shutdown subscription rejected: "@ + rejection_detail(response.error),
{
    if !response.ok {
        return Err(rejection_text("shutdown subscription rejected: ", response));
    }
    Ok(())
}

/// Whether the daemon accepted a status subscription.
pub fn check_status_subscription(response: &Response) -> (r: Result<(), String>)
    ensures
        r is Ok <==> response.ok,
        r matches Err(e) ==> e@ == "status subscription rejected: "@ + rejection_detail(response.error),
{
    if !response.ok {
        return Err(rejection_text("status subscription rejected: ", response));
    }
    Ok(())
}

/// What a shutdown subscriber makes of the next line: `None` when the stream
/// ended, otherwise the event it holds. Only a shutdown event succeeds.
pub fn shutdown_event_outcome(event: &Option<Event>) -> (r: Result<(), String>)
    ensures
        r is Ok <==> (*event matches Some(Event::Shutdown)),
        *event is None ==> (r matches Err(e) && e@ == "shutdown subscription ended before an event was received"@),
        (*event matches Some(Event::Status { .. })) ==> (r matches Err(e) && e@ == "received status event while waiting for shutdown"@),
{
    match event {
        None => Err(String::from_str("shutdown subscription ended before an event was received")),
        Some(Event::Shutdown) => Ok(()),
        Some(Event::Status { .. }) => Err(String::from_str("received status event while waiting for shutdown")),
    }
}

/// What a status subscriber does with the next line.
#[derive(Debug, Clone)]
pub enum StatusStep {
    /// Hand this status to the subscriber's callback and read on.
    Deliver(Status),
    /// The daemon is shutting down: stop reading, successfully.
    Finished,
    /// The stream ended without a shutdown event: stop with this error.
    Ended(String),
}

/// The step for the next line of a status subscription (`None` when the
/// stream ended).
pub fn status_event_step(event: Option<Event>) -> (r: StatusStep)
    ensures
        match event {
            None => (r matches StatusStep::Ended(e) && e@ == "status subscription ended"@),
            Some(Event::Shutdown) => r is Finished,
            Some(Event::Status { status }) => r == StatusStep::Deliver(status),
        },
{
    match event {
        None => StatusStep::Ended(String::from_str("status subscription ended")),
        Some(Event::Shutdown) => StatusStep::Finished,
        Some(Event::Status { status }) => StatusStep::Deliver(status),
    }
}

} // verus!
