use autolon::clicker::{ClickerState, Command, Status};
use autolon::ipc::{
    check_shutdown_subscription, check_status_subscription, dispatch, notifies_shutdown,
    response_from_reply, route, shutdown_event_outcome, socket_path, status_event_step, subscription_accepted,
    ready_step, DispatchError, Event, ReadyStep, Request, Response, Route, StatusStep, READY_POLLS,
    READY_POLL_INTERVAL_MS,
};

fn sample_status() -> Status {
    Status {
        state: ClickerState::Running { slot_id: 1, interval_ms: 500, started_at_unix_ms: 9 },
        backend: "uinput".to_string(),
        wayland: true,
        hotkeys: "ok".to_string(),
        config_path: "/c.toml".to_string(),
    }
}

#[test]
fn requests_map_to_commands() {
    assert_eq!(dispatch(&Request::Status), Ok(Command::Status));
    assert_eq!(dispatch(&Request::Cycle), Ok(Command::Cycle));
    assert_eq!(dispatch(&Request::Stop), Ok(Command::Stop));
    assert_eq!(dispatch(&Request::Reload), Ok(Command::Reload));
    assert_eq!(dispatch(&Request::Quit), Ok(Command::Quit));
    assert_eq!(
        dispatch(&Request::SetSlotInterval { slot_id: 2, interval_ms: 30 }),
        Ok(Command::SetSlotInterval { slot_id: 2, interval_ms: 30 })
    );
    assert_eq!(
        dispatch(&Request::SetSlotEnabled { slot_id: 3, enabled: true }),
        Ok(Command::SetSlotEnabled { slot_id: 3, enabled: true })
    );
}

#[test]
fn subscriptions_are_not_dispatched() {
    let e = dispatch(&Request::SubscribeShutdown).unwrap_err();
    assert_eq!(e, DispatchError::ShutdownSubscription);
    assert_eq!(e.message(), "shutdown subscriptions are handled before dispatch");
    let e = dispatch(&Request::SubscribeStatus).unwrap_err();
    assert_eq!(e, DispatchError::StatusSubscription);
    assert_eq!(e.message(), "status subscriptions are handled before dispatch");
}

#[test]
fn routes() {
    assert_eq!(route(&Request::SubscribeShutdown), Route::SubscribeShutdown);
    assert_eq!(route(&Request::SubscribeStatus), Route::SubscribeStatus);
    assert_eq!(route(&Request::Cycle), Route::Dispatch);
}

#[test]
fn responses_from_replies() {
    let ok = response_from_reply(Ok(sample_status()));
    assert!(ok.ok);
    assert_eq!(ok.status.unwrap().backend, "uinput");
    assert!(ok.error.is_none());
    let err = response_from_reply(Err("boom".to_string()));
    assert!(!err.ok);
    assert!(err.status.is_none());
    assert_eq!(err.error.as_deref(), Some("boom"));
    let sub = subscription_accepted();
    assert!(sub.ok && sub.status.is_none() && sub.error.is_none());
}

#[test]
fn quit_success_notifies_shutdown() {
    let ok = Response { ok: true, status: None, error: None };
    let failed = Response { ok: false, status: None, error: None };
    assert!(notifies_shutdown(&Request::Quit, &ok));
    assert!(!notifies_shutdown(&Request::Quit, &failed));
    assert!(!notifies_shutdown(&Request::Stop, &ok));
}

#[test]
fn subscription_checks() {
    let ok = Response { ok: true, status: None, error: None };
    assert_eq!(check_shutdown_subscription(&ok), Ok(()));
    assert_eq!(check_status_subscription(&ok), Ok(()));
    let refused = Response { ok: false, status: None, error: Some("busy".to_string()) };
    assert_eq!(check_shutdown_subscription(&refused), Err("shutdown subscription rejected: busy".to_string()));
    let silent = Response { ok: false, status: None, error: None };
    assert_eq!(check_status_subscription(&silent), Err("status subscription rejected: unknown error".to_string()));
}

#[test]
fn shutdown_events() {
    assert_eq!(shutdown_event_outcome(&Some(Event::Shutdown)), Ok(()));
    assert_eq!(
        shutdown_event_outcome(&None),
        Err("shutdown subscription ended before an event was received".to_string())
    );
    assert_eq!(
        shutdown_event_outcome(&Some(Event::Status { status: sample_status() })),
        Err("received status event while waiting for shutdown".to_string())
    );
}

#[test]
fn status_events() {
    assert!(matches!(status_event_step(Some(Event::Shutdown)), StatusStep::Finished));
    match status_event_step(Some(Event::Status { status: sample_status() })) {
        StatusStep::Deliver(s) => assert_eq!(s.config_path, "/c.toml"),
        other => panic!("unexpected {:?}", other),
    }
    match status_event_step(None) {
        StatusStep::Ended(e) => assert_eq!(e, "status subscription ended"),
        other => panic!("unexpected {:?}", other),
    }
}

#[test]
fn socket_paths() {
    assert_eq!(socket_path(Some("/run/user/1000"), "/tmp", 1000), "/run/user/1000/autolon.sock");
    assert_eq!(socket_path(None, "/tmp", 1000), "/tmp/autolon-1000.sock");
    assert_eq!(socket_path(None, "/tmp/", 0), "/tmp/autolon-0.sock");
}

#[test]
fn daemon_readiness_wait() {
    assert_eq!(ready_step(0, true), ReadyStep::Ready);
    assert_eq!(ready_step(0, false), ReadyStep::Wait { ms: 50 });
    assert_eq!(ready_step(39, false), ReadyStep::Wait { ms: READY_POLL_INTERVAL_MS });
    assert_eq!(ready_step(READY_POLLS, false), ReadyStep::GiveUp);
    assert_eq!(ready_step(40, true), ReadyStep::Ready);
}
