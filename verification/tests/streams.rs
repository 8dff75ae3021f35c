use price_tracker::decimal::IntErrorKind;
use price_tracker::error::{Code, Status};
use price_tracker::streams::{changed_recently, telegram_step, TelegramAction, chat_id, notified_route, notify_step, receive_step, watch_start, watch_step, NotifyAction, NotifyEvent, ReceiveAction, ReceiveEvent, ReceiveState, WatchAction, WatchEvent, WatchState};

#[test]
fn receiver_stores_then_answers() {
    let (s, a) = receive_step(ReceiveState::Waiting, ReceiveEvent::Item(Ok(4)));
    assert_eq!(s, ReceiveState::Storing);
    assert_eq!(a, ReceiveAction::Store { route_id: 4 });
    let (s, a) = receive_step(s, ReceiveEvent::Stored(Ok(())));
    assert_eq!(s, ReceiveState::Waiting);
    assert_eq!(a, ReceiveAction::Answer(Ok(())));
    let (s, a) = receive_step(s, ReceiveEvent::End);
    assert_eq!(s, ReceiveState::Stopped);
    assert_eq!(a, ReceiveAction::Stop);
}

#[test]
fn receiver_stops_on_errors() {
    let err = Status { code: Code::Internal, message: "bad frame".to_string() };
    let (s, a) = receive_step(ReceiveState::Waiting, ReceiveEvent::Item(Err(err.clone())));
    assert_eq!((s, a), (ReceiveState::Stopped, ReceiveAction::Fail(err)));
    let (s, a) = receive_step(ReceiveState::Storing, ReceiveEvent::Stored(Err("no route".to_string())));
    assert_eq!(s, ReceiveState::Stopped);
    assert_eq!(a, ReceiveAction::Fail(Status { code: Code::Internal, message: "no route".to_string() }));
}

#[test]
fn watch_sends_each_found_route_then_waits() {
    let (s, a) = watch_start();
    assert_eq!(a, WatchAction::Look { within_secs: 5 });
    let (s, a) = watch_step(s, WatchEvent::Found { count: 2 });
    assert_eq!(a, WatchAction::Send { index: 0 });
    let (s, a) = watch_step(s, WatchEvent::Sent);
    assert_eq!(a, WatchAction::Send { index: 1 });
    let (s, a) = watch_step(s, WatchEvent::Sent);
    assert_eq!(a, WatchAction::Wait { secs: 5 });
    let (s, a) = watch_step(s, WatchEvent::Waited);
    assert_eq!(a, WatchAction::Look { within_secs: 5 });
    let (s, a) = watch_step(s, WatchEvent::Found { count: 0 });
    assert_eq!(a, WatchAction::Wait { secs: 5 });
    let (s, _) = watch_step(s, WatchEvent::Waited);
    assert_eq!(watch_step(s, WatchEvent::LookFailed), (WatchState::Stopped, WatchAction::Stop));
}

#[test]
fn watch_goes_on_when_the_watcher_leaves() {
    let (s, a) = watch_step(WatchState::Looking, WatchEvent::Found { count: 3 });
    assert_eq!(a, WatchAction::Send { index: 0 });
    assert_eq!(watch_step(s, WatchEvent::Gone), (WatchState::Waiting, WatchAction::Wait { secs: 5 }));
}

#[test]
fn notifications_are_published_by_route() {
    assert_eq!(
        notify_step(NotifyEvent::Received(Ok("MSK-NYC".to_string()))),
        NotifyAction::Publish { topic: "price-alerts".to_string(), key: "MSK-NYC".to_string() }
    );
    assert_eq!(notify_step(NotifyEvent::Published(Ok(()))), NotifyAction::Next);
    assert_eq!(notify_step(NotifyEvent::Published(Err("kafka".to_string()))), NotifyAction::Fail("kafka".to_string()));
    assert_eq!(
        notify_step(NotifyEvent::Received(Err(Status { code: Code::Unknown, message: String::new() }))),
        NotifyAction::Close
    );
    assert_eq!(notify_step(NotifyEvent::End), NotifyAction::Close);
}

#[test]
fn telegram_fields() {
    assert_eq!(chat_id(Some("123456")), Ok(123456));
    assert_eq!(chat_id(Some("-100200")), Ok(-100200));
    assert_eq!(chat_id(None), Ok(0));
    assert_eq!(chat_id(Some("chat")), Err(IntErrorKind::InvalidDigit));
    assert_eq!(notified_route(Some("MSK-NYC")), "MSK-NYC");
    assert_eq!(notified_route(None), "UNKNOWN");
}

#[test]
fn telegram_messages() {
    assert_eq!(telegram_step(Err("down".to_string())), TelegramAction::LogReceiveError("down".to_string()));
    assert_eq!(telegram_step(Ok(None)), TelegramAction::Skip);
    assert_eq!(telegram_step(Ok(Some(Err("utf8".to_string())))), TelegramAction::LogInvalidPayload("utf8".to_string()));
    assert_eq!(
        telegram_step(Ok(Some(Ok(r#"{"user_id":"42","route_id":"MSK-NYC","price":10.5}"#)))),
        TelegramAction::Send { chat_id: 42, route: "MSK-NYC".to_string() }
    );
    assert_eq!(
        telegram_step(Ok(Some(Ok(r#"{"route_id":"MSK-NYC"}"#)))),
        TelegramAction::Send { chat_id: 0, route: "MSK-NYC".to_string() }
    );
    assert_eq!(
        telegram_step(Ok(Some(Ok(r#"{"user_id":42,"price":1}"#)))),
        TelegramAction::Send { chat_id: 0, route: "UNKNOWN".to_string() }
    );
    assert_eq!(
        telegram_step(Ok(Some(Ok(r#"{"user_id":"me"}"#)))),
        TelegramAction::LogBadUserId("me".to_string())
    );
    match telegram_step(Ok(Some(Ok("{not json")))) {
        TelegramAction::Stop(m) => assert!(!m.is_empty()),
        other => panic!("unexpected {:?}", other),
    }
}

#[test]
fn looks_find_recent_routes() {
    assert_eq!(changed_recently(&[100, 96, 95, 101, 94], 100, 5), vec![0, 1, 3]);
    assert_eq!(changed_recently(&[], 100, 5), Vec::<usize>::new());
    let updated = [100, 96, 95, 101, 94];
    for i in changed_recently(&updated, 100, 5) {
        assert!(updated[i] > 95);
    }
    assert_eq!(changed_recently(&[i64::MIN, i64::MAX], i64::MIN, u64::MAX), vec![0, 1]);
}

#[test]
fn price_stream_answered_in_order() {
    let mut state = ReceiveState::Waiting;
    let mut actions = Vec::new();
    for r in [3, 1, 2] {
        for event in [ReceiveEvent::Item(Ok(r)), ReceiveEvent::Stored(Ok(()))] {
            let (s, a) = receive_step(state, event);
            state = s;
            actions.push(a);
        }
    }
    let (s, a) = receive_step(state, ReceiveEvent::End);
    actions.push(a);
    assert_eq!(s, ReceiveState::Stopped);
    assert_eq!(
        actions,
        vec![
            ReceiveAction::Store { route_id: 3 }, ReceiveAction::Answer(Ok(())),
            ReceiveAction::Store { route_id: 1 }, ReceiveAction::Answer(Ok(())),
            ReceiveAction::Store { route_id: 2 }, ReceiveAction::Answer(Ok(())),
            ReceiveAction::Stop,
        ]
    );
}
