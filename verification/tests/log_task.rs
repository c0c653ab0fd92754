use access_controller::log_task::{
    delivery_result, endpoint_url, event_str, log_event, DispatchStep, LogError, LogEvent,
    LogQueue, LogTaskRunner, PostOutcome,
};
use access_controller::main_task::queue_log_message;

const HASH: [u8; 32] = *b"c3fcd3d76192e4007dfb496cca67e13b";

#[test]
fn event_names() {
    assert_eq!(event_str(&LogEvent::ACTIVATED(HASH)), "Activated");
    assert_eq!(event_str(&LogEvent::DEACTIVATED(HASH)), "Deactivated");
    assert_eq!(event_str(&LogEvent::LOGINFAIL(HASH)), "LoginFail");
    assert_eq!(event_str(&LogEvent::ERROR), "ERROR");
}

#[test]
fn bodies_are_exact() {
    assert_eq!(
        log_event(&LogEvent::ACTIVATED(HASH), true).unwrap(),
        "{ \"type\": \"Activated\", \"hash\": \"c3fcd3d76192e4007dfb496cca67e13b\"}"
    );
    assert_eq!(
        log_event(&LogEvent::DEACTIVATED(HASH), true).unwrap(),
        "{ \"type\": \"Deactivated\", \"hash\": \"c3fcd3d76192e4007dfb496cca67e13b\"}"
    );
    assert_eq!(
        log_event(&LogEvent::LOGINFAIL(HASH), true).unwrap(),
        "{ \"type\": \"LoginFail\", \"hash\": \"c3fcd3d76192e4007dfb496cca67e13b\"}"
    );
    assert_eq!(
        log_event(&LogEvent::ERROR, true).unwrap(),
        "{ \"type\": \"ERROR\", \"hash\": \"N/A\"}"
    );
}

#[test]
fn body_of_a_hash_that_is_no_text() {
    let mut hash = HASH;
    hash[5] = 0xff;
    assert_eq!(
        log_event(&LogEvent::LOGINFAIL(hash), true).unwrap(),
        "{ \"type\": \"LoginFail\", \"hash\": \" Non-ascii bytes in hash\"}"
    );
    let mut accented = [b'x'; 32];
    accented[0] = 0xc3;
    accented[1] = 0xa9;
    let body = log_event(&LogEvent::ACTIVATED(accented), true).unwrap();
    assert_eq!(body, format!("{{ \"type\": \"Activated\", \"hash\": \"\u{e9}{}\"}}", "x".repeat(30)));
}

#[test]
fn nothing_is_reported_while_the_network_is_down() {
    assert_eq!(log_event(&LogEvent::ACTIVATED(HASH), false), Err(LogError::WifiNotConnected));
    assert_eq!(log_event(&LogEvent::ERROR, false), Err(LogError::WifiNotConnected));
}

#[test]
fn post_outcomes() {
    assert_eq!(delivery_result(PostOutcome::Response(200)), Ok(()));
    assert_eq!(delivery_result(PostOutcome::Response(201)), Ok(()));
    assert_eq!(delivery_result(PostOutcome::Response(299)), Ok(()));
    assert_eq!(
        delivery_result(PostOutcome::Response(300)),
        Err(LogError::RemoteServerError(300))
    );
    assert_eq!(
        delivery_result(PostOutcome::Response(199)),
        Err(LogError::RemoteServerError(199))
    );
    assert_eq!(
        delivery_result(PostOutcome::Response(500)),
        Err(LogError::RemoteServerError(500))
    );
    assert_eq!(delivery_result(PostOutcome::RequestTimedOut), Err(LogError::Timeout));
    assert_eq!(delivery_result(PostOutcome::SendTimedOut), Err(LogError::Timeout));
    assert_eq!(delivery_result(PostOutcome::ConnectionFailed), Err(LogError::ConnectionError));
}

#[test]
fn queue_is_first_in_first_out() {
    let mut queue = LogQueue::new();
    assert_eq!(queue.len(), 0);
    assert_eq!(queue.take_next(), None);
    assert!(queue_log_message(&mut queue, LogEvent::ACTIVATED(HASH)));
    assert!(queue_log_message(&mut queue, LogEvent::ERROR));
    assert!(queue_log_message(&mut queue, LogEvent::DEACTIVATED(HASH)));
    assert_eq!(queue.len(), 3);
    assert_eq!(queue.take_next(), Some(LogEvent::ACTIVATED(HASH)));
    assert_eq!(queue.take_next(), Some(LogEvent::ERROR));
    assert_eq!(queue.len(), 1);
    assert_eq!(queue.take_next(), Some(LogEvent::DEACTIVATED(HASH)));
    assert_eq!(queue.take_next(), None);
}

#[test]
fn delivered_event_is_dropped() {
    let runner = LogTaskRunner::new();
    let mut queue = LogQueue::new();
    queue_log_message(&mut queue, LogEvent::ACTIVATED(HASH));
    queue_log_message(&mut queue, LogEvent::ERROR);
    let event = queue.take_next().unwrap();
    assert_eq!(runner.run(&mut queue, event, Ok(())), DispatchStep::Delivered);
    assert_eq!(queue.len(), 1);
    assert_eq!(queue.take_next(), Some(LogEvent::ERROR));
}

#[test]
fn failed_event_is_seen_exactly_once_more() {
    let runner = LogTaskRunner::new();
    let mut queue = LogQueue::new();
    queue_log_message(&mut queue, LogEvent::ACTIVATED(HASH));
    queue_log_message(&mut queue, LogEvent::ERROR);

    let event = queue.take_next().unwrap();
    assert_eq!(event, LogEvent::ACTIVATED(HASH));
    let step = runner.run(&mut queue, event, Err(LogError::Timeout));
    assert_eq!(step, DispatchStep::Requeued { wait_ms: 60_000 });
    assert_eq!(queue.len(), 2);

    let next = queue.take_next().unwrap();
    assert_eq!(next, LogEvent::ERROR);
    assert_eq!(runner.run(&mut queue, next, Ok(())), DispatchStep::Delivered);

    let again = queue.take_next().unwrap();
    assert_eq!(again, LogEvent::ACTIVATED(HASH));
    assert_eq!(runner.run(&mut queue, again, Ok(())), DispatchStep::Delivered);
    assert_eq!(queue.take_next(), None);
}

#[test]
fn failed_event_is_lost_when_the_queue_has_filled_up() {
    let runner = LogTaskRunner::new();
    let mut queue = LogQueue::new();
    for i in 0..32u8 {
        assert!(queue_log_message(&mut queue, LogEvent::LOGINFAIL([i; 32])));
    }
    let event = queue.take_next().unwrap();
    assert!(queue_log_message(&mut queue, LogEvent::ERROR));
    let step = runner.run(&mut queue, event, Err(LogError::RemoteServerError(500)));
    assert_eq!(step, DispatchStep::Lost { wait_ms: 60_000 });
    assert_eq!(queue.len(), 32);
    assert_eq!(queue.take_next(), Some(LogEvent::LOGINFAIL([1; 32])));
}

#[test]
fn every_error_requeues() {
    for error in [
        LogError::WifiNotConnected,
        LogError::ConnectionError,
        LogError::Timeout,
        LogError::RemoteServerError(418),
    ] {
        let mut queue = LogQueue::new();
        let step = LogTaskRunner::new().run(&mut queue, LogEvent::ERROR, Err(error));
        assert_eq!(step, DispatchStep::Requeued { wait_ms: 60_000 });
        assert_eq!(queue.take_next(), Some(LogEvent::ERROR));
    }
}

#[test]
fn urls_are_joined_with_slashes() {
    assert_eq!(
        endpoint_url("http://example.org", "door-1", "logEvent").unwrap(),
        "http://example.org/door-1/logEvent"
    );
    assert_eq!(endpoint_url("", "", "").unwrap(), "//");
    let long = "x".repeat(126);
    assert_eq!(endpoint_url(&long, "", "").unwrap().len(), 128);
    assert_eq!(endpoint_url(&long, "y", ""), None);
    assert_eq!(endpoint_url("\u{e9}", &"z".repeat(125), ""), None);
    assert_eq!(endpoint_url("\u{e9}", &"z".repeat(124), "").unwrap().len(), 128);
}

#[test]
fn the_three_service_addresses() {
    let (endpoint, device) = ("http://YOUR_URL_ENDPOINT", "DEVICE_NAME");
    assert_eq!(
        endpoint_url(endpoint, device, "db").unwrap(),
        "http://YOUR_URL_ENDPOINT/DEVICE_NAME/db"
    );
    assert_eq!(
        endpoint_url(endpoint, device, "dbVersion").unwrap(),
        "http://YOUR_URL_ENDPOINT/DEVICE_NAME/dbVersion"
    );
    assert_eq!(
        endpoint_url(endpoint, device, "logEvent").unwrap(),
        "http://YOUR_URL_ENDPOINT/DEVICE_NAME/logEvent"
    );
}
