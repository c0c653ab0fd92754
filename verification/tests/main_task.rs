use access_controller::config::LatchMode;
use access_controller::database_task::{DatabaseTaskCommand, DatabaseTaskResponse};
use access_controller::identity::digest_uid;
use access_controller::log_task::{LogEvent, LogQueue};
use access_controller::main_task::{
    card_query, main_task, queue_log_message, Action, CardReaderEvent, LatchState,
};
use access_controller::uart_protocol::MainMessage;

const A: [u8; 32] = [b'a'; 32];
const B: [u8; 32] = [b'b'; 32];

/// Carries the actions out against a relay and a clock; returns the level
/// of the relay at the end and the moments, in milliseconds, at which it
/// changed.
fn relay_trace(actions: &[Action], mut level: bool) -> (bool, Vec<(u64, bool)>) {
    let mut now = 0u64;
    let mut trace = Vec::new();
    for action in actions {
        match action {
            Action::Relay(on) => {
                level = *on;
                trace.push((now, level));
            }
            Action::Wait(ms) => now += ms,
            _ => {}
        }
    }
    (level, trace)
}

#[test]
fn latching_valid_card_signs_in() {
    let mut state = LatchState::Disabled;
    let actions = main_task(&mut state, LatchMode::Latching, A, DatabaseTaskResponse::Found);
    assert_eq!(state, LatchState::Enabled(A));
    assert_eq!(
        actions,
        vec![
            Action::Relay(true),
            Action::AllowedLed(true),
            Action::Log(LogEvent::ACTIVATED(A)),
            Action::Notify(MainMessage::AccessGranted),
            Action::DiscardPendingRead,
        ]
    );
    assert_eq!(relay_trace(&actions, false), (true, vec![(0, true)]));
}

#[test]
fn latching_any_card_signs_out_and_logs_who_signed_in() {
    for response in [
        DatabaseTaskResponse::Found,
        DatabaseTaskResponse::NotFound,
        DatabaseTaskResponse::Error,
        DatabaseTaskResponse::Invalid,
        DatabaseTaskResponse::UpdateOk,
    ] {
        let mut state = LatchState::Disabled;
        main_task(&mut state, LatchMode::Latching, A, DatabaseTaskResponse::Found);
        let actions = main_task(&mut state, LatchMode::Latching, B, response);
        assert_eq!(state, LatchState::Disabled);
        assert_eq!(
            actions,
            vec![
                Action::Relay(false),
                Action::AllowedLed(false),
                Action::Log(LogEvent::DEACTIVATED(A)),
                Action::Notify(MainMessage::AwaitingCard),
                Action::DiscardPendingRead,
            ]
        );
        assert_eq!(relay_trace(&actions, true), (false, vec![(0, false)]));
    }
}

#[test]
fn latching_invalid_card_is_denied() {
    for response in [
        DatabaseTaskResponse::NotFound,
        DatabaseTaskResponse::Error,
        DatabaseTaskResponse::Invalid,
        DatabaseTaskResponse::UpdateOk,
    ] {
        let mut state = LatchState::Disabled;
        let actions = main_task(&mut state, LatchMode::Latching, B, response);
        assert_eq!(state, LatchState::Disabled);
        assert_eq!(
            actions,
            vec![
                Action::DeniedLed(true),
                Action::Notify(MainMessage::AccessDenied),
                Action::Wait(2000),
                Action::DeniedLed(false),
                Action::Log(LogEvent::LOGINFAIL(B)),
                Action::Notify(MainMessage::AwaitingCard),
                Action::DiscardPendingRead,
            ]
        );
        assert_eq!(relay_trace(&actions, false), (false, vec![]));
    }
}

#[test]
fn timed_valid_card_switches_on_for_five_seconds() {
    for before in [LatchState::Disabled, LatchState::Enabled(B)] {
        let mut state = before;
        let actions =
            main_task(&mut state, LatchMode::Timed(5000), A, DatabaseTaskResponse::Found);
        assert_eq!(state, before);
        assert_eq!(
            actions,
            vec![
                Action::Relay(true),
                Action::AllowedLed(true),
                Action::Notify(MainMessage::AccessGranted),
                Action::Wait(5000),
                Action::Relay(false),
                Action::AllowedLed(false),
                Action::Notify(MainMessage::AwaitingCard),
                Action::Log(LogEvent::ACTIVATED(A)),
                Action::DiscardPendingRead,
            ]
        );
        assert_eq!(relay_trace(&actions, false), (false, vec![(0, true), (5000, false)]));
    }
}

#[test]
fn timed_invalid_card_is_denied() {
    let mut state = LatchState::Disabled;
    let actions = main_task(&mut state, LatchMode::Timed(5000), B, DatabaseTaskResponse::NotFound);
    assert_eq!(state, LatchState::Disabled);
    assert_eq!(
        actions,
        vec![
            Action::DeniedLed(true),
            Action::Notify(MainMessage::AccessDenied),
            Action::Wait(2000),
            Action::DeniedLed(false),
            Action::Notify(MainMessage::AwaitingCard),
            Action::Log(LogEvent::LOGINFAIL(B)),
            Action::DiscardPendingRead,
        ]
    );
}

#[test]
fn every_decision_ends_by_dropping_a_pending_read() {
    for mode in [LatchMode::Latching, LatchMode::Timed(0), LatchMode::Timed(u64::MAX)] {
        for before in [LatchState::Disabled, LatchState::Enabled(A)] {
            for response in [DatabaseTaskResponse::Found, DatabaseTaskResponse::NotFound] {
                let mut state = before;
                let actions = main_task(&mut state, mode, B, response);
                assert_eq!(actions.last(), Some(&Action::DiscardPendingRead));
                let logs = actions.iter().filter(|a| matches!(a, Action::Log(_))).count();
                assert_eq!(logs, 1);
            }
        }
    }
}

#[test]
fn query_spells_the_digest_in_hex() {
    let digest = digest_uid(&[1, 2, 3, 4]);
    let expected = format!("{:032x}", md5::compute([1u8, 2, 3, 4]));
    match card_query(&CardReaderEvent::CardMD5(digest)) {
        DatabaseTaskCommand::CheckMD5Hash(hash) => assert_eq!(&hash[..], expected.as_bytes()),
        other => panic!("unexpected command {:?}", other),
    }
    let zero = card_query(&CardReaderEvent::CardMD5([0; 16]));
    assert_eq!(zero, DatabaseTaskCommand::CheckMD5Hash([b'0'; 32]));
}

#[test]
fn log_messages_are_queued_until_the_queue_is_full() {
    let mut queue = LogQueue::new();
    for i in 0..32u8 {
        assert!(queue_log_message(&mut queue, LogEvent::ACTIVATED([i; 32])));
        assert_eq!(queue.len(), i as usize + 1);
    }
    assert!(!queue_log_message(&mut queue, LogEvent::ERROR));
    assert_eq!(queue.len(), 32);
    assert_eq!(queue.take_next(), Some(LogEvent::ACTIVATED([0; 32])));
    assert!(queue_log_message(&mut queue, LogEvent::ERROR));
    for i in 1..32u8 {
        assert_eq!(queue.take_next(), Some(LogEvent::ACTIVATED([i; 32])));
    }
    assert_eq!(queue.take_next(), Some(LogEvent::ERROR));
    assert_eq!(queue.take_next(), None);
}
