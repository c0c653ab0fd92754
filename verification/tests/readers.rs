use access_controller::event_router::CardReaderSignal;
use access_controller::identity::digest_uid;
use access_controller::local_cardreader_task::{
    local_cardreader_task, CardUid, LocalCardreaderTaskRunner, ReaderPlan, ReaderPoll,
};
use access_controller::main_task::CardReaderEvent;
use access_controller::remote_cardreader_task::{
    read_message, remote_cardreader_task, FrameReader, LinkInput, RemoteError,
};
use access_controller::remote_unit::{led_task, RemoteAction, RemoteUnit, StatusLeds};
use access_controller::uart_protocol::{MainMessage, RemoteMessage};

fn feed(reader: &mut FrameReader, bytes: &[u8]) -> Vec<Result<RemoteMessage, RemoteError>> {
    let mut out = Vec::new();
    for b in bytes {
        if let Some(result) = read_message(reader, LinkInput::Byte(*b)) {
            out.push(result);
        }
    }
    out
}

#[test]
fn frames_are_read_back_byte_by_byte() {
    let messages = [
        RemoteMessage::SingleUid([1, 0, 3, 0]),
        RemoteMessage::DoubleUid([7; 7]),
        RemoteMessage::TripleUid([0; 10]),
        RemoteMessage::TripleUid([0xff; 10]),
        RemoteMessage::ReadError,
        RemoteMessage::ReaderFault,
        RemoteMessage::JustReset,
        RemoteMessage::KeepAlive,
    ];
    let mut reader = FrameReader::new();
    for message in messages {
        let frame = message.to_frame();
        for b in &frame[..frame.len() - 1] {
            assert_eq!(read_message(&mut reader, LinkInput::Byte(*b)), None);
        }
        assert_eq!(reader.pending_len(), frame.len() - 1);
        assert_eq!(read_message(&mut reader, LinkInput::Byte(0)), Some(Ok(message)));
        assert_eq!(reader.pending_len(), 0);
    }
}

#[test]
fn back_to_back_frames() {
    let mut stream = RemoteMessage::JustReset.to_frame();
    stream.extend(RemoteMessage::SingleUid([9, 9, 9, 9]).to_frame());
    stream.extend(RemoteMessage::KeepAlive.to_frame());
    let mut reader = FrameReader::new();
    assert_eq!(
        feed(&mut reader, &stream),
        vec![
            Ok(RemoteMessage::JustReset),
            Ok(RemoteMessage::SingleUid([9, 9, 9, 9])),
            Ok(RemoteMessage::KeepAlive),
        ]
    );
}

#[test]
fn sixteenth_byte_without_delimiter_overflows() {
    let mut reader = FrameReader::new();
    for _ in 0..15 {
        assert_eq!(read_message(&mut reader, LinkInput::Byte(0x41)), None);
    }
    assert_eq!(reader.pending_len(), 15);
    assert_eq!(
        read_message(&mut reader, LinkInput::Byte(0x41)),
        Some(Err(RemoteError::RxBufferOverflow))
    );
    assert_eq!(reader.pending_len(), 0);
    let frame = RemoteMessage::KeepAlive.to_frame();
    assert_eq!(feed(&mut reader, &frame), vec![Ok(RemoteMessage::KeepAlive)]);
}

#[test]
fn fifteen_bytes_and_a_delimiter_fit() {
    let mut reader = FrameReader::new();
    let mut frame = vec![15u8];
    frame.extend_from_slice(&[3, 1, 1, 1, 1, 1, 1, 1, 1, 1, 1, 1, 1, 1]);
    frame.push(0);
    assert_eq!(frame.len(), 16);
    assert_eq!(feed(&mut reader, &frame), vec![Ok(RemoteMessage::ReadError)]);
}

#[test]
fn transport_fault_discards_the_frame() {
    let mut reader = FrameReader::new();
    assert_eq!(read_message(&mut reader, LinkInput::Byte(2)), None);
    assert_eq!(read_message(&mut reader, LinkInput::Fault), Some(Err(RemoteError::UartError)));
    assert_eq!(reader.pending_len(), 0);
    assert_eq!(read_message(&mut reader, LinkInput::Fault), Some(Err(RemoteError::UartError)));
}

#[test]
fn corrupt_frames_do_not_decode() {
    let mut reader = FrameReader::new();
    assert_eq!(feed(&mut reader, &[0]), vec![Err(RemoteError::PostcardError)]);
    assert_eq!(feed(&mut reader, &[5, 1, 0]), vec![Err(RemoteError::PostcardError)]);
    assert_eq!(feed(&mut reader, &[2, 9, 0]), vec![Err(RemoteError::PostcardError)]);
    assert_eq!(feed(&mut reader, &[4, 1, 2, 3, 0]), vec![Err(RemoteError::PostcardError)]);
    assert_eq!(feed(&mut reader, &[2, 6, 0]), vec![Ok(RemoteMessage::KeepAlive)]);
}

#[test]
fn main_messages_are_read_on_the_remote_unit() {
    let mut reader = FrameReader::new();
    for message in
        [MainMessage::AccessGranted, MainMessage::AccessDenied, MainMessage::AwaitingCard]
    {
        let frame = message.to_frame();
        let mut got = Vec::new();
        for b in &frame {
            if let Some(r) =
                access_controller::remote_unit::read_message(&mut reader, LinkInput::Byte(*b))
            {
                got.push(r);
            }
        }
        assert_eq!(got, vec![Ok(message)]);
    }
    assert_eq!(
        access_controller::remote_unit::read_message(&mut reader, LinkInput::Fault),
        Some(Err(RemoteError::UartError))
    );
    let mut got = None;
    for b in [2u8, 3, 0] {
        got = access_controller::remote_unit::read_message(&mut reader, LinkInput::Byte(b));
    }
    assert_eq!(got, Some(Err(RemoteError::PostcardError)));
}

#[test]
fn uid_messages_become_card_reads() {
    assert_eq!(
        remote_cardreader_task(&Ok(RemoteMessage::SingleUid([1, 2, 3, 4]))),
        Some(CardReaderEvent::CardMD5(md5::compute([1u8, 2, 3, 4]).0))
    );
    assert_eq!(
        remote_cardreader_task(&Ok(RemoteMessage::DoubleUid([1, 2, 3, 4, 5, 6, 7]))),
        Some(CardReaderEvent::CardMD5(md5::compute([1u8, 2, 3, 4, 5, 6, 7]).0))
    );
    assert_eq!(
        remote_cardreader_task(&Ok(RemoteMessage::TripleUid([0; 10]))),
        Some(CardReaderEvent::CardMD5(md5::compute([0u8; 10]).0))
    );
}

#[test]
fn other_messages_and_errors_are_only_logged() {
    for message in [
        RemoteMessage::ReadError,
        RemoteMessage::ReaderFault,
        RemoteMessage::JustReset,
        RemoteMessage::KeepAlive,
    ] {
        assert_eq!(remote_cardreader_task(&Ok(message)), None);
    }
    for error in
        [RemoteError::RxBufferOverflow, RemoteError::UartError, RemoteError::PostcardError]
    {
        assert_eq!(remote_cardreader_task(&Err(error)), None);
    }
}

#[test]
fn local_reader_publishes_selected_cards() {
    let uid = CardUid::Double([4, 5, 6, 7, 8, 9, 10]);
    assert_eq!(uid.digest(), digest_uid(&[4, 5, 6, 7, 8, 9, 10]));
    assert_eq!(
        local_cardreader_task(&ReaderPoll::Card(uid)),
        ReaderPlan {
            publish: Some(CardReaderEvent::CardMD5(md5::compute([4u8, 5, 6, 7, 8, 9, 10]).0)),
            wait_ms: 100,
            reset_pulse_ms: None,
        }
    );
    assert_eq!(
        local_cardreader_task(&ReaderPoll::Card(CardUid::Single([1, 2, 3, 4]))).publish,
        Some(CardReaderEvent::CardMD5(md5::compute([1u8, 2, 3, 4]).0))
    );
    assert_eq!(
        local_cardreader_task(&ReaderPoll::Card(CardUid::Triple([3; 10]))).publish,
        Some(CardReaderEvent::CardMD5(md5::compute([3u8; 10]).0))
    );
}

#[test]
fn local_reader_retries_quietly() {
    let quiet = ReaderPlan { publish: None, wait_ms: 100, reset_pulse_ms: None };
    assert_eq!(local_cardreader_task(&ReaderPoll::NoCard), quiet);
    assert_eq!(local_cardreader_task(&ReaderPoll::SelectFailed), quiet);
    assert_eq!(
        local_cardreader_task(&ReaderPoll::InitFailed),
        ReaderPlan { publish: None, wait_ms: 10_000, reset_pulse_ms: Some(250) }
    );
    let mut runner = LocalCardreaderTaskRunner::new();
    assert_eq!(runner.run(&ReaderPoll::NoCard), quiet);
    assert_eq!(
        runner.run(&ReaderPoll::InitFailed),
        ReaderPlan { publish: None, wait_ms: 10_000, reset_pulse_ms: Some(250) }
    );
}

#[test]
fn remote_unit_reports_cards() {
    let mut unit = RemoteUnit::new();
    assert_eq!(RemoteUnit::startup_message(), RemoteMessage::JustReset);
    let after_card = |m: RemoteMessage| {
        vec![
            RemoteAction::Send(m),
            RemoteAction::CardLed(true),
            RemoteAction::Wait(100),
            RemoteAction::CardLed(false),
            RemoteAction::Wait(100),
            RemoteAction::Wait(2000),
        ]
    };
    assert_eq!(
        unit.step(&ReaderPoll::Card(CardUid::Single([1, 2, 3, 4]))),
        after_card(RemoteMessage::SingleUid([1, 2, 3, 4]))
    );
    assert_eq!(
        unit.step(&ReaderPoll::Card(CardUid::Double([7; 7]))),
        after_card(RemoteMessage::DoubleUid([7; 7]))
    );
    assert_eq!(
        unit.step(&ReaderPoll::Card(CardUid::Triple([8; 10]))),
        after_card(RemoteMessage::TripleUid([8; 10]))
    );
    assert_eq!(unit.step(&ReaderPoll::SelectFailed), after_card(RemoteMessage::ReadError));
    assert_eq!(
        unit.step(&ReaderPoll::InitFailed),
        vec![
            RemoteAction::Send(RemoteMessage::ReaderFault),
            RemoteAction::Wait(500),
            RemoteAction::Reinitialise(250),
        ]
    );
}

#[test]
fn remote_unit_sends_keepalive_every_tenth_idle_poll() {
    let mut unit = RemoteUnit::new();
    for round in 0..3 {
        for _ in 0..9 {
            assert_eq!(unit.step(&ReaderPoll::NoCard), vec![RemoteAction::Wait(100)]);
        }
        if round == 1 {
            unit.step(&ReaderPoll::Card(CardUid::Single([1; 4])));
        }
        assert_eq!(
            unit.step(&ReaderPoll::NoCard),
            vec![RemoteAction::Wait(100), RemoteAction::Send(RemoteMessage::KeepAlive)]
        );
    }
}

#[test]
fn status_leds_follow_the_main_unit() {
    assert_eq!(
        led_task(&Ok(MainMessage::AccessGranted)),
        StatusLeds { green: Some(true), red: None }
    );
    assert_eq!(
        led_task(&Ok(MainMessage::AccessDenied)),
        StatusLeds { green: None, red: Some(true) }
    );
    assert_eq!(
        led_task(&Ok(MainMessage::AwaitingCard)),
        StatusLeds { green: Some(false), red: Some(false) }
    );
    assert_eq!(led_task(&Err(RemoteError::UartError)), StatusLeds { green: None, red: None });
}

#[test]
fn slot_keeps_only_the_latest_read() {
    let first = CardReaderEvent::CardMD5([1; 16]);
    let second = CardReaderEvent::CardMD5([2; 16]);
    let mut slot = CardReaderSignal::new();
    assert_eq!(slot.take(), None);
    slot.publish(first);
    assert_eq!(slot.take(), Some(first));
    assert_eq!(slot.take(), None);
    slot.publish(first);
    slot.publish(second);
    assert_eq!(slot.take(), Some(second));
    assert_eq!(slot.take(), None);
}

#[test]
fn discarded_read_is_never_seen() {
    let mut slot = CardReaderSignal::new();
    slot.discard();
    assert_eq!(slot.take(), None);
    slot.publish(CardReaderEvent::CardMD5([3; 16]));
    slot.discard();
    assert_eq!(slot.take(), None);
    slot.publish(CardReaderEvent::CardMD5([4; 16]));
    assert_eq!(slot.take(), Some(CardReaderEvent::CardMD5([4; 16])));
}
