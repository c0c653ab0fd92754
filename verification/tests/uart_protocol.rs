use access_controller::cobs::{stuff_bytes, unstuff_bytes};
use access_controller::uart_protocol::{MainMessage, RemoteMessage};

fn all_remote() -> Vec<RemoteMessage> {
    vec![
        RemoteMessage::SingleUid([1, 2, 3, 4]),
        RemoteMessage::SingleUid([0, 0, 0, 0]),
        RemoteMessage::DoubleUid([0, 1, 0, 2, 0, 3, 0]),
        RemoteMessage::TripleUid([9, 8, 7, 6, 5, 4, 3, 2, 1, 0]),
        RemoteMessage::TripleUid([0xff; 10]),
        RemoteMessage::ReadError,
        RemoteMessage::ReaderFault,
        RemoteMessage::JustReset,
        RemoteMessage::KeepAlive,
    ]
}

#[test]
fn stuffing_known_vectors() {
    assert_eq!(stuff_bytes(&[]), vec![1]);
    assert_eq!(stuff_bytes(&[0]), vec![1, 1]);
    assert_eq!(stuff_bytes(&[0, 0]), vec![1, 1, 1]);
    assert_eq!(stuff_bytes(&[0x11, 0x22, 0x00, 0x33]), vec![3, 0x11, 0x22, 2, 0x33]);
    assert_eq!(stuff_bytes(&[0x11, 0x00]), vec![2, 0x11, 1]);
}

#[test]
fn stuffing_long_runs() {
    let data: Vec<u8> = (1..=254u32).map(|b| b as u8).collect();
    let mut expected = vec![0xff];
    expected.extend_from_slice(&data);
    expected.push(1);
    assert_eq!(stuff_bytes(&data), expected);
    assert_eq!(unstuff_bytes(&expected), Some(data.clone()));

    let mut longer = data.clone();
    longer.push(0);
    longer.push(7);
    let stuffed = stuff_bytes(&longer);
    assert!(stuffed.iter().all(|b| *b != 0));
    assert_eq!(unstuff_bytes(&stuffed), Some(longer));
}

#[test]
fn unstuffing_rejects_malformed() {
    assert_eq!(unstuff_bytes(&[]), None);
    assert_eq!(unstuff_bytes(&[0]), None);
    assert_eq!(unstuff_bytes(&[3, 5]), None);
    assert_eq!(unstuff_bytes(&[2, 5, 4, 1]), None);
    assert_eq!(unstuff_bytes(&[1]), Some(vec![]));
    assert_eq!(unstuff_bytes(&[2, 5, 0, 9, 9]), Some(vec![5]));
}

#[test]
fn stuffing_round_trips() {
    for len in 0..40usize {
        let data: Vec<u8> = (0..len).map(|i| ((i * 7) % 5) as u8).collect();
        let stuffed = stuff_bytes(&data);
        assert!(stuffed.iter().all(|b| *b != 0));
        assert_eq!(unstuff_bytes(&stuffed), Some(data));
    }
}

#[test]
fn remote_frames_match_postcard() {
    let frame: heapless::Vec<u8, 16> = postcard::to_vec_cobs(&(0u8, [1u8, 2, 3, 4])).unwrap();
    assert_eq!(RemoteMessage::SingleUid([1, 2, 3, 4]).to_frame(), frame.to_vec());
    let frame: heapless::Vec<u8, 16> =
        postcard::to_vec_cobs(&(1u8, [0u8, 1, 0, 2, 0, 3, 0])).unwrap();
    assert_eq!(RemoteMessage::DoubleUid([0, 1, 0, 2, 0, 3, 0]).to_frame(), frame.to_vec());
    let frame: heapless::Vec<u8, 16> =
        postcard::to_vec_cobs(&(2u8, [9u8, 8, 7, 6, 5, 4, 3, 2, 1, 0])).unwrap();
    assert_eq!(
        RemoteMessage::TripleUid([9, 8, 7, 6, 5, 4, 3, 2, 1, 0]).to_frame(),
        frame.to_vec()
    );
    let frame: heapless::Vec<u8, 16> = postcard::to_vec_cobs(&5u8).unwrap();
    assert_eq!(RemoteMessage::JustReset.to_frame(), frame.to_vec());
}

#[test]
fn remote_frames_exact_bytes() {
    assert_eq!(RemoteMessage::SingleUid([1, 2, 3, 4]).to_frame(), vec![1, 5, 1, 2, 3, 4, 0]);
    assert_eq!(RemoteMessage::ReadError.to_frame(), vec![2, 3, 0]);
    assert_eq!(RemoteMessage::ReaderFault.to_frame(), vec![2, 4, 0]);
    assert_eq!(RemoteMessage::JustReset.to_frame(), vec![2, 5, 0]);
    assert_eq!(RemoteMessage::KeepAlive.to_frame(), vec![2, 6, 0]);
    assert_eq!(MainMessage::AccessGranted.to_frame(), vec![1, 1, 0]);
    assert_eq!(MainMessage::AccessDenied.to_frame(), vec![2, 1, 0]);
    assert_eq!(MainMessage::AwaitingCard.to_frame(), vec![2, 2, 0]);
}

#[test]
fn remote_round_trip() {
    for message in all_remote() {
        let frame = message.to_frame();
        assert!(frame.len() <= 16);
        assert_eq!(frame.last(), Some(&0));
        assert!(frame[..frame.len() - 1].iter().all(|b| *b != 0));
        assert_eq!(RemoteMessage::from_stuffed(&frame), Some(message));
        assert_eq!(RemoteMessage::from_stuffed(&frame[..frame.len() - 1]), Some(message));
        assert_eq!(RemoteMessage::from_body(&message.to_body()), Some(message));
    }
}

#[test]
fn main_round_trip() {
    for message in
        [MainMessage::AccessGranted, MainMessage::AccessDenied, MainMessage::AwaitingCard]
    {
        let frame = message.to_frame();
        assert_eq!(frame.len(), 3);
        assert_eq!(frame.last(), Some(&0));
        assert_eq!(MainMessage::from_stuffed(&frame), Some(message));
        assert_eq!(MainMessage::from_body(&message.to_body()), Some(message));
    }
}

#[test]
fn bodies_with_wide_tags_and_trailing_bytes() {
    assert_eq!(RemoteMessage::from_body(&[0x83, 0x00]), Some(RemoteMessage::ReadError));
    assert_eq!(RemoteMessage::from_body(&[0x86, 0x80, 0x80, 0x80, 0x00]), Some(RemoteMessage::KeepAlive));
    assert_eq!(RemoteMessage::from_body(&[0x86, 0x80, 0x80, 0x80, 0x10]), None);
    assert_eq!(RemoteMessage::from_body(&[0x86, 0x80, 0x80, 0x80, 0x80, 0x00]), None);
    assert_eq!(RemoteMessage::from_body(&[0x86]), None);
    assert_eq!(RemoteMessage::from_body(&[4, 0xaa, 0xbb]), Some(RemoteMessage::ReaderFault));
    assert_eq!(
        RemoteMessage::from_body(&[0, 1, 2, 3, 4, 5]),
        Some(RemoteMessage::SingleUid([1, 2, 3, 4]))
    );
    assert_eq!(RemoteMessage::from_body(&[0, 1, 2, 3]), None);
    assert_eq!(RemoteMessage::from_body(&[1, 1, 2, 3, 4, 5, 6]), None);
    assert_eq!(RemoteMessage::from_body(&[2, 1, 2, 3, 4, 5, 6, 7, 8, 9]), None);
    assert_eq!(RemoteMessage::from_body(&[7]), None);
    assert_eq!(RemoteMessage::from_body(&[]), None);
    assert_eq!(MainMessage::from_body(&[3]), None);
    assert_eq!(MainMessage::from_body(&[2, 9]), Some(MainMessage::AwaitingCard));
}

#[test]
fn postcard_reads_our_frames() {
    for message in all_remote() {
        let mut frame = message.to_frame();
        let n = frame.len() - 1;
        let body = message.to_body();
        match message {
            RemoteMessage::SingleUid(uid) => {
                let got: (u8, [u8; 4]) = postcard::from_bytes_cobs(&mut frame[..n]).unwrap();
                assert_eq!(got, (0, uid));
            }
            RemoteMessage::DoubleUid(uid) => {
                let got: (u8, [u8; 7]) = postcard::from_bytes_cobs(&mut frame[..n]).unwrap();
                assert_eq!(got, (1, uid));
            }
            RemoteMessage::TripleUid(uid) => {
                let got: (u8, [u8; 10]) = postcard::from_bytes_cobs(&mut frame[..n]).unwrap();
                assert_eq!(got, (2, uid));
            }
            _ => {
                let got: u8 = postcard::from_bytes_cobs(&mut frame[..n]).unwrap();
                assert_eq!(vec![got], body);
            }
        }
    }
}

fn stuffed_like_postcard<T: serde::Serialize + AsRef<[u8]>>(data: T) {
    let theirs: heapless::Vec<u8, 64> = postcard::to_vec_cobs(&data).unwrap();
    let mut ours = stuff_bytes(data.as_ref());
    ours.push(0);
    assert_eq!(ours, theirs.to_vec());
}

#[test]
fn stuffing_agrees_with_postcard() {
    stuffed_like_postcard([0u8; 0]);
    stuffed_like_postcard([0u8]);
    stuffed_like_postcard([7u8]);
    stuffed_like_postcard([0u8, 0]);
    stuffed_like_postcard([1u8, 0, 2]);
    stuffed_like_postcard([0u8, 1, 0, 2, 0]);
    stuffed_like_postcard([9u8, 8, 7, 6, 5, 4, 3, 2, 1, 0, 1]);
    stuffed_like_postcard([0xffu8; 12]);
    stuffed_like_postcard([0u8; 12]);
    stuffed_like_postcard([3u8; 32]);
}

#[test]
fn unstuffing_agrees_with_postcard() {
    let alphabet = [1u8, 2, 3, 4, 5, 0x41, 0xff];
    let mut inputs: Vec<Vec<u8>> = vec![vec![]];
    for len in 1..=4 {
        let mut next = Vec::new();
        for prefix in inputs.iter().filter(|p| p.len() == len - 1) {
            for b in alphabet {
                let mut longer = prefix.clone();
                longer.push(b);
                next.push(longer);
            }
        }
        inputs.extend(next);
    }
    assert_eq!(inputs.len(), 1 + 7 + 49 + 343 + 2401);
    for input in inputs {
        let mut copy = input.clone();
        let theirs: Result<u8, postcard::Error> = postcard::from_bytes_cobs(&mut copy);
        match unstuff_bytes(&input) {
            Some(body) if !body.is_empty() => assert_eq!(theirs, Ok(body[0]), "{:?}", input),
            _ => assert!(theirs.is_err(), "{:?}", input),
        }
    }
}

#[test]
fn tags_agree_with_postcard() {
    for first in 0..=255u8 {
        for rest in [[0u8, 0, 0, 0], [0x80, 0, 0, 0], [0x80, 0x80, 0x80, 0], [0x80, 0x80, 0x80, 0x10], [1, 0, 0, 0], [0x80, 0x80, 0x80, 0x80]] {
            let body = [first, rest[0], rest[1], rest[2], rest[3]];
            let theirs: Result<u32, postcard::Error> = postcard::from_bytes(&body);
            let expected = match theirs {
                Ok(3) => Some(RemoteMessage::ReadError),
                Ok(4) => Some(RemoteMessage::ReaderFault),
                Ok(5) => Some(RemoteMessage::JustReset),
                Ok(6) => Some(RemoteMessage::KeepAlive),
                Ok(0) | Ok(1) | Ok(2) => continue,
                _ => None,
            };
            assert_eq!(RemoteMessage::from_body(&body), expected, "{:?}", body);
            let expected = match theirs {
                Ok(0) => Some(MainMessage::AccessGranted),
                Ok(1) => Some(MainMessage::AccessDenied),
                Ok(2) => Some(MainMessage::AwaitingCard),
                _ => None,
            };
            assert_eq!(MainMessage::from_body(&body), expected, "{:?}", body);
        }
    }
}
