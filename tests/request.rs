use test_stand::cobs::encode;
use test_stand::request::{Error, Request};

#[test]
fn request_send_frames_the_request() {
    let r = Request::SendUsart(vec![0x41, 0x42]);
    let f = r.send(64).unwrap();
    assert_eq!(f, encode(&[0, 2, 0, 0, 0, 0x41, 0x42]));
    assert_eq!(f, vec![1, 2, 2, 1, 1, 3, 0x41, 0x42, 0]);
}

#[test]
fn request_send_buffer_too_small() {
    let r = Request::SendUsart(vec![0x41, 0x42]);
    assert!(matches!(r.send(8), Err(Error::BufferTooSmall)));
    assert!(r.send(9).is_ok());
}

#[test]
fn request_round_trip() {
    for data in [vec![], vec![0], vec![1, 0, 2], vec![7; 300]] {
        let r = Request::SendUsart(data.clone());
        let mut bytes = r.send(1024).unwrap();
        let n = bytes.len();
        bytes.extend_from_slice(&[9, 9]);
        match Request::receive(&bytes, 1024) {
            Some(Ok((got, used))) => {
                assert_eq!(got, r);
                assert_eq!(used, n);
            }
            other => panic!("{:?}", other),
        }
    }
}

#[test]
fn request_receive_needs_more_bytes() {
    assert!(Request::receive(&[1, 2], 8).is_none());
}

#[test]
fn request_receive_buffer_too_small() {
    assert!(matches!(Request::receive(&[1, 2, 3], 3), Some(Err(Error::BufferTooSmall))));
    let frame = Request::SendUsart(vec![1]).send(64).unwrap();
    assert!(matches!(Request::receive(&frame, frame.len() - 1), Some(Err(Error::BufferTooSmall))));
}

#[test]
fn request_receive_bad_frames() {
    assert!(matches!(Request::receive(&[5, 1, 0], 8), Some(Err(Error::Frame(_)))));
    assert!(matches!(Request::receive(&encode(&[1, 0, 0, 0, 0]), 16), Some(Err(Error::Decode))));
    assert!(matches!(Request::receive(&encode(&[0, 3, 0, 0, 0, 1]), 16), Some(Err(Error::Decode))));
}
