use test_stand::cobs::{decode, encode, encode_to_buffer, find_terminator, FrameError};
use test_stand::message::{DmaMode, HostToTarget, Level, TargetToHost, UsartMode};

#[test]
fn encode_empty_payload() {
    assert_eq!(encode(&[]), vec![1, 0]);
}

#[test]
fn encode_single_zero() {
    assert_eq!(encode(&[0]), vec![1, 1, 0]);
}

#[test]
fn encode_zero_in_middle() {
    assert_eq!(encode(&[0x11, 0x22, 0x00, 0x33]), vec![3, 0x11, 0x22, 2, 0x33, 0]);
}

#[test]
fn encode_full_block() {
    let payload: Vec<u8> = (0..254).map(|i| (i % 255 + 1) as u8).collect();
    let frame = encode(&payload);
    assert_eq!(frame.len(), 254 + 3);
    assert_eq!(frame[0], 255);
    assert_eq!(&frame[1..255], &payload[..]);
    assert_eq!(&frame[255..], &[1, 0]);
}

#[test]
fn sentinel_only_at_end() {
    let payload = vec![0, 0, 5, 0, 7, 0];
    let frame = encode(&payload);
    assert_eq!(*frame.last().unwrap(), 0);
    assert!(frame[..frame.len() - 1].iter().all(|&b| b != 0));
    assert_eq!(find_terminator(&frame), frame.len() - 1);
}

#[test]
fn framing_round_trip_many_payloads() {
    let mut payloads: Vec<Vec<u8>> = vec![
        vec![],
        vec![0],
        vec![0, 0, 0],
        vec![1, 2, 3],
        vec![0, 1, 0, 2, 0],
        (0..300).map(|i| (i % 7) as u8).collect(),
        (0..600).map(|i| (i % 250 + 1) as u8).collect(),
    ];
    for len in [253usize, 254, 255, 508, 509] {
        payloads.push(vec![0xAA; len]);
        let mut with_zero = vec![0xAA; len];
        with_zero.push(0);
        payloads.push(with_zero);
    }
    for p in payloads {
        let frame = encode(&p);
        assert_eq!(decode(&frame), Ok(p.clone()));
    }
}

#[test]
fn decode_without_terminator() {
    assert_eq!(decode(&[]), Err(FrameError::NoTerminator));
    assert_eq!(decode(&[2, 5]), Err(FrameError::NoTerminator));
}

#[test]
fn decode_malformed() {
    assert_eq!(decode(&[0]), Err(FrameError::Malformed));
    assert_eq!(decode(&[5, 1, 0]), Err(FrameError::Malformed));
}

#[test]
fn decode_reads_only_first_frame() {
    assert_eq!(decode(&[2, 0x33, 0, 99, 98]), Ok(vec![0x33]));
}

#[test]
fn encode_to_buffer_boundary() {
    assert_eq!(encode_to_buffer(&[1, 2, 3], 5), Ok(vec![4, 1, 2, 3, 0]));
    assert_eq!(encode_to_buffer(&[1, 2, 3], 4), Err(FrameError::BufferTooSmall));
}

fn all_commands() -> Vec<HostToTarget> {
    let mut v = Vec::new();
    for mode in [UsartMode::Regular, UsartMode::Dma, UsartMode::Sync, UsartMode::FlowControl] {
        v.push(HostToTarget::SendUsart { mode, data: vec![] });
        v.push(HostToTarget::SendUsart { mode, data: vec![0, 1, 2, 0xff] });
    }
    v.push(HostToTarget::WaitForAddress(0x42));
    v.push(HostToTarget::SetPin(Level::High));
    v.push(HostToTarget::SetPin(Level::Low));
    v.push(HostToTarget::ReadPin);
    v.push(HostToTarget::StartTimerInterrupt { period_ms: 0 });
    v.push(HostToTarget::StartTimerInterrupt { period_ms: 0xdead_beef });
    v.push(HostToTarget::StopTimerInterrupt);
    for mode in [DmaMode::Regular, DmaMode::Dma] {
        v.push(HostToTarget::StartI2cTransaction { mode, address: 0x48, data: 7 });
        v.push(HostToTarget::StartSpiTransaction { mode, data: 9 });
    }
    v.push(HostToTarget::StartPwmSignal);
    v.push(HostToTarget::StopPwmSignal);
    v.push(HostToTarget::ReadAdc);
    v
}

fn all_replies() -> Vec<TargetToHost> {
    let mut v = Vec::new();
    for mode in [UsartMode::Regular, UsartMode::Dma, UsartMode::Sync, UsartMode::FlowControl] {
        v.push(TargetToHost::UsartReceive { mode, data: vec![] });
        v.push(TargetToHost::UsartReceive { mode, data: vec![0x41, 0, 0x42] });
    }
    v.push(TargetToHost::ReadPinResult(Level::High));
    v.push(TargetToHost::ReadPinResult(Level::Low));
    v.push(TargetToHost::I2cReply(0));
    v.push(TargetToHost::SpiReply(0xff));
    v.push(TargetToHost::AdcValue(0));
    v.push(TargetToHost::AdcValue(0xffff));
    v
}

#[test]
fn message_round_trip_commands() {
    for m in all_commands() {
        let bytes = m.serialize();
        assert_eq!(HostToTarget::deserialize(&bytes), Some(m.clone()));
    }
}

#[test]
fn message_round_trip_replies() {
    for m in all_replies() {
        let bytes = m.serialize();
        assert_eq!(TargetToHost::deserialize(&bytes), Some(m.clone()));
    }
}

#[test]
fn command_bytes_exact() {
    assert_eq!(HostToTarget::SetPin(Level::High).serialize(), vec![2, 1]);
    assert_eq!(
        HostToTarget::StartTimerInterrupt { period_ms: 10 }.serialize(),
        vec![4, 10, 0, 0, 0]
    );
    assert_eq!(
        HostToTarget::SendUsart { mode: UsartMode::Dma, data: vec![0x41, 0x42] }.serialize(),
        vec![0, 1, 2, 0, 0, 0, 0x41, 0x42]
    );
    assert_eq!(
        HostToTarget::StartI2cTransaction { mode: DmaMode::Dma, address: 0x48, data: 3 }.serialize(),
        vec![6, 1, 0x48, 3]
    );
}

#[test]
fn reply_bytes_exact() {
    assert_eq!(TargetToHost::AdcValue(0x1234).serialize(), vec![4, 0x34, 0x12]);
    assert_eq!(TargetToHost::ReadPinResult(Level::Low).serialize(), vec![1, 0]);
}

#[test]
fn deserialize_rejects_bad_input() {
    assert_eq!(HostToTarget::deserialize(&[]), None);
    assert_eq!(HostToTarget::deserialize(&[11]), None);
    assert_eq!(HostToTarget::deserialize(&[3, 0]), None);
    assert_eq!(HostToTarget::deserialize(&[2, 7]), None);
    assert_eq!(HostToTarget::deserialize(&[0, 1, 3, 0, 0, 0, 1, 2]), None);
    assert_eq!(TargetToHost::deserialize(&[4, 1]), None);
    assert_eq!(TargetToHost::deserialize(&[0, 9, 0, 0, 0, 0]), None);
}
