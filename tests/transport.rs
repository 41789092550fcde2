use test_stand::cobs::{encode, FrameError};
use test_stand::conn::{Conn, ConnReceiveError, ConnSendError, DecodeError, ReceiveStep};
use test_stand::message::{HostToTarget, Level, TargetToHost, UsartMode};
use test_stand::pin::{Pin, ReadLevelError};
use test_stand::target::{
    ReadAdcError, Target, TargetI2cError, TargetPinReadError, TargetSpiError, TargetUsartWaitError,
    UsartWait,
};

fn reply_frame(m: &TargetToHost) -> Vec<u8> {
    encode(&m.serialize())
}

#[test]
fn encode_command_frames_the_message() {
    let conn = Conn::new(64);
    let f = conn.encode_command(&HostToTarget::SetPin(Level::High)).unwrap();
    assert_eq!(f, vec![3, 2, 1, 0]);
}

#[test]
fn encode_command_buffer_too_small() {
    let conn = Conn::new(10);
    let m = HostToTarget::SendUsart { mode: UsartMode::Regular, data: vec![1, 2, 3] };
    assert!(matches!(conn.encode_command(&m), Err(ConnSendError::BufferTooSmall)));
    let conn = Conn::new(11);
    assert_eq!(conn.encode_command(&m).unwrap(), vec![1, 1, 2, 3, 1, 1, 4, 1, 2, 3, 0]);
}

#[test]
fn partial_read_reassembly_every_split() {
    let m = TargetToHost::UsartReceive { mode: UsartMode::Sync, data: vec![0x10, 0, 0x20] };
    let f = reply_frame(&m);
    for k in 0..=f.len() {
        let mut conn = Conn::new(64);
        conn.feed(&f[..k]);
        if k < f.len() {
            assert!(conn.take_message().is_none());
        }
        conn.feed(&f[k..]);
        match conn.take_message() {
            Some(Ok(got)) => assert_eq!(got, m),
            other => panic!("split at {}: {:?}", k, other),
        }
        assert!(conn.pending_bytes().is_empty());
    }
}

#[test]
fn read_ahead_bytes_are_kept() {
    let a = TargetToHost::I2cReply(5);
    let b = TargetToHost::SpiReply(6);
    let mut bytes = reply_frame(&a);
    let fb = reply_frame(&b);
    bytes.extend_from_slice(&fb[..2]);
    let mut conn = Conn::new(64);
    conn.feed(&bytes);
    assert_eq!(conn.take_message().unwrap().unwrap(), a);
    assert_eq!(conn.pending_bytes(), &fb[..2]);
    assert!(conn.take_message().is_none());
    conn.feed(&fb[2..]);
    assert_eq!(conn.take_message().unwrap().unwrap(), b);
}

#[test]
fn take_message_decode_errors() {
    let mut conn = Conn::new(64);
    conn.feed(&[5, 1, 0]);
    assert_eq!(conn.take_message(), Some(Err(DecodeError::Frame(FrameError::Malformed))));
    conn.feed(&encode(&[9, 9]));
    assert_eq!(conn.take_message(), Some(Err(DecodeError::Message)));
}

#[test]
fn receive_step_deadline() {
    let mut conn = Conn::new(64);
    assert!(matches!(conn.receive_step(0, 50), ReceiveStep::Read { wait_ms: 50 }));
    assert!(matches!(conn.receive_step(30, 50), ReceiveStep::Read { wait_ms: 20 }));
    assert!(matches!(conn.receive_step(50, 50), ReceiveStep::Failed(ConnReceiveError::Timeout)));
    assert!(matches!(conn.receive_step(80, 50), ReceiveStep::Failed(ConnReceiveError::Timeout)));
}

#[test]
fn receive_step_prefers_a_complete_frame() {
    let mut conn = Conn::new(64);
    conn.feed(&reply_frame(&TargetToHost::AdcValue(300)));
    match conn.receive_step(99, 50) {
        ReceiveStep::Received(m) => assert_eq!(m, TargetToHost::AdcValue(300)),
        other => panic!("{:?}", other),
    }
    conn.feed(&[7, 0]);
    assert!(matches!(
        conn.receive_step(0, 50),
        ReceiveStep::Failed(ConnReceiveError::Decode(DecodeError::Frame(FrameError::Malformed)))
    ));
}

#[test]
fn pin_reads_level_or_reports_violation() {
    let pin = Pin::new(());
    assert_eq!(pin.set_level(Level::Low), HostToTarget::SetPin(Level::Low));
    assert_eq!(pin.read_level(), HostToTarget::ReadPin);
    assert!(matches!(pin.read_level_reply(TargetToHost::ReadPinResult(Level::High)), Ok(Level::High)));
    assert!(matches!(
        pin.read_level_reply(TargetToHost::I2cReply(1)),
        Err(ReadLevelError::UnexpectedMessage(TargetToHost::I2cReply(1)))
    ));
}

#[test]
fn target_queues_frames_in_order() {
    let mut t = Target::new(64);
    t.set_pin_high().unwrap();
    t.set_pin_low().unwrap();
    t.wait_for_address(0x21).unwrap();
    let out = t.take_outgoing();
    assert_eq!(out, vec![3, 2, 1, 0, 2, 2, 1, 0, 3, 1, 0x21, 0]);
    assert!(t.take_outgoing().is_empty());
}

#[test]
fn target_usart_modes() {
    let mut t = Target::new(64);
    t.send_usart(&[1]).unwrap();
    t.send_usart_dma(&[1]).unwrap();
    t.send_usart_sync(&[1]).unwrap();
    t.send_usart_with_flow_control(&[1]).unwrap();
    let out = t.take_outgoing();
    let mut expected = Vec::new();
    for mode in [UsartMode::Regular, UsartMode::Dma, UsartMode::Sync, UsartMode::FlowControl] {
        expected.extend(encode(&HostToTarget::SendUsart { mode, data: vec![1] }.serialize()));
    }
    assert_eq!(out, expected);
}

#[test]
fn target_send_too_large() {
    let mut t = Target::new(8);
    assert!(t.send_usart(&[1, 2, 3]).is_err());
    assert!(t.take_outgoing().is_empty());
}

#[test]
fn target_reply_interpretation() {
    let t = Target::new(64);
    assert!(matches!(t.pin_is_high(TargetToHost::ReadPinResult(Level::High)), Ok(true)));
    assert!(matches!(t.pin_is_low(TargetToHost::ReadPinResult(Level::High)), Ok(false)));
    assert!(matches!(
        t.pin_is_high(TargetToHost::SpiReply(0)),
        Err(TargetPinReadError(ReadLevelError::UnexpectedMessage(_)))
    ));
    assert!(matches!(t.i2c_reply(TargetToHost::I2cReply(0x5a)), Ok(0x5a)));
    assert!(matches!(t.i2c_reply(TargetToHost::SpiReply(1)), Err(TargetI2cError::UnexpectedMessage(_))));
    assert!(matches!(t.spi_reply(TargetToHost::SpiReply(0xa5)), Ok(0xa5)));
    assert!(matches!(t.spi_reply(TargetToHost::I2cReply(1)), Err(TargetSpiError::UnexpectedMessage(_))));
    assert!(matches!(t.adc_reply(TargetToHost::AdcValue(1023)), Ok(1023)));
    assert!(matches!(t.adc_reply(TargetToHost::I2cReply(1)), Err(ReadAdcError::UnexpectedMessage(_))));
}

#[test]
fn target_i2c_spi_adc_commands() {
    let mut t = Target::new(64);
    t.start_i2c_transaction(0x11).unwrap();
    t.start_i2c_transaction_dma(0x12).unwrap();
    t.start_spi_transaction(0x13).unwrap();
    t.start_spi_transaction_dma(0x14).unwrap();
    t.read_adc().unwrap();
    t.request_pin_level().unwrap();
    let out = t.take_outgoing();
    let mut expected = Vec::new();
    expected.extend(encode(&[6, 0, 0x48, 0x11]));
    expected.extend(encode(&[6, 1, 0x48, 0x12]));
    expected.extend(encode(&[7, 0, 0x13]));
    expected.extend(encode(&[7, 1, 0x14]));
    expected.extend(encode(&[10]));
    expected.extend(encode(&[3]));
    assert_eq!(out, expected);
}

#[test]
fn usart_wait_accumulates_until_found() {
    let mut w = UsartWait::new(&[0x41, 0x42], UsartMode::Regular);
    assert!(w.poll(0, 10).is_none());
    w.on_message(TargetToHost::UsartReceive { mode: UsartMode::Regular, data: vec![0x40, 0x41] }).unwrap();
    assert!(!w.found());
    assert!(w.poll(5, 10).is_none());
    w.on_message(TargetToHost::UsartReceive { mode: UsartMode::Regular, data: vec![0x42] }).unwrap();
    assert!(w.found());
    assert!(matches!(w.poll(50, 10), Some(Ok(v)) if v == vec![0x40, 0x41, 0x42]));
}

#[test]
fn usart_wait_times_out() {
    let w = UsartWait::new(&[1], UsartMode::Sync);
    assert!(matches!(w.poll(11, 10), Some(Err(TargetUsartWaitError::Timeout))));
}

#[test]
fn usart_wait_unexpected_message() {
    let mut w = UsartWait::new(&[1], UsartMode::Dma);
    assert!(matches!(
        w.on_message(TargetToHost::UsartReceive { mode: UsartMode::Regular, data: vec![1] }),
        Err(TargetUsartWaitError::UnexpectedMessage(_))
    ));
    assert!(matches!(
        w.on_message(TargetToHost::AdcValue(1)),
        Err(TargetUsartWaitError::UnexpectedMessage(TargetToHost::AdcValue(1)))
    ));
    assert!(!w.found());
}

#[test]
fn session_reassembles_split_reply() {
    let f = reply_frame(&TargetToHost::I2cReply(0x7f));
    for k in 1..f.len() {
        let mut t = Target::new(64);
        t.start_i2c_transaction(1).unwrap();
        t.feed(&f[..k]);
        assert!(matches!(t.receive_step(0, 10), ReceiveStep::Read { wait_ms: 10 }));
        t.feed(&f[k..]);
        match t.receive_step(1, 10) {
            ReceiveStep::Received(m) => assert!(matches!(t.i2c_reply(m), Ok(0x7f))),
            other => panic!("{:?}", other),
        }
    }
}

#[test]
fn session_keeps_frame_after_dma_wait() {
    let mut t = Target::new(64);
    let mut bytes = Vec::new();
    for b in [0x41u8, 0x42, 0x43] {
        bytes.extend(reply_frame(&TargetToHost::UsartReceive { mode: UsartMode::Dma, data: vec![b] }));
    }
    t.feed(&bytes);
    let mut wait = t.wait_for_usart_rx_dma(&[0x41, 0x42]);
    let mut received = 0;
    let result = loop {
        if let Some(r) = wait.poll(0, 100) {
            break r;
        }
        match t.receive_step(0, 100) {
            ReceiveStep::Received(m) => wait.on_message(m).unwrap(),
            other => panic!("{:?}", other),
        }
        received += 1;
    };
    assert_eq!(result.unwrap(), vec![0x41, 0x42]);
    assert_eq!(received, 2);
    match t.receive_step(0, 100) {
        ReceiveStep::Received(m) => {
            assert_eq!(m, TargetToHost::UsartReceive { mode: UsartMode::Dma, data: vec![0x43] })
        }
        other => panic!("{:?}", other),
    }
}

#[test]
fn session_times_out_without_data() {
    let mut t = Target::new(64);
    t.read_adc().unwrap();
    assert!(matches!(t.receive_step(4, 10), ReceiveStep::Read { wait_ms: 6 }));
    assert!(matches!(t.receive_step(10, 10), ReceiveStep::Failed(ConnReceiveError::Timeout)));
}

#[test]
fn session_adc_and_spi_values_come_through() {
    for v in [0u16, 0x7f, 0x80, 0x3fff, 0xffff] {
        let mut t = Target::new(64);
        t.feed(&reply_frame(&TargetToHost::AdcValue(v)));
        match t.receive_step(0, 10) {
            ReceiveStep::Received(m) => assert!(matches!(t.adc_reply(m), Ok(x) if x == v)),
            other => panic!("{:?}", other),
        }
    }
    for v in [0u8, 0x7f, 0x80, 0xff] {
        let mut t = Target::new(64);
        t.feed(&reply_frame(&TargetToHost::SpiReply(v)));
        match t.receive_step(0, 10) {
            ReceiveStep::Received(m) => assert!(matches!(t.spi_reply(m), Ok(x) if x == v)),
            other => panic!("{:?}", other),
        }
    }
}

#[test]
fn send_errors_carry_the_send_variant() {
    let mut t = Target::new(2);
    assert!(matches!(t.start_i2c_transaction(1), Err(TargetI2cError::Send(ConnSendError::BufferTooSmall))));
    assert!(matches!(t.start_spi_transaction_dma(1), Err(TargetSpiError::Send(ConnSendError::BufferTooSmall))));
    assert!(matches!(t.read_adc(), Err(ReadAdcError::Send(ConnSendError::BufferTooSmall))));
    assert!(t.take_outgoing().is_empty());
}
