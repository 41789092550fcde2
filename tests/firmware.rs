use test_stand::cobs::{encode, FrameError};
use test_stand::conn::DecodeError;
use test_stand::dispatch::{
    decode_command, encode_reply, plan, reply_for, Action, DispatchError, Firmware, Outcome,
};
use test_stand::dma::{DmaOverflow, DmaReceiver, DmaState, DMA_QUEUE_CAPACITY};
use test_stand::message::{DmaMode, HostToTarget, Level, TargetToHost, UsartMode};
use test_stand::rx::{RxBuffer, RxOverflow};

#[test]
fn rx_fills_to_capacity_then_overflows() {
    let mut rx = RxBuffer::new(4);
    for b in 1..=4u8 {
        assert_eq!(rx.receive(b), Ok(()));
    }
    assert_eq!(rx.len(), 4);
    assert_eq!(rx.receive(5), Err(RxOverflow { byte: 5 }));
    assert_eq!(rx.len(), 4);
}

#[test]
fn rx_receive_all_boundary() {
    let mut rx = RxBuffer::new(3);
    assert_eq!(rx.receive_all(&[1, 2, 3]), Ok(()));
    let mut rx = RxBuffer::new(3);
    assert_eq!(rx.receive_all(&[1, 2, 3, 4]), Err(RxOverflow { byte: 4 }));
    assert_eq!(rx.len(), 3);
}

#[test]
fn rx_take_frame_keeps_the_rest() {
    let mut rx = RxBuffer::new(16);
    rx.receive_all(&[3, 2, 1, 0, 9]).unwrap();
    assert!(rx.can_process());
    assert_eq!(rx.take_frame(), Some(vec![3, 2, 1, 0]));
    assert_eq!(rx.len(), 1);
    assert!(!rx.can_process());
    assert_eq!(rx.take_frame(), None);
}

#[test]
fn rx_take_raw_after_idle() {
    let mut rx = RxBuffer::new(16);
    rx.receive_all(&[7, 8]).unwrap();
    assert!(!rx.can_process());
    assert_eq!(rx.take_raw(), None);
    rx.on_idle();
    assert!(rx.can_process());
    assert_eq!(rx.take_raw(), Some(vec![7, 8]));
    assert_eq!(rx.len(), 0);
    assert!(!rx.can_process());
}

#[test]
fn rx_address_matching() {
    let mut rx = RxBuffer::new(16);
    rx.start_address_detection(0x55);
    assert!(rx.address_detection_active());
    rx.receive(0x01).unwrap();
    rx.receive(0x54).unwrap();
    assert!(rx.address_detection_active());
    rx.receive(0x55).unwrap();
    assert!(!rx.address_detection_active());
    assert_eq!(rx.len(), 0);
    rx.receive(0x55).unwrap();
    assert_eq!(rx.len(), 1);
}

#[test]
fn dma_queue_keeps_order() {
    let mut dma = DmaReceiver::new();
    assert_eq!(dma.state(), DmaState::Idle);
    dma.start();
    assert_eq!(dma.state(), DmaState::Started);
    assert_eq!(dma.on_transfer_complete(&[1, 2, 3]), Ok(()));
    assert_eq!(dma.on_transfer_complete(&[4]), Ok(()));
    assert!(dma.has_items());
    assert_eq!(dma.dequeue(), Some(1));
    let t = dma.drain_telemetry();
    let expected: Vec<TargetToHost> = [2u8, 3, 4]
        .iter()
        .map(|&b| TargetToHost::UsartReceive { mode: UsartMode::Dma, data: vec![b] })
        .collect();
    assert_eq!(t, expected);
    assert_eq!(dma.dequeue(), None);
    assert!(!dma.has_items());
}

#[test]
fn dma_delivers_every_byte_within_capacity() {
    let mut dma = DmaReceiver::new();
    dma.start();
    let chunks: Vec<Vec<u8>> = vec![(0..13).collect(), (13..26).collect(), (26..31).collect()];
    for c in &chunks {
        assert_eq!(dma.on_transfer_complete(c), Ok(()));
        assert_eq!(dma.state(), DmaState::Started);
    }
    let t = dma.drain_telemetry();
    assert_eq!(t.len(), DMA_QUEUE_CAPACITY);
    for (i, m) in t.iter().enumerate() {
        assert_eq!(*m, TargetToHost::UsartReceive { mode: UsartMode::Dma, data: vec![i as u8] });
    }
}

#[test]
fn dma_overflow_reports_dropped_and_rearms() {
    let mut dma = DmaReceiver::new();
    dma.start();
    let chunk: Vec<u8> = (0..13).collect();
    assert_eq!(dma.on_transfer_complete(&chunk), Ok(()));
    assert_eq!(dma.on_transfer_complete(&chunk), Ok(()));
    assert_eq!(dma.on_transfer_complete(&chunk), Err(DmaOverflow { dropped: 8 }));
    assert_eq!(dma.state(), DmaState::Started);
    assert_eq!(dma.drain_telemetry().len(), 31);
}

#[test]
fn plan_every_command() {
    let cases = vec![
        (HostToTarget::SendUsart { mode: UsartMode::Regular, data: vec![1] }, Ok(Action::UsartWrite(UsartMode::Regular))),
        (HostToTarget::SendUsart { mode: UsartMode::Sync, data: vec![1] }, Ok(Action::UsartWrite(UsartMode::Sync))),
        (HostToTarget::SendUsart { mode: UsartMode::FlowControl, data: vec![] }, Ok(Action::UsartWrite(UsartMode::FlowControl))),
        (HostToTarget::SendUsart { mode: UsartMode::Dma, data: vec![0; 16] }, Ok(Action::UsartWriteDma)),
        (HostToTarget::SendUsart { mode: UsartMode::Dma, data: vec![0; 17] }, Err(DispatchError::DmaBufferTooSmall { len: 17 })),
        (HostToTarget::WaitForAddress(3), Ok(Action::WaitForAddress(3))),
        (HostToTarget::SetPin(Level::High), Ok(Action::SetPin(Level::High))),
        (HostToTarget::ReadPin, Ok(Action::ReadPin)),
        (HostToTarget::StartTimerInterrupt { period_ms: 10 }, Ok(Action::StartTimer { reload: 60000 })),
        (HostToTarget::StartTimerInterrupt { period_ms: 2796 }, Ok(Action::StartTimer { reload: 16776000 })),
        (HostToTarget::StartTimerInterrupt { period_ms: 2797 }, Err(DispatchError::PeriodTooLong { period_ms: 2797 })),
        (HostToTarget::StartTimerInterrupt { period_ms: 715828 }, Err(DispatchError::PeriodTooLong { period_ms: 715828 })),
        (HostToTarget::StopTimerInterrupt, Ok(Action::StopTimer)),
        (HostToTarget::StartI2cTransaction { mode: DmaMode::Dma, address: 0x48, data: 1 }, Ok(Action::I2cTransaction { mode: DmaMode::Dma, address: 0x48, data: 1 })),
        (HostToTarget::StartSpiTransaction { mode: DmaMode::Regular, data: 2 }, Ok(Action::SpiTransaction { mode: DmaMode::Regular, data: 2 })),
        (HostToTarget::StartPwmSignal, Err(DispatchError::Unsupported)),
        (HostToTarget::StopPwmSignal, Err(DispatchError::Unsupported)),
        (HostToTarget::ReadAdc, Err(DispatchError::Unsupported)),
    ];
    for (m, expected) in cases {
        assert_eq!(plan(&m), expected, "{:?}", m);
    }
}

#[test]
fn replies_for_outcomes() {
    assert_eq!(reply_for(Action::ReadPin, Outcome::PinLevel(true)), Some(TargetToHost::ReadPinResult(Level::High)));
    assert_eq!(reply_for(Action::ReadPin, Outcome::PinLevel(false)), Some(TargetToHost::ReadPinResult(Level::Low)));
    let i2c = Action::I2cTransaction { mode: DmaMode::Regular, address: 0x48, data: 0 };
    assert_eq!(reply_for(i2c, Outcome::Byte(9)), Some(TargetToHost::I2cReply(9)));
    let spi = Action::SpiTransaction { mode: DmaMode::Dma, data: 0 };
    assert_eq!(reply_for(spi, Outcome::Byte(8)), Some(TargetToHost::SpiReply(8)));
    assert_eq!(reply_for(Action::SetPin(Level::High), Outcome::Done), None);
    assert_eq!(reply_for(Action::StopTimer, Outcome::Done), None);
}

#[test]
fn decode_command_errors() {
    assert_eq!(decode_command(&[1, 2]), Err(DecodeError::Frame(FrameError::NoTerminator)));
    assert_eq!(decode_command(&[4, 1, 0]), Err(DecodeError::Frame(FrameError::Malformed)));
    assert_eq!(decode_command(&encode(&[99])), Err(DecodeError::Message));
    assert_eq!(decode_command(&encode(&[3])), Ok(HostToTarget::ReadPin));
}

#[test]
fn encode_reply_boundary() {
    let m = TargetToHost::I2cReply(0);
    assert_eq!(encode_reply(&m, 4), Ok(vec![2, 2, 1, 0]));
    assert_eq!(encode_reply(&m, 3), Err(FrameError::BufferTooSmall));
}

fn firmware() -> Firmware {
    Firmware {
        host_rx: RxBuffer::new(64),
        usart_rx: RxBuffer::new(64),
        usart_sync_rx: RxBuffer::new(64),
        dma: DmaReceiver::new(),
    }
}

#[test]
fn poll_orders_telemetry_and_takes_one_command() {
    let mut fw = firmware();
    fw.dma.start();
    fw.usart_rx.receive_all(&[0x61, 0x62]).unwrap();
    fw.usart_rx.on_idle();
    fw.usart_sync_rx.receive_all(&[0x71]).unwrap();
    fw.usart_sync_rx.on_idle();
    fw.dma.on_transfer_complete(&[0x81, 0x82]).unwrap();
    let mut cmds = encode(&HostToTarget::SetPin(Level::Low).serialize());
    cmds.extend(encode(&HostToTarget::ReadPin.serialize()));
    fw.host_rx.receive_all(&cmds).unwrap();
    assert!(!fw.may_suspend());

    let it = fw.poll();
    assert_eq!(
        it.telemetry,
        vec![
            TargetToHost::UsartReceive { mode: UsartMode::Regular, data: vec![0x61, 0x62] },
            TargetToHost::UsartReceive { mode: UsartMode::Sync, data: vec![0x71] },
            TargetToHost::UsartReceive { mode: UsartMode::Dma, data: vec![0x81] },
            TargetToHost::UsartReceive { mode: UsartMode::Dma, data: vec![0x82] },
        ]
    );
    assert_eq!(it.command, Some(Ok((HostToTarget::SetPin(Level::Low), Action::SetPin(Level::Low)))));
    assert!(!fw.may_suspend());

    let it = fw.poll();
    assert!(it.telemetry.is_empty());
    assert_eq!(it.command, Some(Ok((HostToTarget::ReadPin, Action::ReadPin))));
    assert!(fw.may_suspend());
    let it = fw.poll();
    assert_eq!(it.command, None);
}

#[test]
fn poll_reports_bad_commands() {
    let mut fw = firmware();
    fw.host_rx.receive_all(&encode(&[8])).unwrap();
    fw.host_rx.receive_all(&[5, 1, 0]).unwrap();
    assert_eq!(fw.poll().command, Some(Err(DispatchError::Unsupported)));
    assert_eq!(fw.poll().command, Some(Err(DispatchError::Malformed(DecodeError::Frame(FrameError::Malformed)))));
}
