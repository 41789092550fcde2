//! The target's cooperative main loop: drains every receive path into
//! telemetry, turns the next complete command into the peripheral action it
//! asks for, and answers it.
//!
//! The peripherals themselves are driven by the caller, which performs the
//! action and hands back its outcome.

use vstd::prelude::*;

use crate::cobs::{decode, encode_to_buffer, frame_decode, frame_of, lemma_frame_round_trip, FrameError};
use crate::conn::{after_first_frame, command_frame, first_frame, has_frame, DecodeError};
use crate::dma::{dma_telemetry, DmaReceiver};
use crate::message::{
    host_decoding, host_encoding, host_msg_wf, lemma_host_round_trip, target_encoding, target_msg_wf, DmaMode, HostMsg, HostToTarget, Level,
    TargetMsg, TargetToHost, UsartMode,
};
use crate::rx::RxBuffer;

verus! {

/// Size of the scratch buffer a DMA transmission is copied into.
pub const DMA_TX_BUFFER_SIZE: usize = 16;

/// Timer ticks per millisecond: the system timer runs at 6 MHz.
pub const TICKS_PER_MS: u32 = 6000;

/// The largest value the system timer's 24-bit reload register holds.
pub const MAX_RELOAD: u32 = 0x00FF_FFFF;

/// Why a command cannot be carried out.
#[derive(Debug, Clone, Copy, PartialEq, Eq, Structural)]
pub enum DispatchError {
    /// The command frame could not be decoded.
    Malformed(DecodeError),
    /// This target has no peripheral for the command.
    Unsupported,
    /// The data of a DMA transmission does not fit the scratch buffer. Such
    /// a command is refused here, before anything is copied, rather than
    /// failing partway through the transmission.
    DmaBufferTooSmall { len: usize },
    /// The timer period in ticks exceeds the timer's 24-bit reload register
    /// (`MAX_RELOAD`).
    PeriodTooLong { period_ms: u32 },
}

/// The peripheral action a command asks for.
#[derive(Debug, Clone, Copy, PartialEq, Eq, Structural)]
pub enum Action {
    /// Write the command's data on the USART, blocking (`Regular`), over the
    /// clocked USART (`Sync`), or with hardware flow control enabled for the
    /// write and disabled after it (`FlowControl`).
    UsartWrite(UsartMode),
    /// Copy the command's data into the scratch buffer and transmit it by
    /// DMA, blocking until the transfer completes.
    UsartWriteDma,
    /// Block until the USART receives `address`.
    WaitForAddress(u8),
    /// Drive the output pin to the level.
    SetPin(Level),
    /// Read the input pin and reply with its level.
    ReadPin,
    /// Start the periodic timer interrupt with this reload value.
    StartTimer { reload: u32 },
    /// Stop the periodic timer interrupt.
    StopTimer,
    /// Write `data` to the I2C device at `address`, read one byte back, and
    /// reply with it.
    I2cTransaction { mode: DmaMode, address: u8, data: u8 },
    /// Send `data` over SPI, read one byte back, and reply with it.
    SpiTransaction { mode: DmaMode, data: u8 },
}

/// What performing an action gave.
#[derive(Debug, Clone, Copy, PartialEq, Eq, Structural)]
pub enum Outcome {
    /// The action completed and produced no value.
    Done,
    /// The input pin read high (`true`) or low.
    PinLevel(bool),
    /// The byte read back from the bus.
    Byte(u8),
}

/// The action that command `m` asks for.
pub open spec fn plan_spec(m: HostMsg) -> Result<Action, DispatchError> {
    match m {
        HostMsg::SendUsart { mode, data } => if mode == UsartMode::Dma {
            if data.len() <= DMA_TX_BUFFER_SIZE {
                Ok(Action::UsartWriteDma)
            } else {
                Err(DispatchError::DmaBufferTooSmall { len: data.len() as usize })
            }
        } else {
            Ok(Action::UsartWrite(mode))
        },
        HostMsg::WaitForAddress(a) => Ok(Action::WaitForAddress(a)),
        HostMsg::SetPin(l) => Ok(Action::SetPin(l)),
        HostMsg::ReadPin => Ok(Action::ReadPin),
        HostMsg::StartTimerInterrupt { period_ms } => if period_ms * TICKS_PER_MS <= MAX_RELOAD {
            Ok(Action::StartTimer { reload: (period_ms * TICKS_PER_MS) as u32 })
        } else {
            Err(DispatchError::PeriodTooLong { period_ms })
        },
        HostMsg::StopTimerInterrupt => Ok(Action::StopTimer),
        HostMsg::StartI2cTransaction { mode, address, data } => Ok(
            Action::I2cTransaction { mode, address, data },
        ),
        HostMsg::StartSpiTransaction { mode, data } => Ok(Action::SpiTransaction { mode, data }),
        _ => Err(DispatchError::Unsupported),
    }
}

/// The reply owed once `action` gave `outcome`, if one is owed.
pub open spec fn reply_spec(action: Action, outcome: Outcome) -> Option<TargetMsg> {
    match (action, outcome) {
        (Action::ReadPin, Outcome::PinLevel(high)) => Some(
            TargetMsg::ReadPinResult(if high { Level::High } else { Level::Low }),
        ),
        (Action::I2cTransaction { .. }, Outcome::Byte(b)) => Some(TargetMsg::I2cReply(b)),
        (Action::SpiTransaction { .. }, Outcome::Byte(b)) => Some(TargetMsg::SpiReply(b)),
        _ => None,
    }
}

/// What decoding one complete command frame gives.
pub open spec fn decode_command_spec(f: Seq<u8>) -> Result<HostMsg, DecodeError> {
    match frame_decode(f) {
        Err(e) => Err(DecodeError::Frame(e)),
        Ok(p) => match host_decoding(p) {
            None => Err(DecodeError::Message),
            Some(m) => Ok(m),
        },
    }
}

/// The telemetry that forwards what a raw receive path took out.
pub open spec fn raw_telemetry(mode: UsartMode, taken: Option<Seq<u8>>) -> Seq<TargetMsg> {
    match taken {
        Some(data) => seq![TargetMsg::UsartReceive { mode, data }],
        None => Seq::<TargetMsg>::empty(),
    }
}

/// What a raw receive path gives up: everything, once the line went idle.
pub open spec fn raw_unit(rx: RxBuffer) -> Option<Seq<u8>> {
    if rx.idle_seen() && rx.contents().len() > 0 {
        Some(rx.contents())
    } else {
        None
    }
}

/// The action that command `m` asks for. Every failure is reported as a
/// `DispatchError` for the caller to act on, among them a DMA transmission
/// longer than the scratch buffer and a timer period beyond the reload
/// register.
pub fn plan(m: &HostToTarget) -> (r: Result<Action, DispatchError>)
    ensures
        r == plan_spec(m@),
{
    match m {
        HostToTarget::SendUsart { mode, data } => match mode {
            UsartMode::Dma => if data.len() <= DMA_TX_BUFFER_SIZE {
                Ok(Action::UsartWriteDma)
            } else {
                Err(DispatchError::DmaBufferTooSmall { len: data.len() })
            },
            _ => Ok(Action::UsartWrite(*mode)),
        },
        HostToTarget::WaitForAddress(a) => Ok(Action::WaitForAddress(*a)),
        HostToTarget::SetPin(l) => Ok(Action::SetPin(*l)),
        HostToTarget::ReadPin => Ok(Action::ReadPin),
        HostToTarget::StartTimerInterrupt { period_ms } => {
            if *period_ms <= MAX_RELOAD / TICKS_PER_MS {
                Ok(Action::StartTimer { reload: *period_ms * TICKS_PER_MS })
            } else {
                Err(DispatchError::PeriodTooLong { period_ms: *period_ms })
            }
        },
        HostToTarget::StopTimerInterrupt => Ok(Action::StopTimer),
        HostToTarget::StartI2cTransaction { mode, address, data } => Ok(
            Action::I2cTransaction { mode: *mode, address: *address, data: *data },
        ),
        HostToTarget::StartSpiTransaction { mode, data } => Ok(
            Action::SpiTransaction { mode: *mode, data: *data },
        ),
        _ => Err(DispatchError::Unsupported),
    }
}

/// The reply owed once `action` gave `outcome`; `None` for commands that
/// are not answered.
pub fn reply_for(action: Action, outcome: Outcome) -> (r: Option<TargetToHost>)
    ensures
        match r {
            Some(m) => reply_spec(action, outcome) == Some(m@),
            None => reply_spec(action, outcome) is None,
        },
{
    match (action, outcome) {
        (Action::ReadPin, Outcome::PinLevel(high)) => Some(
            TargetToHost::ReadPinResult(if high { Level::High } else { Level::Low }),
        ),
        (Action::I2cTransaction { .. }, Outcome::Byte(b)) => Some(TargetToHost::I2cReply(b)),
        (Action::SpiTransaction { .. }, Outcome::Byte(b)) => Some(TargetToHost::SpiReply(b)),
        _ => None,
    }
}

/// Decodes one complete command frame, sentinel included.
pub fn decode_command(frame: &[u8]) -> (r: Result<HostToTarget, DecodeError>)
    ensures
        match r {
            Ok(m) => decode_command_spec(frame@) == Ok::<HostMsg, DecodeError>(m@),
            Err(e) => decode_command_spec(frame@) == Err::<HostMsg, DecodeError>(e),
        },
{
    match decode(frame) {
        Err(e) => Err(DecodeError::Frame(e)),
        Ok(payload) => match HostToTarget::deserialize(payload.as_slice()) {
            None => Err(DecodeError::Message),
            Some(m) => Ok(m),
        },
    }
}

/// Serializes and frames a reply or telemetry message for the host, within
/// a buffer of `capacity` bytes.
pub fn encode_reply(m: &TargetToHost, capacity: usize) -> (r: Result<Vec<u8>, FrameError>)
    ensures
        target_msg_wf(m@) && frame_of(target_encoding(m@)).len() <= capacity <==> r is Ok,
        r is Ok ==> r->Ok_0@ == frame_of(target_encoding(m@)),
        r is Err ==> r->Err_0 == FrameError::BufferTooSmall,
{
    if let TargetToHost::UsartReceive { data, .. } = m {
        if data.len() > capacity || data.len() as u64 > u32::MAX as u64 {
            proof {
                crate::cobs::lemma_encode_len(target_encoding(m@));
            }
            return Err(FrameError::BufferTooSmall);
        }
    }
    let bytes = m.serialize();
    encode_to_buffer(bytes.as_slice(), capacity)
}

/// A command framed by the host decodes on the target to that same command.
pub proof fn lemma_command_delivery(m: HostMsg)
    requires
        host_msg_wf(m),
    ensures
        decode_command_spec(command_frame(m)) == Ok::<HostMsg, DecodeError>(m),
{
    lemma_frame_round_trip(host_encoding(m));
    lemma_host_round_trip(m);
}

/// One pass of the main loop, before any peripheral is touched.
pub struct Iteration {
    /// Telemetry to forward to the host, in order.
    pub telemetry: Vec<TargetToHost>,
    /// The next command from the host, with its action, if a complete
    /// command frame had arrived.
    pub command: Option<Result<(HostToTarget, Action), DispatchError>>,
}

/// Every receive path of the target.
pub struct Firmware {
    /// Commands from the host (framed).
    pub host_rx: RxBuffer,
    /// The USART under test (raw, ended by an idle line).
    pub usart_rx: RxBuffer,
    /// The synchronous USART under test (raw, ended by an idle line).
    pub usart_sync_rx: RxBuffer,
    /// The DMA-backed USART under test.
    pub dma: DmaReceiver,
}

impl Firmware {
    /// The telemetry one pass forwards, in order: what each raw path took
    /// out, then each byte queued on the DMA path.
    pub open spec fn telemetry_spec(&self) -> Seq<TargetMsg> {
        raw_telemetry(UsartMode::Regular, raw_unit(self.usart_rx)) + raw_telemetry(
            UsartMode::Sync,
            raw_unit(self.usart_sync_rx),
        ) + dma_telemetry(self.dma.items())
    }

    /// Main loop, first half: drains the raw paths and the DMA queue into
    /// telemetry, and takes the next complete command, decoded and planned.
    /// Bytes after that command's frame stay for the next pass.
    pub fn poll(&mut self) -> (r: Iteration)
        ensures
            r.telemetry@.len() == old(self).telemetry_spec().len(),
            forall|j: int|
                0 <= j < r.telemetry@.len() ==> #[trigger] r.telemetry@[j]@ == old(
                    self,
                ).telemetry_spec()[j],
            final(self).dma.items() == Seq::<u8>::empty(),
            final(self).dma.transfer_state() == old(self).dma.transfer_state(),
            raw_unit(final(self).usart_rx) is None,
            raw_unit(final(self).usart_sync_rx) is None,
            !has_frame(old(self).host_rx.contents()) ==> (r.command is None
                && final(self).host_rx.contents() == old(self).host_rx.contents()),
            has_frame(old(self).host_rx.contents()) ==> (final(self).host_rx.contents()
                == after_first_frame(old(self).host_rx.contents()) && match r.command {
                Some(Ok((m, a))) => decode_command_spec(first_frame(old(self).host_rx.contents()))
                    == Ok::<HostMsg, DecodeError>(m@) && plan_spec(m@) == Ok::<
                    Action,
                    DispatchError,
                >(a),
                Some(Err(DispatchError::Malformed(e))) => decode_command_spec(
                    first_frame(old(self).host_rx.contents()),
                ) == Err::<HostMsg, DecodeError>(e),
                Some(Err(e)) => exists|m: HostMsg|
                    decode_command_spec(first_frame(old(self).host_rx.contents())) == Ok::<
                        HostMsg,
                        DecodeError,
                    >(m) && plan_spec(m) == Err::<Action, DispatchError>(e),
                None => false,
            }),
    {
        let ghost expected = old(self).telemetry_spec();
        let ghost raw_a = raw_telemetry(UsartMode::Regular, raw_unit(self.usart_rx));
        let ghost raw_b = raw_telemetry(UsartMode::Sync, raw_unit(self.usart_sync_rx));
        let mut telemetry: Vec<TargetToHost> = Vec::new();
        if let Some(data) = self.usart_rx.take_raw() {
            telemetry.push(TargetToHost::UsartReceive { mode: UsartMode::Regular, data });
        }
        if let Some(data) = self.usart_sync_rx.take_raw() {
            telemetry.push(TargetToHost::UsartReceive { mode: UsartMode::Sync, data });
        }
        assert(telemetry@.len() == raw_a.len() + raw_b.len());
        assert(forall|j: int|
            0 <= j < telemetry@.len() ==> #[trigger] telemetry@[j]@ == (raw_a + raw_b)[j]);
        let ghost dma_items = self.dma.items();
        let dma_part = self.dma.drain_telemetry();
        let ghost n0 = telemetry@.len();
        let mut i: usize = 0;
        while i < dma_part.len()
            invariant
                n0 == raw_a.len() + raw_b.len(),
                expected == raw_a + raw_b + dma_telemetry(dma_items),
                dma_part@.len() == dma_items.len(),
                forall|j: int| 0 <= j < dma_part@.len() ==> #[trigger] dma_part@[j]@ == dma_telemetry(dma_items)[j],
                i <= dma_part.len(),
                telemetry@.len() == n0 + i,
                forall|j: int| 0 <= j < telemetry@.len() ==> #[trigger] telemetry@[j]@ == expected[j],
            decreases dma_part.len() - i,
        {
            telemetry.push(dma_part[i].clone_message());
            i = i + 1;
        }
        let command = match self.host_rx.take_frame() {
            None => None,
            Some(frame) => match decode_command(frame.as_slice()) {
                Err(e) => Some(Err(DispatchError::Malformed(e))),
                Ok(m) => match plan(&m) {
                    Ok(a) => Some(Ok((m, a))),
                    Err(e) => Some(Err(e)),
                },
            },
        };
        Iteration { telemetry, command }
    }

    /// Whether the main loop may suspend until the next interrupt: only when
    /// no receive path holds a complete unit. To be asked with interrupts
    /// masked, so that no unit can arrive between this answer and the
    /// suspension.
    pub fn may_suspend(&self) -> (r: bool)
        ensures
            r == !(self.host_rx.can_process_spec() || self.usart_rx.can_process_spec()
                || self.usart_sync_rx.can_process_spec() || self.dma.items().len() > 0),
    {
        !(self.host_rx.can_process() || self.usart_rx.can_process()
            || self.usart_sync_rx.can_process() || self.dma.has_items())
    }
}

} // verus!
