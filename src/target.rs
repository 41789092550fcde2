//! The test suite's session with the target: each operation queues the
//! framed command to be written to the channel, and replies are interpreted
//! here once they have been received.

use vstd::prelude::*;

use crate::conn::{command_frame, receive_step_spec, Conn, ConnReceiveError, ConnSendError, ReceiveStep};
use crate::message::{host_msg_wf, DmaMode, HostMsg, HostToTarget, Level, TargetMsg, TargetToHost, UsartMode};
use crate::pin::{Pin, ReadLevelError};

verus! {

/// Bus address of the I2C device that transactions go to.
pub const I2C_ADDRESS: u8 = 0x48;

/// The command to set the pin high could not be sent.
#[derive(Debug)]
pub struct TargetSetPinHighError(pub ConnSendError);

/// The command to set the pin low could not be sent.
#[derive(Debug)]
pub struct TargetSetPinLowError(pub ConnSendError);

/// The input pin's level could not be read.
#[derive(Debug)]
pub struct TargetPinReadError(pub ReadLevelError);

impl From<ReadLevelError> for TargetPinReadError {
    fn from(err: ReadLevelError) -> Self {
        TargetPinReadError(err)
    }
}

impl vstd::std_specs::convert::FromSpecImpl<ReadLevelError> for TargetPinReadError {
    open spec fn obeys_from_spec() -> bool {
        true
    }

    open spec fn from_spec(v: ReadLevelError) -> Self {
        TargetPinReadError(v)
    }
}

/// The command to send on the USART could not be sent.
#[derive(Debug)]
pub struct TargetUsartSendError(pub ConnSendError);

/// The command to start the timer interrupt could not be sent.
#[derive(Debug)]
pub struct TargetStartTimerInterruptError(pub ConnSendError);

/// The command to start the PWM signal could not be sent.
#[derive(Debug)]
pub struct TargetStartPwmSignalError(pub ConnSendError);

/// The command to wait for an address could not be sent.
#[derive(Debug)]
pub struct TargetWaitForAddressError(pub ConnSendError);

/// Writing raw bytes to the channel failed.
#[derive(Debug)]
pub struct TargetSendError(pub std::io::Error);

/// The awaited USART data did not arrive.
#[derive(Debug)]
pub enum TargetUsartWaitError {
    Receive(ConnReceiveError),
    Timeout,
    UnexpectedMessage(TargetToHost),
}

/// An I2C transaction failed.
#[derive(Debug)]
pub enum TargetI2cError {
    Send(ConnSendError),
    Receive(ConnReceiveError),
    UnexpectedMessage(TargetToHost),
}

/// An SPI transaction failed.
#[derive(Debug)]
pub enum TargetSpiError {
    Send(ConnSendError),
    Receive(ConnReceiveError),
    UnexpectedMessage(TargetToHost),
}

/// An ADC reading failed.
#[derive(Debug)]
pub enum ReadAdcError {
    Send(ConnSendError),
    Receive(ConnReceiveError),
    UnexpectedMessage(TargetToHost),
}

/// Whether a command can be framed within `capacity` bytes.
pub open spec fn sendable(m: HostMsg, capacity: nat) -> bool {
    host_msg_wf(m) && command_frame(m).len() <= capacity
}

/// Whether `needle` occurs as a contiguous run in `hay`.
pub open spec fn contains(hay: Seq<u8>, needle: Seq<u8>) -> bool {
    exists|i: int| 0 <= i <= hay.len() - needle.len() && #[trigger] hay.subrange(i, i + needle.len()) == needle
}

/// Proof that a timer interrupt was started; handing it back to
/// `stop_timer_interrupt` stops it.
pub struct TimerInterrupt {
    period_ms: u32,
}

impl TimerInterrupt {
    pub closed spec fn period(&self) -> u32 {
        self.period_ms
    }

    /// The period the timer interrupt was started with.
    pub fn period_ms(&self) -> (r: u32)
        ensures
            r == self.period(),
    {
        self.period_ms
    }
}

/// Proof that a PWM signal was started; handing it back to
/// `stop_pwm_signal` stops it.
pub struct PwmSignal {
    token: (),
}

/// The session with the target: the connection state, the target's pin, and
/// the framed commands not yet written to the channel.
pub struct Target {
    conn: Conn,
    pin: Pin<()>,
    outgoing: Vec<u8>,
}

impl Target {
    /// Framed commands queued for the channel, in order.
    pub closed spec fn outgoing(&self) -> Seq<u8> {
        self.outgoing@
    }

    /// Bytes read from the channel and not yet consumed.
    pub closed spec fn pending(&self) -> Seq<u8> {
        self.conn.pending()
    }

    pub closed spec fn capacity(&self) -> nat {
        self.conn.capacity()
    }

    /// A session with nothing queued or pending, whose framed commands must
    /// fit `send_capacity` bytes.
    pub fn new(send_capacity: usize) -> (r: Target)
        ensures
            r.outgoing() == Seq::<u8>::empty(),
            r.pending() == Seq::<u8>::empty(),
            r.capacity() == send_capacity,
    {
        Target { conn: Conn::new(send_capacity), pin: Pin::new(()), outgoing: Vec::new() }
    }

    /// Hands over the queued frames, to be written to the channel.
    pub fn take_outgoing(&mut self) -> (r: Vec<u8>)
        ensures
            r@ == old(self).outgoing(),
            final(self).outgoing() == Seq::<u8>::empty(),
            final(self).pending() == old(self).pending(),
            final(self).capacity() == old(self).capacity(),
    {
        let mut out: Vec<u8> = Vec::new();
        std::mem::swap(&mut out, &mut self.outgoing);
        out
    }

    /// Appends bytes read from the channel.
    pub fn feed(&mut self, bytes: &[u8])
        ensures
            final(self).pending() == old(self).pending() + bytes@,
            final(self).outgoing() == old(self).outgoing(),
            final(self).capacity() == old(self).capacity(),
    {
        self.conn.feed(bytes);
    }

    /// One step of receiving a reply: a complete pending frame is taken and
    /// decoded, and the bytes after it stay pending; without one, nothing is
    /// consumed and the step asks for a read that ends by the deadline, or
    /// times out once the deadline is reached.
    pub fn receive_step(&mut self, elapsed_ms: u64, timeout_ms: u64) -> (r: ReceiveStep)
        ensures
            final(self).outgoing() == old(self).outgoing(),
            final(self).capacity() == old(self).capacity(),
            receive_step_spec(old(self).pending(), elapsed_ms, timeout_ms, r, final(self).pending()),
    {
        self.conn.receive_step(elapsed_ms, timeout_ms)
    }

    /// Queues the frame of `m`.
    fn send(&mut self, m: &HostToTarget) -> (r: Result<(), ConnSendError>)
        ensures
            r is Ok <==> sendable(m@, old(self).capacity()),
            r is Ok ==> final(self).outgoing() == old(self).outgoing() + command_frame(m@),
            r is Err ==> r->Err_0 is BufferTooSmall && final(self).outgoing() == old(self).outgoing(),
            final(self).pending() == old(self).pending(),
            final(self).capacity() == old(self).capacity(),
    {
        match self.conn.encode_command(m) {
            Ok(frame) => {
                let ghost before = self.outgoing@;
                crate::cobs::push_range(&mut self.outgoing, frame.as_slice(), 0, frame.len());
                assert(frame@.subrange(0, frame.len() as int) =~= frame@);
                Ok(())
            },
            Err(e) => Err(e),
        }
    }

    /// Instructs the target to set its output pin high.
    pub fn set_pin_high(&mut self) -> (r: Result<(), TargetSetPinHighError>)
        ensures
            r is Ok <==> sendable(HostMsg::SetPin(Level::High), old(self).capacity()),
            r is Ok ==> final(self).outgoing() == old(self).outgoing() + command_frame(
                HostMsg::SetPin(Level::High),
            ),
            r is Err ==> (r->Err_0.0 is BufferTooSmall),
            r is Err ==> final(self).outgoing() == old(self).outgoing(),
            final(self).pending() == old(self).pending(),
            final(self).capacity() == old(self).capacity(),
    {
        let m = self.pin.set_level(Level::High);
        match self.send(&m) {
            Ok(()) => Ok(()),
            Err(e) => Err(TargetSetPinHighError(e)),
        }
    }

    /// Instructs the target to set its output pin low.
    pub fn set_pin_low(&mut self) -> (r: Result<(), TargetSetPinLowError>)
        ensures
            r is Ok <==> sendable(HostMsg::SetPin(Level::Low), old(self).capacity()),
            r is Ok ==> final(self).outgoing() == old(self).outgoing() + command_frame(
                HostMsg::SetPin(Level::Low),
            ),
            r is Err ==> (r->Err_0.0 is BufferTooSmall),
            r is Err ==> final(self).outgoing() == old(self).outgoing(),
            final(self).pending() == old(self).pending(),
            final(self).capacity() == old(self).capacity(),
    {
        let m = self.pin.set_level(Level::Low);
        match self.send(&m) {
            Ok(()) => Ok(()),
            Err(e) => Err(TargetSetPinLowError(e)),
        }
    }

    /// Asks the target for its input pin's level; the reply goes to
    /// `pin_is_high` or `pin_is_low`.
    pub fn request_pin_level(&mut self) -> (r: Result<(), TargetPinReadError>)
        ensures
            r is Ok <==> sendable(HostMsg::ReadPin, old(self).capacity()),
            r is Ok ==> final(self).outgoing() == old(self).outgoing() + command_frame(
                HostMsg::ReadPin,
            ),
            r is Err ==> (r->Err_0.0 matches ReadLevelError::Send(ConnSendError::BufferTooSmall)),
            r is Err ==> final(self).outgoing() == old(self).outgoing(),
            final(self).pending() == old(self).pending(),
            final(self).capacity() == old(self).capacity(),
    {
        let m = self.pin.read_level();
        match self.send(&m) {
            Ok(()) => Ok(()),
            Err(e) => Err(TargetPinReadError::from(ReadLevelError::Send(e))),
        }
    }

    /// Whether the pin level in `reply` is high.
    pub fn pin_is_high(&self, reply: TargetToHost) -> (r: Result<bool, TargetPinReadError>)
        ensures
            match reply@ {
                TargetMsg::ReadPinResult(l) => r == Ok::<bool, TargetPinReadError>(
                    l == Level::High,
                ),
                _ => r matches Err(TargetPinReadError(ReadLevelError::UnexpectedMessage(m)))
                    && m@ == reply@,
            },
    {
        match self.pin.read_level_reply(reply) {
            Ok(l) => Ok(l == Level::High),
            Err(e) => Err(TargetPinReadError::from(e)),
        }
    }

    /// Whether the pin level in `reply` is low.
    pub fn pin_is_low(&self, reply: TargetToHost) -> (r: Result<bool, TargetPinReadError>)
        ensures
            match reply@ {
                TargetMsg::ReadPinResult(l) => r == Ok::<bool, TargetPinReadError>(
                    l == Level::Low,
                ),
                _ => r matches Err(TargetPinReadError(ReadLevelError::UnexpectedMessage(m)))
                    && m@ == reply@,
            },
    {
        match self.pin.read_level_reply(reply) {
            Ok(l) => Ok(l == Level::Low),
            Err(e) => Err(TargetPinReadError::from(e)),
        }
    }
}

impl Target {
    fn send_usart_mode(&mut self, data: &[u8], mode: UsartMode) -> (r: Result<(), TargetUsartSendError>)
        ensures
            r is Ok <==> sendable(HostMsg::SendUsart { mode, data: data@ }, old(self).capacity()),
            r is Ok ==> final(self).outgoing() == old(self).outgoing() + command_frame(
                HostMsg::SendUsart { mode, data: data@ },
            ),
            r is Err ==> (r->Err_0.0 is BufferTooSmall),
            r is Err ==> final(self).outgoing() == old(self).outgoing(),
            final(self).pending() == old(self).pending(),
            final(self).capacity() == old(self).capacity(),
    {
        let mut bytes: Vec<u8> = Vec::new();
        crate::cobs::push_range(&mut bytes, data, 0, data.len());
        assert(data@.subrange(0, data.len() as int) =~= data@);
        match self.send(&HostToTarget::SendUsart { mode, data: bytes }) {
            Ok(()) => Ok(()),
            Err(e) => Err(TargetUsartSendError(e)),
        }
    }

    /// Instructs the target to send `data` on its USART, byte by byte.
    pub fn send_usart(&mut self, data: &[u8]) -> (r: Result<(), TargetUsartSendError>)
        ensures
            r is Ok <==> sendable(
                HostMsg::SendUsart { mode: UsartMode::Regular, data: data@ },
                old(self).capacity(),
            ),
            r is Ok ==> final(self).outgoing() == old(self).outgoing() + command_frame(
                HostMsg::SendUsart { mode: UsartMode::Regular, data: data@ },
            ),
            r is Err ==> (r->Err_0.0 is BufferTooSmall),
            r is Err ==> final(self).outgoing() == old(self).outgoing(),
            final(self).pending() == old(self).pending(),
            final(self).capacity() == old(self).capacity(),
    {
        self.send_usart_mode(data, UsartMode::Regular)
    }

    /// Instructs the target to send `data` on its USART using DMA.
    pub fn send_usart_dma(&mut self, data: &[u8]) -> (r: Result<(), TargetUsartSendError>)
        ensures
            r is Ok <==> sendable(
                HostMsg::SendUsart { mode: UsartMode::Dma, data: data@ },
                old(self).capacity(),
            ),
            r is Ok ==> final(self).outgoing() == old(self).outgoing() + command_frame(
                HostMsg::SendUsart { mode: UsartMode::Dma, data: data@ },
            ),
            r is Err ==> (r->Err_0.0 is BufferTooSmall),
            r is Err ==> final(self).outgoing() == old(self).outgoing(),
            final(self).pending() == old(self).pending(),
            final(self).capacity() == old(self).capacity(),
    {
        self.send_usart_mode(data, UsartMode::Dma)
    }

    /// Instructs the target to send `data` on its synchronous USART.
    pub fn send_usart_sync(&mut self, data: &[u8]) -> (r: Result<(), TargetUsartSendError>)
        ensures
            r is Ok <==> sendable(
                HostMsg::SendUsart { mode: UsartMode::Sync, data: data@ },
                old(self).capacity(),
            ),
            r is Ok ==> final(self).outgoing() == old(self).outgoing() + command_frame(
                HostMsg::SendUsart { mode: UsartMode::Sync, data: data@ },
            ),
            r is Err ==> (r->Err_0.0 is BufferTooSmall),
            r is Err ==> final(self).outgoing() == old(self).outgoing(),
            final(self).pending() == old(self).pending(),
            final(self).capacity() == old(self).capacity(),
    {
        self.send_usart_mode(data, UsartMode::Sync)
    }

    /// Instructs the target to send `data` on its USART with hardware flow
    /// control.
    pub fn send_usart_with_flow_control(&mut self, data: &[u8]) -> (r: Result<
        (),
        TargetUsartSendError,
    >)
        ensures
            r is Ok <==> sendable(
                HostMsg::SendUsart { mode: UsartMode::FlowControl, data: data@ },
                old(self).capacity(),
            ),
            r is Ok ==> final(self).outgoing() == old(self).outgoing() + command_frame(
                HostMsg::SendUsart { mode: UsartMode::FlowControl, data: data@ },
            ),
            r is Err ==> (r->Err_0.0 is BufferTooSmall),
            r is Err ==> final(self).outgoing() == old(self).outgoing(),
            final(self).pending() == old(self).pending(),
            final(self).capacity() == old(self).capacity(),
    {
        self.send_usart_mode(data, UsartMode::FlowControl)
    }

    /// Instructs the target to wait for `address` on its USART before it
    /// goes on.
    pub fn wait_for_address(&mut self, address: u8) -> (r: Result<(), TargetWaitForAddressError>)
        ensures
            r is Ok <==> sendable(HostMsg::WaitForAddress(address), old(self).capacity()),
            r is Ok ==> final(self).outgoing() == old(self).outgoing() + command_frame(
                HostMsg::WaitForAddress(address),
            ),
            r is Err ==> (r->Err_0.0 is BufferTooSmall),
            r is Err ==> final(self).outgoing() == old(self).outgoing(),
            final(self).pending() == old(self).pending(),
            final(self).capacity() == old(self).capacity(),
    {
        match self.send(&HostToTarget::WaitForAddress(address)) {
            Ok(()) => Ok(()),
            Err(e) => Err(TargetWaitForAddressError(e)),
        }
    }

    /// Starts a timer interrupt with the given period in milliseconds. The
    /// returned handle is what stops it.
    pub fn start_timer_interrupt(&mut self, period_ms: u32) -> (r: Result<
        TimerInterrupt,
        TargetStartTimerInterruptError,
    >)
        ensures
            r is Ok <==> sendable(
                HostMsg::StartTimerInterrupt { period_ms },
                old(self).capacity(),
            ),
            r is Ok ==> final(self).outgoing() == old(self).outgoing() + command_frame(
                HostMsg::StartTimerInterrupt { period_ms },
            ) && r->Ok_0.period() == period_ms,
            r is Err ==> (r->Err_0.0 is BufferTooSmall),
            r is Err ==> final(self).outgoing() == old(self).outgoing(),
            final(self).pending() == old(self).pending(),
            final(self).capacity() == old(self).capacity(),
    {
        match self.send(&HostToTarget::StartTimerInterrupt { period_ms }) {
            Ok(()) => Ok(TimerInterrupt { period_ms }),
            Err(e) => Err(TargetStartTimerInterruptError(e)),
        }
    }

    /// Stops the timer interrupt that `timer` stands for, by queueing exactly
    /// one stop command. The handle is used up either way.
    pub fn stop_timer_interrupt(&mut self, timer: TimerInterrupt) -> (r: Result<(), ConnSendError>)
        ensures
            r is Ok <==> sendable(HostMsg::StopTimerInterrupt, old(self).capacity()),
            r is Ok ==> final(self).outgoing() == old(self).outgoing() + command_frame(
                HostMsg::StopTimerInterrupt,
            ),
            r is Err ==> (r->Err_0 is BufferTooSmall),
            r is Err ==> final(self).outgoing() == old(self).outgoing(),
            final(self).pending() == old(self).pending(),
            final(self).capacity() == old(self).capacity(),
    {
        self.send(&HostToTarget::StopTimerInterrupt)
    }

    /// Starts a PWM signal. The returned handle is what stops it.
    pub fn start_pwm_signal(&mut self) -> (r: Result<PwmSignal, TargetStartPwmSignalError>)
        ensures
            r is Ok <==> sendable(HostMsg::StartPwmSignal, old(self).capacity()),
            r is Ok ==> final(self).outgoing() == old(self).outgoing() + command_frame(
                HostMsg::StartPwmSignal,
            ),
            r is Err ==> (r->Err_0.0 is BufferTooSmall),
            r is Err ==> final(self).outgoing() == old(self).outgoing(),
            final(self).pending() == old(self).pending(),
            final(self).capacity() == old(self).capacity(),
    {
        match self.send(&HostToTarget::StartPwmSignal) {
            Ok(()) => Ok(PwmSignal { token: () }),
            Err(e) => Err(TargetStartPwmSignalError(e)),
        }
    }

    /// Stops the PWM signal that `signal` stands for, by queueing exactly one
    /// stop command. The handle is used up either way.
    pub fn stop_pwm_signal(&mut self, signal: PwmSignal) -> (r: Result<(), ConnSendError>)
        ensures
            r is Ok <==> sendable(HostMsg::StopPwmSignal, old(self).capacity()),
            r is Ok ==> final(self).outgoing() == old(self).outgoing() + command_frame(
                HostMsg::StopPwmSignal,
            ),
            r is Err ==> (r->Err_0 is BufferTooSmall),
            r is Err ==> final(self).outgoing() == old(self).outgoing(),
            final(self).pending() == old(self).pending(),
            final(self).capacity() == old(self).capacity(),
    {
        self.send(&HostToTarget::StopPwmSignal)
    }

    fn i2c_mode(&mut self, data: u8, mode: DmaMode) -> (r: Result<(), TargetI2cError>)
        ensures
            r is Ok <==> sendable(
                HostMsg::StartI2cTransaction { mode, address: I2C_ADDRESS, data },
                old(self).capacity(),
            ),
            r is Ok ==> final(self).outgoing() == old(self).outgoing() + command_frame(
                HostMsg::StartI2cTransaction { mode, address: I2C_ADDRESS, data },
            ),
            r is Err ==> (r->Err_0 matches TargetI2cError::Send(ConnSendError::BufferTooSmall)),
            r is Err ==> final(self).outgoing() == old(self).outgoing(),
            final(self).pending() == old(self).pending(),
            final(self).capacity() == old(self).capacity(),
    {
        match self.send(&HostToTarget::StartI2cTransaction { mode, address: I2C_ADDRESS, data }) {
            Ok(()) => Ok(()),
            Err(e) => Err(TargetI2cError::Send(e)),
        }
    }

    /// Starts an I2C transaction that writes `data` to the device and reads
    /// one byte back; the reply goes to `i2c_reply`.
    pub fn start_i2c_transaction(&mut self, data: u8) -> (r: Result<(), TargetI2cError>)
        ensures
            r is Ok <==> sendable(
                HostMsg::StartI2cTransaction { mode: DmaMode::Regular, address: I2C_ADDRESS, data },
                old(self).capacity(),
            ),
            r is Ok ==> final(self).outgoing() == old(self).outgoing() + command_frame(
                HostMsg::StartI2cTransaction { mode: DmaMode::Regular, address: I2C_ADDRESS, data },
            ),
            r is Err ==> (r->Err_0 matches TargetI2cError::Send(ConnSendError::BufferTooSmall)),
            r is Err ==> final(self).outgoing() == old(self).outgoing(),
            final(self).pending() == old(self).pending(),
            final(self).capacity() == old(self).capacity(),
    {
        self.i2c_mode(data, DmaMode::Regular)
    }

    /// As `start_i2c_transaction`, with the target using DMA.
    pub fn start_i2c_transaction_dma(&mut self, data: u8) -> (r: Result<(), TargetI2cError>)
        ensures
            r is Ok <==> sendable(
                HostMsg::StartI2cTransaction { mode: DmaMode::Dma, address: I2C_ADDRESS, data },
                old(self).capacity(),
            ),
            r is Ok ==> final(self).outgoing() == old(self).outgoing() + command_frame(
                HostMsg::StartI2cTransaction { mode: DmaMode::Dma, address: I2C_ADDRESS, data },
            ),
            r is Err ==> (r->Err_0 matches TargetI2cError::Send(ConnSendError::BufferTooSmall)),
            r is Err ==> final(self).outgoing() == old(self).outgoing(),
            final(self).pending() == old(self).pending(),
            final(self).capacity() == old(self).capacity(),
    {
        self.i2c_mode(data, DmaMode::Dma)
    }

    /// The byte that `reply` to an I2C transaction carries.
    pub fn i2c_reply(&self, reply: TargetToHost) -> (r: Result<u8, TargetI2cError>)
        ensures
            match reply@ {
                TargetMsg::I2cReply(b) => r == Ok::<u8, TargetI2cError>(b),
                _ => r matches Err(TargetI2cError::UnexpectedMessage(m)) && m@ == reply@,
            },
    {
        match reply {
            TargetToHost::I2cReply(b) => Ok(b),
            other => Err(TargetI2cError::UnexpectedMessage(other)),
        }
    }

    fn spi_mode(&mut self, data: u8, mode: DmaMode) -> (r: Result<(), TargetSpiError>)
        ensures
            r is Ok <==> sendable(
                HostMsg::StartSpiTransaction { mode, data },
                old(self).capacity(),
            ),
            r is Ok ==> final(self).outgoing() == old(self).outgoing() + command_frame(
                HostMsg::StartSpiTransaction { mode, data },
            ),
            r is Err ==> (r->Err_0 matches TargetSpiError::Send(ConnSendError::BufferTooSmall)),
            r is Err ==> final(self).outgoing() == old(self).outgoing(),
            final(self).pending() == old(self).pending(),
            final(self).capacity() == old(self).capacity(),
    {
        match self.send(&HostToTarget::StartSpiTransaction { mode, data }) {
            Ok(()) => Ok(()),
            Err(e) => Err(TargetSpiError::Send(e)),
        }
    }

    /// Starts an SPI transaction that sends `data` and reads one byte back;
    /// the reply goes to `spi_reply`.
    pub fn start_spi_transaction(&mut self, data: u8) -> (r: Result<(), TargetSpiError>)
        ensures
            r is Ok <==> sendable(
                HostMsg::StartSpiTransaction { mode: DmaMode::Regular, data },
                old(self).capacity(),
            ),
            r is Ok ==> final(self).outgoing() == old(self).outgoing() + command_frame(
                HostMsg::StartSpiTransaction { mode: DmaMode::Regular, data },
            ),
            r is Err ==> (r->Err_0 matches TargetSpiError::Send(ConnSendError::BufferTooSmall)),
            r is Err ==> final(self).outgoing() == old(self).outgoing(),
            final(self).pending() == old(self).pending(),
            final(self).capacity() == old(self).capacity(),
    {
        self.spi_mode(data, DmaMode::Regular)
    }

    /// As `start_spi_transaction`, with the target using DMA.
    pub fn start_spi_transaction_dma(&mut self, data: u8) -> (r: Result<(), TargetSpiError>)
        ensures
            r is Ok <==> sendable(
                HostMsg::StartSpiTransaction { mode: DmaMode::Dma, data },
                old(self).capacity(),
            ),
            r is Ok ==> final(self).outgoing() == old(self).outgoing() + command_frame(
                HostMsg::StartSpiTransaction { mode: DmaMode::Dma, data },
            ),
            r is Err ==> (r->Err_0 matches TargetSpiError::Send(ConnSendError::BufferTooSmall)),
            r is Err ==> final(self).outgoing() == old(self).outgoing(),
            final(self).pending() == old(self).pending(),
            final(self).capacity() == old(self).capacity(),
    {
        self.spi_mode(data, DmaMode::Dma)
    }

    /// The byte that `reply` to an SPI transaction carries.
    pub fn spi_reply(&self, reply: TargetToHost) -> (r: Result<u8, TargetSpiError>)
        ensures
            match reply@ {
                TargetMsg::SpiReply(b) => r == Ok::<u8, TargetSpiError>(b),
                _ => r matches Err(TargetSpiError::UnexpectedMessage(m)) && m@ == reply@,
            },
    {
        match reply {
            TargetToHost::SpiReply(b) => Ok(b),
            other => Err(TargetSpiError::UnexpectedMessage(other)),
        }
    }

    /// Asks the target for an ADC reading; the reply goes to `adc_reply`.
    pub fn read_adc(&mut self) -> (r: Result<(), ReadAdcError>)
        ensures
            r is Ok <==> sendable(HostMsg::ReadAdc, old(self).capacity()),
            r is Ok ==> final(self).outgoing() == old(self).outgoing() + command_frame(
                HostMsg::ReadAdc,
            ),
            r is Err ==> (r->Err_0 matches ReadAdcError::Send(ConnSendError::BufferTooSmall)),
            r is Err ==> final(self).outgoing() == old(self).outgoing(),
            final(self).pending() == old(self).pending(),
            final(self).capacity() == old(self).capacity(),
    {
        match self.send(&HostToTarget::ReadAdc) {
            Ok(()) => Ok(()),
            Err(e) => Err(ReadAdcError::Send(e)),
        }
    }

    /// The value that `reply` to an ADC reading carries.
    pub fn adc_reply(&self, reply: TargetToHost) -> (r: Result<u16, ReadAdcError>)
        ensures
            match reply@ {
                TargetMsg::AdcValue(v) => r == Ok::<u16, ReadAdcError>(v),
                _ => r matches Err(ReadAdcError::UnexpectedMessage(m)) && m@ == reply@,
            },
    {
        match reply {
            TargetToHost::AdcValue(v) => Ok(v),
            other => Err(ReadAdcError::UnexpectedMessage(other)),
        }
    }

    /// Begins waiting for `data` to arrive on the target's USART.
    pub fn wait_for_usart_rx(&self, data: &[u8]) -> (r: UsartWait)
        requires
            data.len() > 0,
        ensures
            r.expected() == data@,
            r.mode() == UsartMode::Regular,
            r.received() == Seq::<u8>::empty(),
    {
        UsartWait::new(data, UsartMode::Regular)
    }

    /// Begins waiting for `data` to arrive on the target's DMA-backed USART.
    pub fn wait_for_usart_rx_dma(&self, data: &[u8]) -> (r: UsartWait)
        requires
            data.len() > 0,
        ensures
            r.expected() == data@,
            r.mode() == UsartMode::Dma,
            r.received() == Seq::<u8>::empty(),
    {
        UsartWait::new(data, UsartMode::Dma)
    }

    /// Begins waiting for `data` to arrive on the target's synchronous USART.
    pub fn wait_for_usart_rx_sync(&self, data: &[u8]) -> (r: UsartWait)
        requires
            data.len() > 0,
        ensures
            r.expected() == data@,
            r.mode() == UsartMode::Sync,
            r.received() == Seq::<u8>::empty(),
    {
        UsartWait::new(data, UsartMode::Sync)
    }
}

/// Waiting for a byte string to show up in what the target reports having
/// received on one of its USARTs.
pub struct UsartWait {
    expected: Vec<u8>,
    mode: UsartMode,
    received: Vec<u8>,
}

impl UsartWait {
    pub closed spec fn expected(&self) -> Seq<u8> {
        self.expected@
    }

    pub closed spec fn mode(&self) -> UsartMode {
        self.mode
    }

    /// Everything reported so far, in order.
    pub closed spec fn received(&self) -> Seq<u8> {
        self.received@
    }

    /// Waits for `data` on the USART used in `mode`. An empty `data` is no
    /// byte string to wait for.
    pub fn new(data: &[u8], mode: UsartMode) -> (r: UsartWait)
        requires
            data.len() > 0,
        ensures
            r.expected() == data@,
            r.mode() == mode,
            r.received() == Seq::<u8>::empty(),
    {
        let mut expected: Vec<u8> = Vec::new();
        crate::cobs::push_range(&mut expected, data, 0, data.len());
        assert(data@.subrange(0, data.len() as int) =~= data@);
        UsartWait { expected, mode, received: Vec::new() }
    }

    /// Whether the expected bytes occur in what was received.
    pub fn found(&self) -> (r: bool)
        ensures
            r == contains(self.received(), self.expected()),
    {
        let h = &self.received;
        let e = &self.expected;
        if e.len() > h.len() {
            proof {
                assert forall|i: int| 0 <= i <= h@.len() - e@.len() implies #[trigger] h@.subrange(
                    i,
                    i + e@.len(),
                ) != e@ by {}
            }
            return false;
        }
        let last = h.len() - e.len();
        let mut i: usize = 0;
        while i <= last
            invariant
                h@ == self.received(),
                e@ == self.expected(),
                last == h.len() - e.len(),
                e.len() <= h.len(),
                i <= last + 1,
                forall|j: int| 0 <= j < i ==> #[trigger] h@.subrange(j, j + e@.len()) != e@,
            decreases last + 1 - i,
        {
            let mut k: usize = 0;
            while k < e.len() && h[i + k] == e[k]
                invariant
                    i <= last,
                    last == h.len() - e.len(),
                    k <= e.len(),
                    forall|m: int| 0 <= m < k ==> h@[i + m] == e@[m],
                decreases e.len() - k,
            {
                k = k + 1;
            }
            if k == e.len() {
                assert(h@.subrange(i as int, i as int + e@.len()) =~= e@);
                assert(contains(h@, e@));
                return true;
            }
            assert(h@.subrange(i as int, i + e@.len())[k as int] != e@[k as int]);
            i = i + 1;
        }
        false
    }

    /// What to do `elapsed_ms` into a wait with the given timeout: finish
    /// with everything received once the expected bytes are there, time out
    /// once the timeout is exceeded, and otherwise (`None`) receive the next
    /// message and hand it to `on_message`.
    pub fn poll(&self, elapsed_ms: u64, timeout_ms: u64) -> (r: Option<Result<Vec<u8>, TargetUsartWaitError>>)
        ensures
            contains(self.received(), self.expected()) ==> (r matches Some(Ok(v)) && v@
                == self.received()),
            !contains(self.received(), self.expected()) && elapsed_ms > timeout_ms ==> r matches Some(
                Err(TargetUsartWaitError::Timeout),
            ),
            !contains(self.received(), self.expected()) && elapsed_ms <= timeout_ms ==> r is None,
    {
        if self.found() {
            let mut v: Vec<u8> = Vec::new();
            crate::cobs::push_range(&mut v, self.received.as_slice(), 0, self.received.len());
            assert(self.received@.subrange(0, self.received.len() as int) =~= self.received@);
            Some(Ok(v))
        } else if elapsed_ms > timeout_ms {
            Some(Err(TargetUsartWaitError::Timeout))
        } else {
            None
        }
    }

    /// Takes in a received message: data reported from the awaited USART is
    /// appended; any other message is a protocol violation and changes
    /// nothing.
    pub fn on_message(&mut self, message: TargetToHost) -> (r: Result<(), TargetUsartWaitError>)
        ensures
            final(self).expected() == old(self).expected(),
            final(self).mode() == old(self).mode(),
            match message@ {
                TargetMsg::UsartReceive { mode, data } if mode == old(self).mode() => r is Ok
                    && final(self).received() == old(self).received() + data,
                _ => r matches Err(TargetUsartWaitError::UnexpectedMessage(m)) && m@ == message@
                    && final(self).received() == old(self).received(),
            },
    {
        match message {
            TargetToHost::UsartReceive { mode, data } => {
                if mode == self.mode {
                    crate::cobs::push_range(&mut self.received, data.as_slice(), 0, data.len());
                    assert(data@.subrange(0, data.len() as int) =~= data@);
                    Ok(())
                } else {
                    Err(TargetUsartWaitError::UnexpectedMessage(TargetToHost::UsartReceive { mode, data }))
                }
            },
            other => Err(TargetUsartWaitError::UnexpectedMessage(other)),
        }
    }
}

} // verus!
