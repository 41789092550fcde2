//! The closed set of messages between host and target, and their compact
//! byte encoding.
//!
//! A message is one tag byte followed by its fields in order: a mode or level
//! as one byte, `u8` as itself, `u16` and `u32` as little-endian bytes, and a
//! byte string as its length (a little-endian `u32`) followed by its bytes.

use vstd::prelude::*;

use crate::cobs::push_range;
use vstd::arithmetic::div_mod::{lemma_div_denominator, lemma_fundamental_div_mod_converse};

verus! {

/// Level of a digital pin.
#[derive(Debug, Clone, Copy, PartialEq, Eq, Structural)]
pub enum Level {
    High,
    Low,
}

/// Transfer strategy of a USART transmission or reception.
#[derive(Debug, Clone, Copy, PartialEq, Eq, Structural)]
pub enum UsartMode {
    Regular,
    Dma,
    Sync,
    FlowControl,
}

/// Transfer strategy of an I2C or SPI transaction.
#[derive(Debug, Clone, Copy, PartialEq, Eq, Structural)]
pub enum DmaMode {
    Regular,
    Dma,
}

/// A command sent from the host to the target.
#[derive(Debug, Clone, PartialEq, Eq)]
pub enum HostToTarget {
    SendUsart { mode: UsartMode, data: Vec<u8> },
    WaitForAddress(u8),
    SetPin(Level),
    ReadPin,
    StartTimerInterrupt { period_ms: u32 },
    StopTimerInterrupt,
    StartI2cTransaction { mode: DmaMode, address: u8, data: u8 },
    StartSpiTransaction { mode: DmaMode, data: u8 },
    StartPwmSignal,
    StopPwmSignal,
    ReadAdc,
}

/// A reply or telemetry message sent from the target to the host.
#[derive(Debug, Clone, PartialEq, Eq)]
pub enum TargetToHost {
    UsartReceive { mode: UsartMode, data: Vec<u8> },
    ReadPinResult(Level),
    I2cReply(u8),
    SpiReply(u8),
    AdcValue(u16),
}

/// Mathematical value of a `HostToTarget`.
pub enum HostMsg {
    SendUsart { mode: UsartMode, data: Seq<u8> },
    WaitForAddress(u8),
    SetPin(Level),
    ReadPin,
    StartTimerInterrupt { period_ms: u32 },
    StopTimerInterrupt,
    StartI2cTransaction { mode: DmaMode, address: u8, data: u8 },
    StartSpiTransaction { mode: DmaMode, data: u8 },
    StartPwmSignal,
    StopPwmSignal,
    ReadAdc,
}

/// Mathematical value of a `TargetToHost`.
pub enum TargetMsg {
    UsartReceive { mode: UsartMode, data: Seq<u8> },
    ReadPinResult(Level),
    I2cReply(u8),
    SpiReply(u8),
    AdcValue(u16),
}

impl View for HostToTarget {
    type V = HostMsg;

    open spec fn view(&self) -> HostMsg {
        match self {
            HostToTarget::SendUsart { mode, data } => HostMsg::SendUsart { mode: *mode, data: data@ },
            HostToTarget::WaitForAddress(a) => HostMsg::WaitForAddress(*a),
            HostToTarget::SetPin(l) => HostMsg::SetPin(*l),
            HostToTarget::ReadPin => HostMsg::ReadPin,
            HostToTarget::StartTimerInterrupt { period_ms } => HostMsg::StartTimerInterrupt {
                period_ms: *period_ms,
            },
            HostToTarget::StopTimerInterrupt => HostMsg::StopTimerInterrupt,
            HostToTarget::StartI2cTransaction { mode, address, data } =>
                HostMsg::StartI2cTransaction { mode: *mode, address: *address, data: *data },
            HostToTarget::StartSpiTransaction { mode, data } => HostMsg::StartSpiTransaction {
                mode: *mode,
                data: *data,
            },
            HostToTarget::StartPwmSignal => HostMsg::StartPwmSignal,
            HostToTarget::StopPwmSignal => HostMsg::StopPwmSignal,
            HostToTarget::ReadAdc => HostMsg::ReadAdc,
        }
    }
}

impl View for TargetToHost {
    type V = TargetMsg;

    open spec fn view(&self) -> TargetMsg {
        match self {
            TargetToHost::UsartReceive { mode, data } => TargetMsg::UsartReceive {
                mode: *mode,
                data: data@,
            },
            TargetToHost::ReadPinResult(l) => TargetMsg::ReadPinResult(*l),
            TargetToHost::I2cReply(b) => TargetMsg::I2cReply(*b),
            TargetToHost::SpiReply(b) => TargetMsg::SpiReply(*b),
            TargetToHost::AdcValue(v) => TargetMsg::AdcValue(*v),
        }
    }
}

/// A message can be encoded when its byte string's length fits a `u32`.
pub open spec fn host_msg_wf(m: HostMsg) -> bool {
    match m {
        HostMsg::SendUsart { data, .. } => data.len() <= u32::MAX,
        _ => true,
    }
}

/// A message can be encoded when its byte string's length fits a `u32`.
pub open spec fn target_msg_wf(m: TargetMsg) -> bool {
    match m {
        TargetMsg::UsartReceive { data, .. } => data.len() <= u32::MAX,
        _ => true,
    }
}

// ---- field encodings ----

pub open spec fn usart_mode_byte(m: UsartMode) -> u8 {
    match m {
        UsartMode::Regular => 0,
        UsartMode::Dma => 1,
        UsartMode::Sync => 2,
        UsartMode::FlowControl => 3,
    }
}

pub open spec fn usart_mode_of(b: u8) -> Option<UsartMode> {
    if b == 0 {
        Some(UsartMode::Regular)
    } else if b == 1 {
        Some(UsartMode::Dma)
    } else if b == 2 {
        Some(UsartMode::Sync)
    } else if b == 3 {
        Some(UsartMode::FlowControl)
    } else {
        None
    }
}

pub open spec fn dma_mode_byte(m: DmaMode) -> u8 {
    match m {
        DmaMode::Regular => 0,
        DmaMode::Dma => 1,
    }
}

pub open spec fn dma_mode_of(b: u8) -> Option<DmaMode> {
    if b == 0 {
        Some(DmaMode::Regular)
    } else if b == 1 {
        Some(DmaMode::Dma)
    } else {
        None
    }
}

pub open spec fn level_byte(l: Level) -> u8 {
    match l {
        Level::High => 1,
        Level::Low => 0,
    }
}

pub open spec fn level_of(b: u8) -> Option<Level> {
    if b == 1 {
        Some(Level::High)
    } else if b == 0 {
        Some(Level::Low)
    } else {
        None
    }
}

pub open spec fn le_u16(v: u16) -> Seq<u8> {
    seq![(v % 256) as u8, (v / 256) as u8]
}

pub open spec fn le_u32(v: u32) -> Seq<u8> {
    seq![(v % 256) as u8, ((v / 256) % 256) as u8, ((v / 65536) % 256) as u8, (v / 16777216) as u8]
}

/// Value of two little-endian bytes at `at`.
pub open spec fn u16_at(s: Seq<u8>, at: int) -> u16 {
    (s[at] + 256 * s[at + 1]) as u16
}

/// Value of four little-endian bytes at `at`.
pub open spec fn u32_at(s: Seq<u8>, at: int) -> u32 {
    (s[at] + 256 * s[at + 1] + 65536 * s[at + 2] + 16777216 * s[at + 3]) as u32
}

// ---- whole messages ----

pub open spec fn host_encoding(m: HostMsg) -> Seq<u8> {
    match m {
        HostMsg::SendUsart { mode, data } => seq![0u8, usart_mode_byte(mode)] + le_u32(
            data.len() as u32,
        ) + data,
        HostMsg::WaitForAddress(a) => seq![1u8, a],
        HostMsg::SetPin(l) => seq![2u8, level_byte(l)],
        HostMsg::ReadPin => seq![3u8],
        HostMsg::StartTimerInterrupt { period_ms } => seq![4u8] + le_u32(period_ms),
        HostMsg::StopTimerInterrupt => seq![5u8],
        HostMsg::StartI2cTransaction { mode, address, data } => seq![
            6u8,
            dma_mode_byte(mode),
            address,
            data,
        ],
        HostMsg::StartSpiTransaction { mode, data } => seq![7u8, dma_mode_byte(mode), data],
        HostMsg::StartPwmSignal => seq![8u8],
        HostMsg::StopPwmSignal => seq![9u8],
        HostMsg::ReadAdc => seq![10u8],
    }
}

pub open spec fn host_decoding(b: Seq<u8>) -> Option<HostMsg> {
    if b.len() == 0 {
        None
    } else if b[0] == 0 {
        if b.len() >= 6 && usart_mode_of(b[1]).is_some() && b.len() - 6 == u32_at(b, 2) {
            Some(HostMsg::SendUsart { mode: usart_mode_of(b[1]).unwrap(), data: b.subrange(6, b.len() as int) })
        } else {
            None
        }
    } else if b[0] == 1 {
        if b.len() == 2 { Some(HostMsg::WaitForAddress(b[1])) } else { None }
    } else if b[0] == 2 {
        if b.len() == 2 && level_of(b[1]).is_some() {
            Some(HostMsg::SetPin(level_of(b[1]).unwrap()))
        } else {
            None
        }
    } else if b[0] == 4 {
        if b.len() == 5 {
            Some(HostMsg::StartTimerInterrupt { period_ms: u32_at(b, 1) })
        } else {
            None
        }
    } else if b[0] == 6 {
        if b.len() == 4 && dma_mode_of(b[1]).is_some() {
            Some(HostMsg::StartI2cTransaction { mode: dma_mode_of(b[1]).unwrap(), address: b[2], data: b[3] })
        } else {
            None
        }
    } else if b[0] == 7 {
        if b.len() == 3 && dma_mode_of(b[1]).is_some() {
            Some(HostMsg::StartSpiTransaction { mode: dma_mode_of(b[1]).unwrap(), data: b[2] })
        } else {
            None
        }
    } else if b.len() != 1 {
        None
    } else if b[0] == 3 {
        Some(HostMsg::ReadPin)
    } else if b[0] == 5 {
        Some(HostMsg::StopTimerInterrupt)
    } else if b[0] == 8 {
        Some(HostMsg::StartPwmSignal)
    } else if b[0] == 9 {
        Some(HostMsg::StopPwmSignal)
    } else if b[0] == 10 {
        Some(HostMsg::ReadAdc)
    } else {
        None
    }
}

pub open spec fn target_encoding(m: TargetMsg) -> Seq<u8> {
    match m {
        TargetMsg::UsartReceive { mode, data } => seq![0u8, usart_mode_byte(mode)] + le_u32(
            data.len() as u32,
        ) + data,
        TargetMsg::ReadPinResult(l) => seq![1u8, level_byte(l)],
        TargetMsg::I2cReply(b) => seq![2u8, b],
        TargetMsg::SpiReply(b) => seq![3u8, b],
        TargetMsg::AdcValue(v) => seq![4u8] + le_u16(v),
    }
}

pub open spec fn target_decoding(b: Seq<u8>) -> Option<TargetMsg> {
    if b.len() == 0 {
        None
    } else if b[0] == 0 {
        if b.len() >= 6 && usart_mode_of(b[1]).is_some() && b.len() - 6 == u32_at(b, 2) {
            Some(TargetMsg::UsartReceive { mode: usart_mode_of(b[1]).unwrap(), data: b.subrange(6, b.len() as int) })
        } else {
            None
        }
    } else if b[0] == 1 {
        if b.len() == 2 && level_of(b[1]).is_some() {
            Some(TargetMsg::ReadPinResult(level_of(b[1]).unwrap()))
        } else {
            None
        }
    } else if b[0] == 2 {
        if b.len() == 2 { Some(TargetMsg::I2cReply(b[1])) } else { None }
    } else if b[0] == 3 {
        if b.len() == 2 { Some(TargetMsg::SpiReply(b[1])) } else { None }
    } else if b[0] == 4 {
        if b.len() == 3 { Some(TargetMsg::AdcValue(u16_at(b, 1))) } else { None }
    } else {
        None
    }
}

/// Four little-endian bytes read back as the value they encode.
pub proof fn lemma_le_u32(v: u32)
    ensures
        le_u32(v).len() == 4,
        u32_at(le_u32(v), 0) == v,
        forall|s: Seq<u8>, at: int|
            0 <= at && at + 4 <= s.len() && s.subrange(at, at + 4) == le_u32(v) ==> #[trigger] u32_at(s, at) == v,
{
    let s = le_u32(v);
    assert(v == (v % 256) + 256 * ((v / 256) % 256) + 65536 * ((v / 65536) % 256) + 16777216 * (v
        / 16777216)) by (nonlinear_arith);
    assert forall|t: Seq<u8>, at: int|
        0 <= at && at + 4 <= t.len() && t.subrange(at, at + 4) == le_u32(v) implies #[trigger] u32_at(t, at) == v by {
        assert(t[at] == t.subrange(at, at + 4)[0]);
        assert(t[at + 1] == t.subrange(at, at + 4)[1]);
        assert(t[at + 2] == t.subrange(at, at + 4)[2]);
        assert(t[at + 3] == t.subrange(at, at + 4)[3]);
    }
}

/// Two little-endian bytes read back as the value they encode.
pub proof fn lemma_le_u16(v: u16)
    ensures
        le_u16(v).len() == 2,
        forall|s: Seq<u8>, at: int|
            0 <= at && at + 2 <= s.len() && s.subrange(at, at + 2) == le_u16(v) ==> #[trigger] u16_at(s, at) == v,
{
    assert(v == (v % 256) + 256 * (v / 256)) by (nonlinear_arith);
    assert forall|t: Seq<u8>, at: int|
        0 <= at && at + 2 <= t.len() && t.subrange(at, at + 2) == le_u16(v) implies #[trigger] u16_at(t, at) == v by {
        assert(t[at] == t.subrange(at, at + 2)[0]);
        assert(t[at + 1] == t.subrange(at, at + 2)[1]);
    }
}

/// Four bytes read as a little-endian value encode back to those bytes.
pub proof fn lemma_u32_at_bytes(s: Seq<u8>, at: int)
    requires
        0 <= at,
        at + 4 <= s.len(),
    ensures
        le_u32(u32_at(s, at)) == s.subrange(at, at + 4),
{
    let b0 = s[at] as int;
    let b1 = s[at + 1] as int;
    let b2 = s[at + 2] as int;
    let b3 = s[at + 3] as int;
    let v = b0 + 256 * b1 + 65536 * b2 + 16777216 * b3;
    let q1 = b1 + 256 * b2 + 65536 * b3;
    let q2 = b2 + 256 * b3;
    assert(v == q1 * 256 + b0);
    assert(q1 == q2 * 256 + b1);
    assert(q2 == b3 * 256 + b2);
    lemma_fundamental_div_mod_converse(v, 256, q1, b0);
    lemma_fundamental_div_mod_converse(q1, 256, q2, b1);
    lemma_fundamental_div_mod_converse(q2, 256, b3, b2);
    lemma_div_denominator(v, 256, 256);
    lemma_div_denominator(v, 65536, 256);
    assert(v / 65536 == q2);
    assert(v / 16777216 == b3);
    assert(u32_at(s, at) as int == v);
    assert(le_u32(u32_at(s, at)) =~= s.subrange(at, at + 4));
}

/// Two bytes read as a little-endian value encode back to those bytes.
pub proof fn lemma_u16_at_bytes(s: Seq<u8>, at: int)
    requires
        0 <= at,
        at + 2 <= s.len(),
    ensures
        le_u16(u16_at(s, at)) == s.subrange(at, at + 2),
{
    let b0 = s[at] as int;
    let b1 = s[at + 1] as int;
    let v = b0 + 256 * b1;
    lemma_fundamental_div_mod_converse(v, 256, b1, b0);
    assert(u16_at(s, at) as int == v);
    assert(le_u16(u16_at(s, at)) =~= s.subrange(at, at + 2));
}

/// A decoded command is the one whose encoding the bytes are: decoding
/// accepts nothing but encodings.
pub proof fn lemma_host_decoding_canonical(b: Seq<u8>)
    ensures
        host_decoding(b) matches Some(m) ==> host_encoding(m) == b,
{
    if let Some(m) = host_decoding(b) {
        if b[0] == 0 {
            lemma_u32_at_bytes(b, 2);
            assert(b =~= seq![0u8, b[1]] + b.subrange(2, 6) + b.subrange(6, b.len() as int));
        } else if b[0] == 4 {
            lemma_u32_at_bytes(b, 1);
            assert(b =~= seq![4u8] + b.subrange(1, 5));
        }
        assert(host_encoding(m) =~= b);
    }
}

/// A decoded reply or telemetry message is the one whose encoding the bytes
/// are: decoding accepts nothing but encodings.
pub proof fn lemma_target_decoding_canonical(b: Seq<u8>)
    ensures
        target_decoding(b) matches Some(m) ==> target_encoding(m) == b,
{
    if let Some(m) = target_decoding(b) {
        if b[0] == 0 {
            lemma_u32_at_bytes(b, 2);
            assert(b =~= seq![0u8, b[1]] + b.subrange(2, 6) + b.subrange(6, b.len() as int));
        } else if b[0] == 4 {
            lemma_u16_at_bytes(b, 1);
            assert(b =~= seq![4u8] + b.subrange(1, 3));
        }
        assert(target_encoding(m) =~= b);
    }
}

/// Message law, host to target: decoding the encoding of any command gives
/// the command back.
pub proof fn lemma_host_round_trip(m: HostMsg)
    requires
        host_msg_wf(m),
    ensures
        host_decoding(host_encoding(m)) == Some(m),
{
    let b = host_encoding(m);
    match m {
        HostMsg::SendUsart { mode, data } => {
            lemma_le_u32(data.len() as u32);
            assert(b.subrange(2, 6) =~= le_u32(data.len() as u32));
            assert(b.subrange(6, b.len() as int) =~= data);
        },
        HostMsg::StartTimerInterrupt { period_ms } => {
            lemma_le_u32(period_ms);
            assert(b.subrange(1, 5) =~= le_u32(period_ms));
        },
        _ => {},
    }
}

/// Message law, target to host: decoding the encoding of any reply or
/// telemetry message gives the message back.
pub proof fn lemma_target_round_trip(m: TargetMsg)
    requires
        target_msg_wf(m),
    ensures
        target_decoding(target_encoding(m)) == Some(m),
{
    let b = target_encoding(m);
    match m {
        TargetMsg::UsartReceive { mode, data } => {
            lemma_le_u32(data.len() as u32);
            assert(b.subrange(2, 6) =~= le_u32(data.len() as u32));
            assert(b.subrange(6, b.len() as int) =~= data);
        },
        TargetMsg::AdcValue(v) => {
            lemma_le_u16(v);
            assert(b.subrange(1, 3) =~= le_u16(v));
        },
        _ => {},
    }
}

// ---- executable encoding ----

fn usart_mode_to_byte(m: UsartMode) -> (r: u8)
    ensures
        r == usart_mode_byte(m),
{
    match m {
        UsartMode::Regular => 0,
        UsartMode::Dma => 1,
        UsartMode::Sync => 2,
        UsartMode::FlowControl => 3,
    }
}

fn usart_mode_from_byte(b: u8) -> (r: Option<UsartMode>)
    ensures
        r == usart_mode_of(b),
{
    if b == 0 {
        Some(UsartMode::Regular)
    } else if b == 1 {
        Some(UsartMode::Dma)
    } else if b == 2 {
        Some(UsartMode::Sync)
    } else if b == 3 {
        Some(UsartMode::FlowControl)
    } else {
        None
    }
}

fn dma_mode_to_byte(m: DmaMode) -> (r: u8)
    ensures
        r == dma_mode_byte(m),
{
    match m {
        DmaMode::Regular => 0,
        DmaMode::Dma => 1,
    }
}

fn dma_mode_from_byte(b: u8) -> (r: Option<DmaMode>)
    ensures
        r == dma_mode_of(b),
{
    if b == 0 {
        Some(DmaMode::Regular)
    } else if b == 1 {
        Some(DmaMode::Dma)
    } else {
        None
    }
}

fn level_to_byte(l: Level) -> (r: u8)
    ensures
        r == level_byte(l),
{
    match l {
        Level::High => 1,
        Level::Low => 0,
    }
}

fn level_from_byte(b: u8) -> (r: Option<Level>)
    ensures
        r == level_of(b),
{
    if b == 1 {
        Some(Level::High)
    } else if b == 0 {
        Some(Level::Low)
    } else {
        None
    }
}

fn push_u32_le(out: &mut Vec<u8>, v: u32)
    ensures
        final(out)@ == old(out)@ + le_u32(v),
{
    out.push((v % 256) as u8);
    out.push(((v / 256) % 256) as u8);
    out.push(((v / 65536) % 256) as u8);
    out.push((v / 16777216) as u8);
    assert(final(out)@ =~= old(out)@ + le_u32(v));
}

fn read_u32_le(b: &[u8], at: usize) -> (r: u32)
    requires
        at + 4 <= b.len(),
    ensures
        r == u32_at(b@, at as int),
{
    b[at] as u32 + 256 * (b[at + 1] as u32) + 65536 * (b[at + 2] as u32) + 16777216 * (b[at
        + 3] as u32)
}

fn read_u16_le(b: &[u8], at: usize) -> (r: u16)
    requires
        at + 2 <= b.len(),
    ensures
        r == u16_at(b@, at as int),
{
    b[at] as u16 + 256 * (b[at + 1] as u16)
}

/// Appends a byte string: its length, then its bytes.
fn push_bytes(out: &mut Vec<u8>, data: &Vec<u8>)
    requires
        data.len() <= u32::MAX,
    ensures
        final(out)@ == old(out)@ + le_u32(data.len() as u32) + data@,
{
    push_u32_le(out, data.len() as u32);
    push_range(out, data.as_slice(), 0, data.len());
    assert(data@.subrange(0, data.len() as int) =~= data@);
}

impl HostToTarget {
    /// Encodes this command into its compact byte form.
    pub fn serialize(&self) -> (r: Vec<u8>)
        requires
            host_msg_wf(self@),
        ensures
            r@ == host_encoding(self@),
    {
        let mut out: Vec<u8> = Vec::new();
        match self {
            HostToTarget::SendUsart { mode, data } => {
                out.push(0u8);
                out.push(usart_mode_to_byte(*mode));
                push_bytes(&mut out, data);
            },
            HostToTarget::WaitForAddress(a) => {
                out.push(1u8);
                out.push(*a);
            },
            HostToTarget::SetPin(l) => {
                out.push(2u8);
                out.push(level_to_byte(*l));
            },
            HostToTarget::ReadPin => {
                out.push(3u8);
            },
            HostToTarget::StartTimerInterrupt { period_ms } => {
                out.push(4u8);
                push_u32_le(&mut out, *period_ms);
            },
            HostToTarget::StopTimerInterrupt => {
                out.push(5u8);
            },
            HostToTarget::StartI2cTransaction { mode, address, data } => {
                out.push(6u8);
                out.push(dma_mode_to_byte(*mode));
                out.push(*address);
                out.push(*data);
            },
            HostToTarget::StartSpiTransaction { mode, data } => {
                out.push(7u8);
                out.push(dma_mode_to_byte(*mode));
                out.push(*data);
            },
            HostToTarget::StartPwmSignal => {
                out.push(8u8);
            },
            HostToTarget::StopPwmSignal => {
                out.push(9u8);
            },
            HostToTarget::ReadAdc => {
                out.push(10u8);
            },
        }
        assert(out@ =~= host_encoding(self@));
        out
    }

    /// Decodes a command from exactly the bytes `b`; it succeeds exactly on
    /// the encodings of commands.
    pub fn deserialize(b: &[u8]) -> (r: Option<HostToTarget>)
        ensures
            match r {
                Some(m) => host_decoding(b@) == Some(m@),
                None => host_decoding(b@) is None,
            },
            r matches Some(m) ==> host_encoding(m@) == b@,
    {
        proof {
            lemma_host_decoding_canonical(b@);
        }
        let n = b.len();
        if n == 0 {
            return None;
        }
        let tag = b[0];
        if tag == 0 {
            if n < 6 {
                return None;
            }
            let mode = match usart_mode_from_byte(b[1]) {
                Some(m) => m,
                None => return None,
            };
            let len = read_u32_le(b, 2);
            if (n - 6) as u64 != len as u64 {
                return None;
            }
            let mut data: Vec<u8> = Vec::new();
            push_range(&mut data, b, 6, n);
            Some(HostToTarget::SendUsart { mode, data })
        } else if tag == 1 {
            if n == 2 { Some(HostToTarget::WaitForAddress(b[1])) } else { None }
        } else if tag == 2 {
            if n != 2 {
                return None;
            }
            match level_from_byte(b[1]) {
                Some(l) => Some(HostToTarget::SetPin(l)),
                None => None,
            }
        } else if tag == 4 {
            if n == 5 {
                Some(HostToTarget::StartTimerInterrupt { period_ms: read_u32_le(b, 1) })
            } else {
                None
            }
        } else if tag == 6 {
            if n != 4 {
                return None;
            }
            match dma_mode_from_byte(b[1]) {
                Some(mode) => Some(HostToTarget::StartI2cTransaction { mode, address: b[2], data: b[3] }),
                None => None,
            }
        } else if tag == 7 {
            if n != 3 {
                return None;
            }
            match dma_mode_from_byte(b[1]) {
                Some(mode) => Some(HostToTarget::StartSpiTransaction { mode, data: b[2] }),
                None => None,
            }
        } else if n != 1 {
            None
        } else if tag == 3 {
            Some(HostToTarget::ReadPin)
        } else if tag == 5 {
            Some(HostToTarget::StopTimerInterrupt)
        } else if tag == 8 {
            Some(HostToTarget::StartPwmSignal)
        } else if tag == 9 {
            Some(HostToTarget::StopPwmSignal)
        } else if tag == 10 {
            Some(HostToTarget::ReadAdc)
        } else {
            None
        }
    }
}

impl TargetToHost {
    /// A copy of this message.
    pub fn clone_message(&self) -> (r: TargetToHost)
        ensures
            r@ == self@,
    {
        match self {
            TargetToHost::UsartReceive { mode, data } => {
                let mut copy: Vec<u8> = Vec::new();
                push_range(&mut copy, data.as_slice(), 0, data.len());
                assert(data@.subrange(0, data.len() as int) =~= data@);
                TargetToHost::UsartReceive { mode: *mode, data: copy }
            },
            TargetToHost::ReadPinResult(l) => TargetToHost::ReadPinResult(*l),
            TargetToHost::I2cReply(b) => TargetToHost::I2cReply(*b),
            TargetToHost::SpiReply(b) => TargetToHost::SpiReply(*b),
            TargetToHost::AdcValue(v) => TargetToHost::AdcValue(*v),
        }
    }

    /// Encodes this message into its compact byte form.
    pub fn serialize(&self) -> (r: Vec<u8>)
        requires
            target_msg_wf(self@),
        ensures
            r@ == target_encoding(self@),
    {
        let mut out: Vec<u8> = Vec::new();
        match self {
            TargetToHost::UsartReceive { mode, data } => {
                out.push(0u8);
                out.push(usart_mode_to_byte(*mode));
                push_bytes(&mut out, data);
            },
            TargetToHost::ReadPinResult(l) => {
                out.push(1u8);
                out.push(level_to_byte(*l));
            },
            TargetToHost::I2cReply(v) => {
                out.push(2u8);
                out.push(*v);
            },
            TargetToHost::SpiReply(v) => {
                out.push(3u8);
                out.push(*v);
            },
            TargetToHost::AdcValue(v) => {
                out.push(4u8);
                out.push((*v % 256) as u8);
                out.push((*v / 256) as u8);
            },
        }
        assert(out@ =~= target_encoding(self@));
        out
    }

    /// Decodes a message from exactly the bytes `b`; it succeeds exactly on
    /// the encodings of messages.
    pub fn deserialize(b: &[u8]) -> (r: Option<TargetToHost>)
        ensures
            match r {
                Some(m) => target_decoding(b@) == Some(m@),
                None => target_decoding(b@) is None,
            },
            r matches Some(m) ==> target_encoding(m@) == b@,
    {
        proof {
            lemma_target_decoding_canonical(b@);
        }
        let n = b.len();
        if n == 0 {
            return None;
        }
        let tag = b[0];
        if tag == 0 {
            if n < 6 {
                return None;
            }
            let mode = match usart_mode_from_byte(b[1]) {
                Some(m) => m,
                None => return None,
            };
            let len = read_u32_le(b, 2);
            if (n - 6) as u64 != len as u64 {
                return None;
            }
            let mut data: Vec<u8> = Vec::new();
            push_range(&mut data, b, 6, n);
            Some(TargetToHost::UsartReceive { mode, data })
        } else if tag == 1 {
            if n != 2 {
                return None;
            }
            match level_from_byte(b[1]) {
                Some(l) => Some(TargetToHost::ReadPinResult(l)),
                None => None,
            }
        } else if tag == 2 {
            if n == 2 { Some(TargetToHost::I2cReply(b[1])) } else { None }
        } else if tag == 3 {
            if n == 2 { Some(TargetToHost::SpiReply(b[1])) } else { None }
        } else if tag == 4 {
            if n == 3 { Some(TargetToHost::AdcValue(read_u16_le(b, 1))) } else { None }
        } else {
            None
        }
    }
}

} // verus!
