//! The host's side of the channel: turns commands into frames, and an
//! unreliable stream of bytes back into ordered replies.
//!
//! The channel itself (reading, writing, clocks) is driven by the caller:
//! bytes read are handed to `feed`, and `receive_step` says at every point
//! what to do next.

use vstd::prelude::*;

use crate::cobs::{
    decode, encode_to_buffer, find_sentinel, find_terminator, frame_decode, frame_of,
    lemma_encode_len, lemma_find_sentinel, lemma_frame_round_trip, push_range, FrameError,
};
use crate::message::{
    host_encoding, host_msg_wf, target_decoding, target_encoding, target_msg_wf,
    lemma_target_round_trip, HostMsg, HostToTarget, TargetMsg, TargetToHost,
};

verus! {

#[verifier::external_type_specification]
#[verifier::external_body]
pub struct ExIoError(std::io::Error);

/// Why a received frame could not be turned into a message.
#[derive(Debug, Clone, Copy, PartialEq, Eq, Structural)]
pub enum DecodeError {
    /// The frame was not a valid stuffed encoding.
    Frame(FrameError),
    /// The frame's payload is not a known message.
    Message,
}

/// Why a command could not be sent.
#[derive(Debug)]
pub enum ConnSendError {
    /// Writing to the channel failed.
    Io(std::io::Error),
    /// The framed command does not fit the send buffer.
    BufferTooSmall,
}

/// Why no reply could be received.
#[derive(Debug)]
pub enum ConnReceiveError {
    /// Reading from the channel failed.
    Io(std::io::Error),
    /// No complete frame arrived before the timeout.
    Timeout,
    /// A complete frame arrived, but it could not be decoded.
    Decode(DecodeError),
}

/// What decoding one complete frame (sentinel included) gives.
pub open spec fn decode_reply(f: Seq<u8>) -> Result<TargetMsg, DecodeError> {
    match frame_decode(f) {
        Err(e) => Err(DecodeError::Frame(e)),
        Ok(p) => match target_decoding(p) {
            None => Err(DecodeError::Message),
            Some(m) => Ok(m),
        },
    }
}

/// Whether `pending` holds a complete frame.
pub open spec fn has_frame(pending: Seq<u8>) -> bool {
    find_sentinel(pending, 0) < pending.len()
}

/// The first complete frame in `pending`, sentinel included.
pub open spec fn first_frame(pending: Seq<u8>) -> Seq<u8> {
    pending.subrange(0, find_sentinel(pending, 0) as int + 1)
}

/// What is left of `pending` once its first frame is taken.
pub open spec fn after_first_frame(pending: Seq<u8>) -> Seq<u8> {
    pending.subrange(find_sentinel(pending, 0) as int + 1, pending.len() as int)
}

/// The frame that carries a command on the wire.
pub open spec fn command_frame(m: HostMsg) -> Seq<u8> {
    frame_of(host_encoding(m))
}

/// The frame that carries a reply or telemetry message on the wire.
pub open spec fn reply_frame(m: TargetMsg) -> Seq<u8> {
    frame_of(target_encoding(m))
}

/// How long a receive step that found no complete frame asks to read:
/// until the deadline; `None` once the deadline is reached.
pub open spec fn read_wait(elapsed_ms: u64, timeout_ms: u64) -> Option<u64> {
    if elapsed_ms < timeout_ms {
        Some((timeout_ms - elapsed_ms) as u64)
    } else {
        None
    }
}

/// One receive step, from the pending bytes `pending`, gives `r` and leaves
/// `after` pending: a complete frame is taken and decoded, bytes after it
/// stay; without one nothing is consumed, and the step asks for a read that
/// ends by the deadline, or times out once the deadline is reached.
pub open spec fn receive_step_spec(
    pending: Seq<u8>,
    elapsed_ms: u64,
    timeout_ms: u64,
    r: ReceiveStep,
    after: Seq<u8>,
) -> bool {
    if has_frame(pending) {
        &&& after == after_first_frame(pending)
        &&& match r {
            ReceiveStep::Received(m) => decode_reply(first_frame(pending)) == Ok::<
                TargetMsg,
                DecodeError,
            >(m@),
            ReceiveStep::Failed(ConnReceiveError::Decode(e)) => decode_reply(first_frame(pending))
                == Err::<TargetMsg, DecodeError>(e),
            _ => false,
        }
    } else {
        &&& after == pending
        &&& match read_wait(elapsed_ms, timeout_ms) {
            Some(w) => r == ReceiveStep::Read { wait_ms: w },
            None => r matches ReceiveStep::Failed(ConnReceiveError::Timeout),
        }
    }
}

/// What the caller of `receive_step` is to do next.
#[derive(Debug)]
pub enum ReceiveStep {
    /// A complete frame was taken from the buffer and decoded.
    Received(TargetToHost),
    /// The receive has failed.
    Failed(ConnReceiveError),
    /// No complete frame yet: read from the channel, waiting at most
    /// `wait_ms` milliseconds, hand the bytes to `feed`, and step again.
    Read { wait_ms: u64 },
}

/// The host's connection state: the bytes read but not yet consumed, and the
/// size of the buffer a framed command must fit.
pub struct Conn {
    buf: Vec<u8>,
    send_capacity: usize,
}

impl Conn {
    /// Bytes read from the channel and not yet consumed.
    pub closed spec fn pending(&self) -> Seq<u8> {
        self.buf@
    }

    pub closed spec fn capacity(&self) -> nat {
        self.send_capacity as nat
    }

    /// A connection with nothing pending, whose framed commands must fit
    /// `send_capacity` bytes.
    pub fn new(send_capacity: usize) -> (r: Conn)
        ensures
            r.pending() == Seq::<u8>::empty(),
            r.capacity() == send_capacity,
    {
        Conn { buf: Vec::new(), send_capacity }
    }

    /// The size of the buffer a framed command must fit.
    pub fn send_capacity(&self) -> (r: usize)
        ensures
            r == self.capacity(),
    {
        self.send_capacity
    }

    /// Bytes read from the channel and not yet consumed.
    pub fn pending_bytes(&self) -> (r: &[u8])
        ensures
            r@ == self.pending(),
    {
        self.buf.as_slice()
    }

    /// Serializes and frames a command, ready to be written to the channel
    /// in one piece.
    pub fn encode_command(&self, m: &HostToTarget) -> (r: Result<Vec<u8>, ConnSendError>)
        ensures
            host_msg_wf(m@) && command_frame(m@).len() <= self.capacity() <==> r is Ok,
            r is Ok ==> r->Ok_0@ == command_frame(m@),
            r is Err ==> r->Err_0 is BufferTooSmall,
    {
        if let HostToTarget::SendUsart { data, .. } = m {
            if data.len() > self.send_capacity || data.len() as u64 > u32::MAX as u64 {
                proof {
                    lemma_encode_len(host_encoding(m@));
                    assert(host_encoding(m@).len() >= data.len());
                }
                return Err(ConnSendError::BufferTooSmall);
            }
        }
        let bytes = m.serialize();
        match encode_to_buffer(bytes.as_slice(), self.send_capacity) {
            Ok(f) => Ok(f),
            Err(_) => Err(ConnSendError::BufferTooSmall),
        }
    }

    /// Appends bytes read from the channel.
    pub fn feed(&mut self, bytes: &[u8])
        ensures
            final(self).pending() == old(self).pending() + bytes@,
            final(self).capacity() == old(self).capacity(),
    {
        push_range(&mut self.buf, bytes, 0, bytes.len());
        assert(bytes@.subrange(0, bytes.len() as int) =~= bytes@);
    }

    /// Takes the first complete frame from the pending bytes, if there is
    /// one, and decodes it. Bytes after its sentinel stay pending.
    pub fn take_message(&mut self) -> (r: Option<Result<TargetToHost, DecodeError>>)
        ensures
            final(self).capacity() == old(self).capacity(),
            !has_frame(old(self).pending()) ==> r is None && final(self).pending() == old(self).pending(),
            has_frame(old(self).pending()) ==> r is Some && final(self).pending()
                == after_first_frame(old(self).pending()) && match r->Some_0 {
                Ok(m) => decode_reply(first_frame(old(self).pending())) == Ok::<
                    TargetMsg,
                    DecodeError,
                >(m@),
                Err(e) => decode_reply(first_frame(old(self).pending())) == Err::<
                    TargetMsg,
                    DecodeError,
                >(e),
            },
    {
        let ghost p = self.buf@;
        let z = find_terminator(self.buf.as_slice());
        if z >= self.buf.len() {
            return None;
        }
        let mut frame: Vec<u8> = Vec::new();
        push_range(&mut frame, self.buf.as_slice(), 0, z + 1);
        let mut rest: Vec<u8> = Vec::new();
        push_range(&mut rest, self.buf.as_slice(), z + 1, self.buf.len());
        self.buf = rest;
        proof {
            let f = frame@;
            lemma_find_sentinel(f, 0);
            lemma_find_sentinel(p, 0);
            assert(f[z as int] == p[z as int]);
            assert forall|m: int| 0 <= m < z implies f[m] != 0 by {
                assert(f[m] == p[m]);
            }
            if find_sentinel(f, 0) < z {
                assert(f[find_sentinel(f, 0) as int] == p[find_sentinel(f, 0) as int]);
            }
            assert(find_sentinel(f, 0) == z);
            assert(f.subrange(0, z as int) =~= p.subrange(0, z as int));
        }
        let res = match decode(frame.as_slice()) {
            Err(e) => Err(DecodeError::Frame(e)),
            Ok(payload) => match TargetToHost::deserialize(payload.as_slice()) {
                None => Err(DecodeError::Message),
                Some(m) => Ok(m),
            },
        };
        Some(res)
    }

    /// One step of receiving a reply within `timeout_ms`, `elapsed_ms` after
    /// the receive began: a complete pending frame is taken and decoded;
    /// without one, the receive times out once the deadline is reached, and
    /// otherwise asks for a read that ends by the deadline.
    pub fn receive_step(&mut self, elapsed_ms: u64, timeout_ms: u64) -> (r: ReceiveStep)
        ensures
            final(self).capacity() == old(self).capacity(),
            receive_step_spec(old(self).pending(), elapsed_ms, timeout_ms, r, final(self).pending()),
    {
        match self.take_message() {
            Some(Ok(m)) => ReceiveStep::Received(m),
            Some(Err(e)) => ReceiveStep::Failed(ConnReceiveError::Decode(e)),
            None => if elapsed_ms >= timeout_ms {
                ReceiveStep::Failed(ConnReceiveError::Timeout)
            } else {
                ReceiveStep::Read { wait_ms: timeout_ms - elapsed_ms }
            },
        }
    }
}

/// Reassembly law: a reply frame split at any position and read in two
/// pieces is decoded exactly as when read whole. Before its last byte has
/// arrived no frame is complete, and once it has, the first frame decodes to
/// the reply and any bytes read ahead stay pending.
pub proof fn lemma_partial_read(m: TargetMsg, k: int, ahead: Seq<u8>)
    requires
        target_msg_wf(m),
        0 <= k <= reply_frame(m).len(),
    ensures
        k < reply_frame(m).len() ==> !has_frame(reply_frame(m).subrange(0, k)),
        ({
            let p = reply_frame(m).subrange(0, k) + reply_frame(m).subrange(
                k,
                reply_frame(m).len() as int,
            ) + ahead;
            &&& p == reply_frame(m) + ahead
            &&& has_frame(p)
            &&& decode_reply(first_frame(p)) == Ok::<TargetMsg, DecodeError>(m)
            &&& after_first_frame(p) == ahead
        }),
{
    let f = reply_frame(m);
    let a = f.subrange(0, k);
    lemma_frame_round_trip(target_encoding(m));
    lemma_target_round_trip(m);
    lemma_find_sentinel(a, 0);
    if k < f.len() && find_sentinel(a, 0) < a.len() {
        assert(a[find_sentinel(a, 0) as int] == f[find_sentinel(a, 0) as int]);
    }
    let p = a + f.subrange(k, f.len() as int) + ahead;
    assert(p =~= f + ahead);
    lemma_find_sentinel(p, 0);
    let z = (f.len() - 1) as int;
    assert(p[z] == f[z]);
    if find_sentinel(p, 0) < z {
        assert(p[find_sentinel(p, 0) as int] == f[find_sentinel(p, 0) as int]);
    }
    assert(find_sentinel(p, 0) == z);
    assert(first_frame(p) =~= f);
    assert(after_first_frame(p) =~= ahead);
}

/// Timeout law: while no frame completes, a receive stepped at the times
/// `times` (milliseconds since it began) ends by the deadline plus one read's
/// granularity. Each step before the last asked for a read of
/// `read_wait(times[i], timeout_ms)`, as `receive_step` does, and the channel
/// returned from it at most `granularity` after that wait ran out. Every step
/// is then taken by `timeout_ms + granularity`, and a step taken at or after
/// the deadline times out.
pub proof fn lemma_receive_deadline(times: Seq<u64>, timeout_ms: u64, granularity: nat)
    requires
        times.len() > 0,
        times[0] == 0,
        forall|i: int|
            0 <= i < times.len() - 1 ==> (read_wait(#[trigger] times[i], timeout_ms) matches Some(w)
                && times[i + 1] <= times[i] + w + granularity),
    ensures
        forall|i: int| 0 <= i < times.len() ==> times[i] <= timeout_ms + granularity,
        forall|i: int| 0 <= i < times.len() ==> (times[i] >= timeout_ms <==> read_wait(times[i], timeout_ms) is None),
{
    assert forall|i: int| 0 <= i < times.len() implies times[i] <= timeout_ms + granularity by {
        if i > 0 {
            let k = i - 1;
            assert(read_wait(times[k], timeout_ms) is Some);
            assert(times[k + 1] <= times[k] + read_wait(times[k], timeout_ms)->Some_0 + granularity);
        }
    }
}

} // verus!
