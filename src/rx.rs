//! The target's receive pipeline: a bounded buffer that the receive
//! interrupt fills and the main loop empties.
//!
//! The interrupt half calls `receive` (and `on_idle` when the line goes
//! quiet); it never blocks, and a full buffer is reported, never silently
//! dropped. The main loop takes out complete units: a frame, ended by the
//! sentinel, or everything received before the line went idle.

use vstd::prelude::*;

use crate::cobs::{find_terminator, push_range};
use crate::conn::{after_first_frame, first_frame, has_frame};

verus! {

/// A byte arrived while the receive buffer was full.
#[derive(Debug, Clone, Copy, PartialEq, Eq, Structural)]
pub struct RxOverflow {
    /// The byte that did not fit.
    pub byte: u8,
}

/// What the buffer holds after `bytes` arrive, and whether they all fit: the
/// bytes are stored in order until the buffer is full.
pub open spec fn rx_fill(contents: Seq<u8>, capacity: nat, bytes: Seq<u8>) -> (Seq<u8>, bool) {
    if contents.len() + bytes.len() <= capacity {
        (contents + bytes, true)
    } else {
        (contents + bytes.subrange(0, capacity - contents.len()), false)
    }
}

/// A bounded receive buffer, with an optional address filter in front.
pub struct RxBuffer {
    data: Vec<u8>,
    capacity: usize,
    idle: bool,
    address: Option<u8>,
}

impl RxBuffer {
    pub closed spec fn contents(&self) -> Seq<u8> {
        self.data@
    }

    pub closed spec fn cap(&self) -> nat {
        self.capacity as nat
    }

    /// Whether the line went idle after the last byte that is held.
    pub closed spec fn idle_seen(&self) -> bool {
        self.idle
    }

    /// The address awaited while address matching is on.
    pub closed spec fn awaited_address(&self) -> Option<u8> {
        self.address
    }

    #[verifier::type_invariant]
    spec fn inv(&self) -> bool {
        self.data.len() <= self.capacity
    }

    /// An empty buffer that holds at most `capacity` bytes.
    pub fn new(capacity: usize) -> (r: RxBuffer)
        ensures
            r.contents() == Seq::<u8>::empty(),
            r.cap() == capacity,
            !r.idle_seen(),
            r.awaited_address() is None,
    {
        RxBuffer { data: Vec::new(), capacity, idle: false, address: None }
    }

    pub fn len(&self) -> (r: usize)
        ensures
            r == self.contents().len(),
    {
        self.data.len()
    }

    pub fn capacity(&self) -> (r: usize)
        ensures
            r == self.cap(),
    {
        self.capacity
    }

    /// Interrupt half: takes in one byte from the hardware. While address
    /// matching is on, bytes other than the awaited address are discarded,
    /// and the awaited address ends matching without being stored.
    pub fn receive(&mut self, byte: u8) -> (r: Result<(), RxOverflow>)
        ensures
            final(self).cap() == old(self).cap(),
            match old(self).awaited_address() {
                Some(a) => r is Ok && final(self).contents() == old(self).contents()
                    && final(self).idle_seen() == old(self).idle_seen()
                    && final(self).awaited_address() == (if byte == a {
                    None
                } else {
                    Some(a)
                }),
                None => final(self).awaited_address() is None && (old(self).contents().len()
                    < old(self).cap() ==> r is Ok && final(self).contents() == old(self).contents().push(byte) && !final(self).idle_seen()) && (old(self).contents().len()
                    >= old(self).cap() ==> r == Err::<(), RxOverflow>(RxOverflow { byte })
                    && final(self).contents() == old(self).contents() && final(self).idle_seen()
                    == old(self).idle_seen()),
            },
    {
        proof {
            use_type_invariant(&*self);
        }
        if let Some(a) = self.address {
            if byte == a {
                self.address = None;
            }
            return Ok(());
        }
        if self.data.len() < self.capacity {
            let mut data: Vec<u8> = Vec::new();
            std::mem::swap(&mut data, &mut self.data);
            data.push(byte);
            self.data = data;
            self.idle = false;
            Ok(())
        } else {
            Err(RxOverflow { byte })
        }
    }

    /// Interrupt half: takes in every byte the hardware holds, in order,
    /// until the buffer is full. Fails on the first byte that does not fit.
    pub fn receive_all(&mut self, bytes: &[u8]) -> (r: Result<(), RxOverflow>)
        requires
            old(self).awaited_address() is None,
        ensures
            final(self).cap() == old(self).cap(),
            final(self).awaited_address() is None,
            (final(self).contents(), r is Ok) == rx_fill(
                old(self).contents(),
                old(self).cap(),
                bytes@,
            ),
            r is Err ==> r->Err_0.byte == bytes@[old(self).cap() - old(self).contents().len()],
    {
        proof {
            use_type_invariant(&*self);
        }
        let mut i: usize = 0;
        while i < bytes.len()
            invariant
                self.cap() == old(self).cap(),
                self.awaited_address() is None,
                i <= bytes.len(),
                old(self).contents().len() + i <= self.cap(),
                self.contents() == old(self).contents() + bytes@.subrange(0, i as int),
            decreases bytes.len() - i,
        {
            match self.receive(bytes[i]) {
                Ok(()) => {},
                Err(e) => {
                    assert(i == self.cap() - old(self).contents().len());
                    return Err(e);
                },
            }
            i = i + 1;
            assert(bytes@.subrange(0, i as int) =~= bytes@.subrange(0, i - 1).push(bytes@[i - 1]));
        }
        assert(bytes@.subrange(0, i as int) =~= bytes@);
        Ok(())
    }

    /// Interrupt half: the line went quiet after the bytes held.
    pub fn on_idle(&mut self)
        ensures
            final(self).contents() == old(self).contents(),
            final(self).cap() == old(self).cap(),
            final(self).awaited_address() == old(self).awaited_address(),
            final(self).idle_seen(),
    {
        proof {
            use_type_invariant(&*self);
        }
        self.idle = true;
    }

    /// Turns address matching on: bytes are discarded until `address`
    /// arrives.
    pub fn start_address_detection(&mut self, address: u8)
        ensures
            final(self).contents() == old(self).contents(),
            final(self).cap() == old(self).cap(),
            final(self).idle_seen() == old(self).idle_seen(),
            final(self).awaited_address() == Some(address),
    {
        proof {
            use_type_invariant(&*self);
        }
        self.address = Some(address);
    }

    /// Whether address matching is still waiting for its address.
    pub fn address_detection_active(&self) -> (r: bool)
        ensures
            r == self.awaited_address() is Some,
    {
        self.address.is_some()
    }

    pub open spec fn can_process_spec(&self) -> bool {
        has_frame(self.contents()) || (self.idle_seen() && self.contents().len() > 0)
    }

    /// Whether a complete unit is held: a frame, or bytes that the line went
    /// idle after. While this holds, the main loop must not suspend.
    pub fn can_process(&self) -> (r: bool)
        ensures
            r == self.can_process_spec(),
    {
        let z = find_terminator(self.data.as_slice());
        z < self.data.len() || (self.idle && self.data.len() > 0)
    }

    /// Main loop: takes out the first complete frame, sentinel included; the
    /// bytes after it stay.
    pub fn take_frame(&mut self) -> (r: Option<Vec<u8>>)
        ensures
            final(self).cap() == old(self).cap(),
            final(self).idle_seen() == old(self).idle_seen(),
            final(self).awaited_address() == old(self).awaited_address(),
            !has_frame(old(self).contents()) ==> (r is None && final(self).contents() == old(self).contents()),
            has_frame(old(self).contents()) ==> (r is Some && r->Some_0@ == first_frame(old(self).contents())
                && final(self).contents() == after_first_frame(old(self).contents())),
    {
        proof {
            use_type_invariant(&*self);
        }
        let z = find_terminator(self.data.as_slice());
        if z >= self.data.len() {
            return None;
        }
        let mut frame: Vec<u8> = Vec::new();
        push_range(&mut frame, self.data.as_slice(), 0, z + 1);
        let mut rest: Vec<u8> = Vec::new();
        push_range(&mut rest, self.data.as_slice(), z + 1, self.data.len());
        self.data = rest;
        Some(frame)
    }

    /// Main loop: once the line went idle, takes out everything held.
    pub fn take_raw(&mut self) -> (r: Option<Vec<u8>>)
        ensures
            final(self).cap() == old(self).cap(),
            final(self).awaited_address() == old(self).awaited_address(),
            old(self).idle_seen() && old(self).contents().len() > 0 ==> (r is Some
                && r->Some_0@ == old(self).contents() && final(self).contents()
                == Seq::<u8>::empty() && !final(self).idle_seen()),
            !(old(self).idle_seen() && old(self).contents().len() > 0) ==> (r is None
                && final(self).contents() == old(self).contents()
                && final(self).idle_seen() == old(self).idle_seen()),
    {
        if self.idle && self.data.len() > 0 {
            let mut out: Vec<u8> = Vec::new();
            std::mem::swap(&mut out, &mut self.data);
            self.idle = false;
            Some(out)
        } else {
            None
        }
    }
}

/// Overflow law: filling an empty buffer to exactly its capacity succeeds
/// and stores every byte; one byte more is refused, with the buffer full.
pub proof fn lemma_overflow_boundary(capacity: nat, bytes: Seq<u8>, extra: u8)
    requires
        bytes.len() == capacity,
    ensures
        rx_fill(Seq::<u8>::empty(), capacity, bytes) == (bytes, true),
        rx_fill(Seq::<u8>::empty(), capacity, bytes.push(extra)) == (bytes, false),
        rx_fill(bytes, capacity, seq![extra]) == (bytes, false),
{
    assert(Seq::<u8>::empty() + bytes =~= bytes);
    assert(Seq::<u8>::empty() + bytes.push(extra).subrange(0, capacity as int) =~= bytes);
    assert(bytes + seq![extra].subrange(0, 0) =~= bytes);
}

} // verus!
