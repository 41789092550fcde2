//! The single-command request format: a framed instruction to send bytes
//! on the target's USART. Requests are written whole and read byte by byte
//! until the sentinel.

use vstd::prelude::*;

use crate::cobs::{
    decode, encode_to_buffer, find_sentinel, find_terminator, frame_decode, frame_of,
    lemma_encode_len, lemma_frame_round_trip, push_range, FrameError,
};
use crate::message::{le_u32, lemma_le_u32, u32_at};

verus! {

/// A request sent from the test suite to the target.
#[derive(Debug, Clone, PartialEq, Eq)]
pub enum Request {
    /// Instructs the target to send these bytes via USART.
    SendUsart(Vec<u8>),
}

/// Why a request could not be sent or received.
#[derive(Debug)]
pub enum Error {
    /// Writing to the channel failed.
    Io(std::io::Error),
    /// The received frame is not a valid stuffed encoding.
    Frame(FrameError),
    /// The frame's payload is not a request.
    Decode,
    /// The request does not fit the buffer.
    BufferTooSmall,
}

impl View for Request {
    type V = Seq<u8>;

    /// The bytes the request asks to send.
    open spec fn view(&self) -> Seq<u8> {
        match self {
            Request::SendUsart(data) => data@,
        }
    }
}

/// The payload of a request: tag, length, bytes.
pub open spec fn request_encoding(data: Seq<u8>) -> Seq<u8> {
    seq![0u8] + le_u32(data.len() as u32) + data
}

pub open spec fn request_decoding(p: Seq<u8>) -> Option<Seq<u8>> {
    if p.len() >= 5 && p[0] == 0 && p.len() - 5 == u32_at(p, 1) {
        Some(p.subrange(5, p.len() as int))
    } else {
        None
    }
}

/// What decoding one complete request frame gives.
pub open spec fn decode_request(f: Seq<u8>) -> Result<Seq<u8>, Error> {
    match frame_decode(f) {
        Err(e) => Err(Error::Frame(e)),
        Ok(p) => match request_decoding(p) {
            None => Err(Error::Decode),
            Some(d) => Ok(d),
        },
    }
}

/// Whether `bytes` hold a sentinel within the first `buf_len` bytes.
pub open spec fn request_complete(bytes: Seq<u8>, buf_len: usize) -> bool {
    find_sentinel(bytes, 0) < bytes.len() && find_sentinel(bytes, 0) < buf_len
}

/// The first frame in `bytes`, sentinel included.
pub open spec fn request_frame(bytes: Seq<u8>) -> Seq<u8> {
    bytes.subrange(0, find_sentinel(bytes, 0) + 1int)
}

/// Decoding the frame of a request gives the request back.
pub proof fn lemma_request_round_trip(data: Seq<u8>)
    requires
        data.len() <= u32::MAX,
    ensures
        decode_request(frame_of(request_encoding(data))) == Ok::<Seq<u8>, Error>(data),
{
    let p = request_encoding(data);
    lemma_frame_round_trip(p);
    lemma_le_u32(data.len() as u32);
    assert(p.subrange(1, 5) =~= le_u32(data.len() as u32));
    assert(p.subrange(5, p.len() as int) =~= data);
}

impl Request {
    /// Frames this request for writing, within a buffer of `buf_len` bytes.
    pub fn send(&self, buf_len: usize) -> (r: Result<Vec<u8>, Error>)
        ensures
            self@.len() <= u32::MAX && frame_of(request_encoding(self@)).len() <= buf_len <==> r is Ok,
            r is Ok ==> r->Ok_0@ == frame_of(request_encoding(self@)),
            r is Err ==> r->Err_0 is BufferTooSmall,
    {
        let Request::SendUsart(data) = self;
        if data.len() > buf_len || data.len() as u64 > u32::MAX as u64 {
            proof {
                lemma_encode_len(request_encoding(self@));
            }
            return Err(Error::BufferTooSmall);
        }
        let mut payload: Vec<u8> = Vec::new();
        payload.push(0u8);
        let n = data.len() as u32;
        payload.push((n % 256) as u8);
        payload.push(((n / 256) % 256) as u8);
        payload.push(((n / 65536) % 256) as u8);
        payload.push((n / 16777216) as u8);
        push_range(&mut payload, data.as_slice(), 0, data.len());
        assert(data@.subrange(0, data.len() as int) =~= data@);
        assert(payload@ =~= request_encoding(self@));
        match encode_to_buffer(payload.as_slice(), buf_len) {
            Ok(f) => Ok(f),
            Err(_) => Err(Error::BufferTooSmall),
        }
    }

    /// Reads a request from the bytes received so far, with a buffer of
    /// `buf_len` bytes. `None`: no sentinel yet, and the buffer has room for
    /// more. Otherwise the request and the number of bytes its frame took,
    /// or why it could not be read: no sentinel within the buffer, or a
    /// frame that does not decode.
    pub fn receive(bytes: &[u8], buf_len: usize) -> (r: Option<Result<(Request, usize), Error>>)
        ensures
            request_complete(bytes@, buf_len) ==> match r {
                Some(Ok((req, n))) => n == find_sentinel(bytes@, 0) + 1 && decode_request(
                    request_frame(bytes@),
                ) == Ok::<Seq<u8>, Error>(req@),
                Some(Err(Error::Frame(e))) => decode_request(request_frame(bytes@)) == Err::<
                    Seq<u8>,
                    Error,
                >(Error::Frame(e)),
                Some(Err(Error::Decode)) => (decode_request(request_frame(bytes@)) matches Err(
                    Error::Decode,
                )),
                _ => false,
            },
            !request_complete(bytes@, buf_len) && bytes.len() >= buf_len ==> (r matches Some(
                Err(Error::BufferTooSmall),
            )),
            !request_complete(bytes@, buf_len) && bytes.len() < buf_len ==> r is None,
    {
        let z = find_terminator(bytes);
        if z < bytes.len() && z < buf_len {
            let mut frame: Vec<u8> = Vec::new();
            push_range(&mut frame, bytes, 0, z + 1);
            let ghost f = frame@;
            proof {
                crate::cobs::lemma_find_sentinel(f, 0);
                crate::cobs::lemma_find_sentinel(bytes@, 0);
                assert forall|m: int| 0 <= m < z implies f[m] != 0 by {
                    assert(f[m] == bytes@[m]);
                }
                assert(f[z as int] == bytes@[z as int]);
                if find_sentinel(f, 0) < z {
                    assert(f[find_sentinel(f, 0) as int] == bytes@[find_sentinel(f, 0) as int]);
                }
                assert(find_sentinel(f, 0) == z);
            }
            let payload = match decode(frame.as_slice()) {
                Err(e) => return Some(Err(Error::Frame(e))),
                Ok(p) => p,
            };
            let p = payload.as_slice();
            if p.len() >= 5 && p[0] == 0 {
                let len = p[1] as u64 + 256 * (p[2] as u64) + 65536 * (p[3] as u64) + 16777216 * (
                p[4] as u64);
                if (p.len() - 5) as u64 == len {
                    let mut data: Vec<u8> = Vec::new();
                    push_range(&mut data, p, 5, p.len());
                    return Some(Ok((Request::SendUsart(data), z + 1)));
                }
            }
            Some(Err(Error::Decode))
        } else if bytes.len() >= buf_len {
            Some(Err(Error::BufferTooSmall))
        } else {
            None
        }
    }
}

} // verus!
