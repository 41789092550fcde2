//! Consistent-overhead byte stuffing: the self-delimiting wire frame.
//!
//! A payload is cut into blocks of at most 254 non-zero bytes. Each block is
//! preceded by a code byte: `k + 1` for a block of `k` bytes that was ended by
//! a zero in the payload (or by the payload's end), `255` for a full block of
//! 254 bytes that was not. The frame ends with the sentinel byte `0`, which
//! occurs nowhere else in it.

use vstd::prelude::*;

verus! {

/// The byte that terminates every frame.
pub const SENTINEL: u8 = 0;

/// The most data bytes a single code byte can announce.
pub const MAX_BLOCK: usize = 254;

/// Why a frame could not be encoded or decoded.
#[derive(Debug, Clone, Copy, PartialEq, Eq, Structural)]
pub enum FrameError {
    /// The input holds no sentinel byte.
    NoTerminator,
    /// The bytes before the sentinel are not a valid stuffed encoding
    /// (empty, a zero code byte, or a block that runs past the sentinel).
    Malformed,
    /// The encoded frame does not fit the caller's buffer.
    BufferTooSmall,
}

/// Index of the end of the block that starts at index 0 of `s`, scanning from
/// `i`: the first zero byte, the end of `s`, or index 254, whichever is first.
pub open spec fn block_len(s: Seq<u8>, i: nat) -> nat
    decreases s.len() - i,
{
    if i < s.len() && i < 254 && s[i as int] != 0 {
        block_len(s, i + 1)
    } else {
        i
    }
}

/// The stuffed encoding of `s`, without the sentinel.
pub open spec fn cobs_encode(s: Seq<u8>) -> Seq<u8>
    decreases s.len(),
{
    let k = block_len(s, 0);
    if s.len() >= 254 && k >= 254 {
        seq![255u8] + s.subrange(0, 254) + cobs_encode(s.subrange(254, s.len() as int))
    } else if k < s.len() {
        seq![(k + 1) as u8] + s.subrange(0, k as int) + cobs_encode(
            s.subrange((k + 1) as int, s.len() as int),
        )
    } else {
        seq![(s.len() + 1) as u8] + s
    }
}

/// The whole frame of a payload: its stuffed encoding and the sentinel.
pub open spec fn frame_of(s: Seq<u8>) -> Seq<u8> {
    cobs_encode(s).push(SENTINEL)
}

/// Undoes `cobs_encode` on bytes that hold no sentinel.
pub open spec fn cobs_decode(e: Seq<u8>) -> Option<Seq<u8>>
    decreases e.len(),
{
    if e.len() == 0 {
        None
    } else {
        let c = e[0] as int;
        if c == 0 || c > e.len() {
            None
        } else {
            let data = e.subrange(1, c);
            let rest = e.subrange(c, e.len() as int);
            if rest.len() == 0 {
                Some(data)
            } else {
                match cobs_decode(rest) {
                    None => None,
                    Some(r) => if c == 255 {
                        Some(data + r)
                    } else {
                        Some(data + seq![0u8] + r)
                    },
                }
            }
        }
    }
}

/// Index of the first sentinel in `s` at or after `i`, or `s.len()`.
pub open spec fn find_sentinel(s: Seq<u8>, i: nat) -> nat
    decreases s.len() - i,
{
    if i < s.len() && s[i as int] != SENTINEL {
        find_sentinel(s, i + 1)
    } else {
        i
    }
}

/// What decoding the first frame held in `f` gives.
pub open spec fn frame_decode(f: Seq<u8>) -> Result<Seq<u8>, FrameError> {
    let z = find_sentinel(f, 0);
    if z >= f.len() {
        Err(FrameError::NoTerminator)
    } else {
        match cobs_decode(f.subrange(0, z as int)) {
            None => Err(FrameError::Malformed),
            Some(p) => Ok(p),
        }
    }
}

/// `a` followed by the decoded bytes, when there are any.
pub open spec fn prepend(a: Seq<u8>, o: Option<Seq<u8>>) -> Option<Seq<u8>> {
    match o {
        None => None,
        Some(r) => Some(a + r),
    }
}

/// A block is at most 254 bytes long, holds no zero, and ends at a zero
/// unless it ends at the limit or at the end of the payload.
pub proof fn lemma_block_len(s: Seq<u8>, i: nat)
    requires
        i <= s.len(),
        i <= 254,
    ensures
        i <= block_len(s, i),
        block_len(s, i) <= s.len(),
        block_len(s, i) <= 254,
        block_len(s, i) < s.len() && block_len(s, i) < 254 ==> s[block_len(s, i) as int] == 0,
        forall|m: int| i <= m < block_len(s, i) ==> s[m] != 0,
    decreases s.len() - i,
{
    if i < s.len() && i < 254 && s[i as int] != 0 {
        lemma_block_len(s, i + 1);
    }
}

/// The sentinel found is the first one at or after `i`.
pub proof fn lemma_find_sentinel(s: Seq<u8>, i: nat)
    requires
        i <= s.len(),
    ensures
        i <= find_sentinel(s, i) <= s.len(),
        find_sentinel(s, i) < s.len() ==> s[find_sentinel(s, i) as int] == SENTINEL,
        forall|m: int| i <= m < find_sentinel(s, i) ==> s[m] != SENTINEL,
    decreases s.len() - i,
{
    if i < s.len() && s[i as int] != SENTINEL {
        lemma_find_sentinel(s, i + 1);
    }
}

/// The stuffed encoding is never empty and never holds the sentinel.
pub proof fn lemma_encode_sentinel_free(s: Seq<u8>)
    ensures
        cobs_encode(s).len() > 0,
        forall|i: int| 0 <= i < cobs_encode(s).len() ==> cobs_encode(s)[i] != SENTINEL,
    decreases s.len(),
{
    lemma_block_len(s, 0);
    let k = block_len(s, 0);
    let e = cobs_encode(s);
    if s.len() >= 254 && k >= 254 {
        let rest = s.subrange(254, s.len() as int);
        lemma_encode_sentinel_free(rest);
        assert forall|i: int| 0 <= i < e.len() implies e[i] != SENTINEL by {
            if 1 <= i < 255 {
                assert(e[i] == s[i - 1]);
            } else if i >= 255 {
                assert(e[i] == cobs_encode(rest)[i - 255]);
            }
        }
    } else if k < s.len() {
        let rest = s.subrange((k + 1) as int, s.len() as int);
        lemma_encode_sentinel_free(rest);
        assert forall|i: int| 0 <= i < e.len() implies e[i] != SENTINEL by {
            if 1 <= i < k + 1 {
                assert(e[i] == s[i - 1]);
            } else if i >= k + 1 {
                assert(e[i] == cobs_encode(rest)[i - k - 1]);
            }
        }
    } else {
        assert forall|i: int| 0 <= i < e.len() implies e[i] != SENTINEL by {
            if i >= 1 {
                assert(e[i] == s[i - 1]);
            }
        }
    }
}

/// The stuffed encoding is longer than the payload.
pub proof fn lemma_encode_len(s: Seq<u8>)
    ensures
        cobs_encode(s).len() > s.len(),
    decreases s.len(),
{
    lemma_block_len(s, 0);
    let k = block_len(s, 0);
    if s.len() >= 254 && k >= 254 {
        lemma_encode_len(s.subrange(254, s.len() as int));
    } else if k < s.len() {
        lemma_encode_len(s.subrange((k + 1) as int, s.len() as int));
    }
}

/// Decoding the stuffed encoding of any payload gives the payload back.
pub proof fn lemma_cobs_round_trip(s: Seq<u8>)
    ensures
        cobs_decode(cobs_encode(s)) == Some(s),
    decreases s.len(),
{
    lemma_block_len(s, 0);
    let k = block_len(s, 0);
    let e = cobs_encode(s);
    if s.len() >= 254 && k >= 254 {
        let rest = s.subrange(254, s.len() as int);
        lemma_cobs_round_trip(rest);
        lemma_encode_sentinel_free(rest);
        assert(e.subrange(1, 255) =~= s.subrange(0, 254));
        assert(e.subrange(255, e.len() as int) =~= cobs_encode(rest));
        assert(s.subrange(0, 254) + rest =~= s);
    } else if k < s.len() {
        let rest = s.subrange((k + 1) as int, s.len() as int);
        lemma_cobs_round_trip(rest);
        lemma_encode_sentinel_free(rest);
        let c = (k + 1) as int;
        assert(e.subrange(1, c) =~= s.subrange(0, k as int));
        assert(e.subrange(c, e.len() as int) =~= cobs_encode(rest));
        assert(s.subrange(0, k as int) + seq![0u8] + rest =~= s);
    } else {
        assert(e.subrange(1, e.len() as int) =~= s);
        assert(e.subrange(e.len() as int, e.len() as int) =~= Seq::<u8>::empty());
    }
}

/// Framing law: the sentinel ends the frame and occurs nowhere else in it,
/// and decoding the frame of any payload gives that payload back.
pub proof fn lemma_frame_round_trip(payload: Seq<u8>)
    ensures
        frame_of(payload).len() > 0,
        frame_of(payload).last() == SENTINEL,
        forall|i: int| 0 <= i < frame_of(payload).len() - 1 ==> frame_of(payload)[i] != SENTINEL,
        frame_decode(frame_of(payload)) == Ok::<Seq<u8>, FrameError>(payload),
{
    let e = cobs_encode(payload);
    let f = frame_of(payload);
    lemma_encode_sentinel_free(payload);
    lemma_cobs_round_trip(payload);
    lemma_find_sentinel(f, 0);
    assert forall|i: int| 0 <= i < f.len() - 1 implies f[i] != SENTINEL by {
        assert(f[i] == e[i]);
    }
    if find_sentinel(f, 0) < e.len() {
        assert(f[find_sentinel(f, 0) as int] == e[find_sentinel(f, 0) as int]);
    }
    assert(f[e.len() as int] == SENTINEL);
    assert(find_sentinel(f, 0) == e.len());
    assert(f.subrange(0, e.len() as int) =~= e);
}

/// Appends `s[from..to]` to `out`.
pub(crate) fn push_range(out: &mut Vec<u8>, s: &[u8], from: usize, to: usize)
    requires
        from <= to <= s.len(),
    ensures
        final(out)@ == old(out)@ + s@.subrange(from as int, to as int),
{
    let mut p: usize = from;
    while p < to
        invariant
            from <= p <= to <= s.len(),
            out@ == old(out)@ + s@.subrange(from as int, p as int),
        decreases to - p,
    {
        out.push(s[p]);
        p = p + 1;
        assert(s@.subrange(from as int, p as int) =~= s@.subrange(from as int, (p - 1) as int).push(
            s@[p - 1],
        ));
    }
}

/// Encodes `payload` into a complete frame, sentinel included.
pub fn encode(payload: &[u8]) -> (r: Vec<u8>)
    ensures
        r@ == frame_of(payload@),
{
    let ghost s = payload@;
    let n = payload.len();
    let mut out: Vec<u8> = Vec::new();
    let mut i: usize = 0;
    assert(s.subrange(0, n as int) =~= s);
    loop
        invariant_except_break
            out@ + cobs_encode(s.subrange(i as int, n as int)) == cobs_encode(s),
        invariant
            n == s.len(),
            s == payload@,
            i <= n,
        ensures
            out@ == cobs_encode(s),
        decreases n - i,
    {
        let ghost t = s.subrange(i as int, n as int);
        let mut j: usize = i;
        proof {
            lemma_block_len(t, 0);
        }
        while j < n && j - i < MAX_BLOCK && payload[j] != SENTINEL
            invariant
                n == s.len(),
                s == payload@,
                t == s.subrange(i as int, n as int),
                i <= j <= n,
                j - i <= 254,
                block_len(t, 0) == block_len(t, (j - i) as nat),
            decreases n - j,
        {
            assert(t[(j - i) as int] == s[j as int]);
            j = j + 1;
        }
        proof {
            if j < n && j - i < 254 {
                assert(t[(j - i) as int] == s[j as int]);
            }
        }
        let k = j - i;
        assert(block_len(t, 0) == k);
        let ghost before = out@;
        if k == MAX_BLOCK {
            out.push(255u8);
            push_range(&mut out, payload, i, j);
            proof {
                assert(t.subrange(0, 254) =~= s.subrange(i as int, j as int));
                assert(t.subrange(254, t.len() as int) =~= s.subrange(j as int, n as int));
                assert(out@ =~= before + seq![255u8] + t.subrange(0, 254));
            }
            i = j;
        } else if j < n {
            out.push((k + 1) as u8);
            push_range(&mut out, payload, i, j);
            proof {
                assert(t.subrange(0, k as int) =~= s.subrange(i as int, j as int));
                assert(t.subrange((k + 1) as int, t.len() as int) =~= s.subrange(
                    (j + 1) as int,
                    n as int,
                ));
                assert(out@ =~= before + seq![(k + 1) as u8] + t.subrange(0, k as int));
            }
            i = j + 1;
        } else {
            out.push((k + 1) as u8);
            push_range(&mut out, payload, i, j);
            proof {
                assert(t =~= s.subrange(i as int, j as int));
                assert(out@ =~= before + cobs_encode(t));
            }
            assert(out@ == cobs_encode(s));
            break;
        }
    }
    out.push(SENTINEL);
    out
}

/// Encodes `payload` into a frame that must fit a buffer of `capacity` bytes.
pub fn encode_to_buffer(payload: &[u8], capacity: usize) -> (r: Result<Vec<u8>, FrameError>)
    ensures
        frame_of(payload@).len() <= capacity ==> r.is_ok() && r.unwrap()@ == frame_of(payload@),
        frame_of(payload@).len() > capacity ==> r == Err::<Vec<u8>, FrameError>(
            FrameError::BufferTooSmall,
        ),
{
    let f = encode(payload);
    if f.len() > capacity {
        Err(FrameError::BufferTooSmall)
    } else {
        Ok(f)
    }
}

/// Finds the first sentinel in `f`, or `f.len()` if there is none.
pub fn find_terminator(f: &[u8]) -> (z: usize)
    ensures
        z == find_sentinel(f@, 0),
        z <= f.len(),
        z < f.len() ==> f@[z as int] == SENTINEL,
        forall|m: int| 0 <= m < z ==> f@[m] != SENTINEL,
{
    let mut i: usize = 0;
    while i < f.len() && f[i] != SENTINEL
        invariant
            i <= f.len(),
            find_sentinel(f@, 0) == find_sentinel(f@, i as nat),
            forall|m: int| 0 <= m < i ==> f@[m] != SENTINEL,
        decreases f.len() - i,
    {
        i = i + 1;
    }
    i
}

/// Decodes the first frame held in `f`; bytes after its sentinel are not read.
pub fn decode(f: &[u8]) -> (r: Result<Vec<u8>, FrameError>)
    ensures
        match r {
            Ok(p) => frame_decode(f@) == Ok::<Seq<u8>, FrameError>(p@),
            Err(e) => frame_decode(f@) == Err::<Seq<u8>, FrameError>(e),
        },
{
    let z = find_terminator(f);
    if z >= f.len() {
        return Err(FrameError::NoTerminator);
    }
    let ghost e = f@.subrange(0, z as int);
    let mut out: Vec<u8> = Vec::new();
    if z == 0 {
        assert(e.len() == 0);
        return Err(FrameError::Malformed);
    }
    let mut p: usize = 0;
    proof {
        assert(e.subrange(0, z as int) =~= e);
        match cobs_decode(e) {
            None => {},
            Some(r) => {
                assert(out@ + r =~= r);
            },
        }
    }
    loop
        invariant
            z < f.len(),
            z == find_sentinel(f@, 0),
            e == f@.subrange(0, z as int),
            p < z,
            cobs_decode(e) == prepend(out@, cobs_decode(e.subrange(p as int, z as int))),
        decreases z - p,
    {
        let ghost rest = e.subrange(p as int, z as int);
        let c = f[p] as usize;
        assert(rest[0] == f@[p as int]);
        if c == 0 || c > z - p {
            assert(cobs_decode(rest) == None::<Seq<u8>>);
            assert(cobs_decode(e) == None::<Seq<u8>>);
            assert(frame_decode(f@) == Err::<Seq<u8>, FrameError>(FrameError::Malformed));
            return Err(FrameError::Malformed);
        }
        let ghost before = out@;
        push_range(&mut out, f, p + 1, p + c);
        proof {
            assert(rest.subrange(1, c as int) =~= f@.subrange((p + 1) as int, (p + c) as int));
            assert(rest.subrange(c as int, rest.len() as int) =~= e.subrange(
                (p + c) as int,
                z as int,
            ));
        }
        if p + c == z {
            assert(cobs_decode(rest) == Some(rest.subrange(1, c as int)));
            assert(out@ =~= before + rest.subrange(1, c as int));
            assert(cobs_decode(e) == Some(out@));
            assert(frame_decode(f@) == Ok::<Seq<u8>, FrameError>(out@));
            return Ok(out);
        }
        if c != 255 {
            out.push(0u8);
            assert(out@ =~= before + rest.subrange(1, c as int) + seq![0u8]);
        }
        proof {
            let d = cobs_decode(e.subrange((p + c) as int, z as int));
            match d {
                None => {},
                Some(r) => {
                    if c == 255 {
                        assert(before + (rest.subrange(1, c as int) + r) =~= out@ + r);
                    } else {
                        assert(before + (rest.subrange(1, c as int) + seq![0u8] + r) =~= out@
                            + r);
                    }
                },
            }
        }
        p = p + c;
    }
}

} // verus!
