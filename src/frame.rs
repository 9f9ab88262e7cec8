//! Length-prefixed framing: every message travels as a 16-byte big-endian
//! length followed by exactly that many payload bytes.

use vstd::prelude::*;

verus! {

/// Width in bytes of the length prefix that starts every frame.
pub const PREFIX_LEN: usize = 16;

/// `256` raised to `k`.
pub open spec fn pow256(k: nat) -> nat
    decreases k,
{
    if k == 0 {
        1
    } else {
        256 * pow256((k - 1) as nat)
    }
}

/// The number that a byte sequence writes, most significant byte first.
pub open spec fn be_value(b: Seq<u8>) -> nat
    decreases b.len(),
{
    if b.len() == 0 {
        0
    } else {
        be_value(b.drop_last()) * 256 + b.last() as nat
    }
}

/// The `k` bytes that write `n`, most significant byte first.
pub open spec fn be_bytes(n: nat, k: nat) -> Seq<u8>
    decreases k,
{
    if k == 0 {
        seq![]
    } else {
        be_bytes(n / 256, (k - 1) as nat).push((n % 256) as u8)
    }
}

/// The bytes of one frame that carries `payload`.
pub open spec fn frame_bytes(payload: Seq<u8>) -> Seq<u8> {
    be_bytes(payload.len(), PREFIX_LEN as nat) + payload
}

/// Why no frame could be taken from a stream.
#[derive(Debug, Clone, Copy, PartialEq, Eq, Structural)]
pub enum FrameError {
    /// The stream ended before a whole length prefix arrived: the peer closed.
    Closed,
    /// A whole length prefix arrived but fewer payload bytes than it declares.
    Truncated,
}

/// What reading one frame from the front of the bytes `s` yields: the
/// payload and the number of bytes the frame took, or the reason for failure.
pub open spec fn parse_frame(s: Seq<u8>) -> Result<(Seq<u8>, nat), FrameError> {
    if s.len() < PREFIX_LEN {
        Err(FrameError::Closed)
    } else {
        let n = be_value(s.subrange(0, PREFIX_LEN as int));
        if s.len() - PREFIX_LEN < n {
            Err(FrameError::Truncated)
        } else {
            Ok((s.subrange(PREFIX_LEN as int, PREFIX_LEN + n), (PREFIX_LEN + n) as nat))
        }
    }
}

pub proof fn lemma_be_value_bound(b: Seq<u8>)
    ensures
        be_value(b) < pow256(b.len()),
    decreases b.len(),
{
    if b.len() > 0 {
        let p = b.drop_last();
        lemma_be_value_bound(p);
        let v = be_value(p);
        let q = pow256(p.len());
        let l = b.last() as nat;
        assert(v * 256 + l < 256 * q) by (nonlinear_arith)
            requires
                v < q,
                l < 256,
        ;
    }
}

pub proof fn lemma_be_round_trip(n: nat, k: nat)
    requires
        n < pow256(k),
    ensures
        be_bytes(n, k).len() == k,
        be_value(be_bytes(n, k)) == n,
    decreases k,
{
    if k > 0 {
        let k1 = (k - 1) as nat;
        let q = pow256(k1);
        assert(n / 256 < q) by (nonlinear_arith)
            requires
                n < 256 * q,
        ;
        lemma_be_round_trip(n / 256, k1);
        let b = be_bytes(n, k);
        assert(b.drop_last() == be_bytes(n / 256, k1));
        assert((n / 256) * 256 + n % 256 == n) by (nonlinear_arith);
    }
}

proof fn lemma_pow256_prefix()
    ensures
        pow256(PREFIX_LEN as nat) == 0x1_0000_0000_0000_0000_0000_0000_0000_0000,
{
    reveal_with_fuel(pow256, 17);
}

/// The length prefix for a payload of `n` bytes.
pub fn encode_length(n: usize) -> (r: Vec<u8>)
    ensures
        r@ == be_bytes(n as nat, PREFIX_LEN as nat),
{
    let mut out: Vec<u8> = vec![0u8; PREFIX_LEN];
    let mut v: usize = n;
    let mut k: usize = PREFIX_LEN;
    while k > 0
        invariant
            out@.len() == PREFIX_LEN,
            k <= PREFIX_LEN,
            be_bytes(n as nat, PREFIX_LEN as nat) == be_bytes(v as nat, k as nat) + out@.subrange(
                k as int,
                PREFIX_LEN as int,
            ),
        decreases k,
    {
        let b: u8 = (v % 256) as u8;
        let ghost old_out = out@;
        let ghost old_v = v;
        out.set(k - 1, b);
        v = v / 256;
        k = k - 1;
        proof {
            assert(be_bytes(old_v as nat, (k + 1) as nat) == be_bytes(v as nat, k as nat).push(b));
            assert(out@.subrange(k as int, PREFIX_LEN as int) =~= seq![b] + old_out.subrange(
                k + 1,
                PREFIX_LEN as int,
            ));
            assert(be_bytes(v as nat, k as nat).push(b) + old_out.subrange(k + 1, PREFIX_LEN as int)
                =~= be_bytes(v as nat, k as nat) + out@.subrange(k as int, PREFIX_LEN as int));
        }
    }
    assert(out@.subrange(0, PREFIX_LEN as int) =~= out@);
    out
}

/// The number that a whole length prefix declares.
pub fn decode_length(prefix: &[u8]) -> (r: u128)
    requires
        prefix@.len() == PREFIX_LEN,
    ensures
        r as nat == be_value(prefix@),
{
    let mut acc: u128 = 0;
    let mut i: usize = 0;
    proof {
        lemma_pow256_prefix();
    }
    while i < PREFIX_LEN
        invariant
            prefix@.len() == PREFIX_LEN,
            i <= PREFIX_LEN,
            acc as nat == be_value(prefix@.subrange(0, i as int)),
            pow256(PREFIX_LEN as nat) == 0x1_0000_0000_0000_0000_0000_0000_0000_0000,
        decreases PREFIX_LEN - i,
    {
        let ghost part = prefix@.subrange(0, i as int);
        let ghost next = prefix@.subrange(0, i + 1);
        proof {
            assert(next.drop_last() =~= part);
            lemma_be_value_bound(next);
            lemma_pow256_monotone((i + 1) as nat, PREFIX_LEN as nat);
        }
        acc = acc * 256 + prefix[i] as u128;
        i = i + 1;
    }
    assert(prefix@.subrange(0, PREFIX_LEN as int) =~= prefix@);
    acc
}

proof fn lemma_pow256_monotone(a: nat, b: nat)
    requires
        a <= b,
    ensures
        pow256(a) <= pow256(b),
    decreases b,
{
    if a < b {
        lemma_pow256_monotone(a, (b - 1) as nat);
    }
}

/// The payload length that a whole length prefix declares, where it fits
/// in memory.
pub fn payload_length(prefix: &[u8]) -> (r: Option<usize>)
    requires
        prefix@.len() == PREFIX_LEN,
    ensures
        be_value(prefix@) <= usize::MAX ==> r == Some(be_value(prefix@) as usize),
        be_value(prefix@) > usize::MAX ==> r is None,
{
    let n = decode_length(prefix);
    if n <= usize::MAX as u128 {
        Some(n as usize)
    } else {
        None
    }
}

/// The frame that carries `payload`: its length prefix, then the payload.
pub fn encode_frame(payload: &[u8]) -> (r: Vec<u8>)
    ensures
        r@ == frame_bytes(payload@),
{
    let mut out = encode_length(payload.len());
    let mut i: usize = 0;
    while i < payload.len()
        invariant
            i <= payload@.len(),
            out@ == be_bytes(payload@.len(), PREFIX_LEN as nat) + payload@.subrange(0, i as int),
        decreases payload@.len() - i,
    {
        out.push(payload[i]);
        i = i + 1;
        assert(out@ =~= be_bytes(payload@.len(), PREFIX_LEN as nat) + payload@.subrange(0, i as int));
    }
    assert(payload@.subrange(0, i as int) =~= payload@);
    out
}

/// One frame taken from the front of a stream.
pub struct Frame {
    /// The frame's payload.
    pub payload: Vec<u8>,
    /// How many bytes of the stream the frame took, prefix included.
    pub consumed: usize,
}

/// Reads one frame from the front of the bytes `stream`, which hold all that
/// the peer sent before it closed.
pub fn read_frame(stream: &[u8]) -> (r: Result<Frame, FrameError>)
    ensures
        match r {
            Ok(f) => parse_frame(stream@) == Ok::<(Seq<u8>, nat), FrameError>(
                (f.payload@, f.consumed as nat),
            ),
            Err(e) => parse_frame(stream@) == Err::<(Seq<u8>, nat), FrameError>(e),
        },
{
    if stream.len() < PREFIX_LEN {
        return Err(FrameError::Closed);
    }
    let prefix = slice_range(stream, 0, PREFIX_LEN);
    let n = decode_length(prefix.as_slice());
    assert(prefix@ =~= stream@.subrange(0, PREFIX_LEN as int));
    if ((stream.len() - PREFIX_LEN) as u128) < n {
        return Err(FrameError::Truncated);
    }
    let end = PREFIX_LEN + n as usize;
    let payload = slice_range(stream, PREFIX_LEN, end);
    Ok(Frame { payload, consumed: end })
}

/// The bytes of `s` from `lo` up to `hi`.
fn slice_range(s: &[u8], lo: usize, hi: usize) -> (r: Vec<u8>)
    requires
        lo <= hi <= s@.len(),
    ensures
        r@ == s@.subrange(lo as int, hi as int),
{
    let mut out: Vec<u8> = Vec::new();
    let mut i: usize = lo;
    while i < hi
        invariant
            lo <= i <= hi <= s@.len(),
            out@ == s@.subrange(lo as int, i as int),
        decreases hi - i,
    {
        out.push(s[i]);
        i = i + 1;
        assert(out@ =~= s@.subrange(lo as int, i as int));
    }
    out
}

/// Reading back a frame yields the payload it was written with, whatever
/// follows it on the stream, and takes exactly the frame's bytes.
pub proof fn lemma_frame_round_trip(payload: Seq<u8>, rest: Seq<u8>)
    requires
        payload.len() <= usize::MAX,
    ensures
        parse_frame(frame_bytes(payload) + rest) == Ok::<(Seq<u8>, nat), FrameError>(
            (payload, (PREFIX_LEN + payload.len()) as nat),
        ),
{
    lemma_pow256_prefix();
    lemma_be_round_trip(payload.len(), PREFIX_LEN as nat);
    let s = frame_bytes(payload) + rest;
    let pre = be_bytes(payload.len(), PREFIX_LEN as nat);
    assert(s.subrange(0, PREFIX_LEN as int) =~= pre);
    assert(s.subrange(PREFIX_LEN as int, PREFIX_LEN + payload.len()) =~= payload);
}

/// A stream that stops after a whole length prefix but before the payload it
/// declares is complete is refused as truncated, never read as a shorter
/// payload.
pub proof fn lemma_truncated_frame_refused(payload: Seq<u8>, cut: nat)
    requires
        payload.len() <= usize::MAX,
        PREFIX_LEN <= cut < PREFIX_LEN + payload.len(),
    ensures
        parse_frame(frame_bytes(payload).subrange(0, cut as int)) == Err::<(Seq<u8>, nat), FrameError>(
            FrameError::Truncated,
        ),
{
    lemma_pow256_prefix();
    lemma_be_round_trip(payload.len(), PREFIX_LEN as nat);
    let s = frame_bytes(payload).subrange(0, cut as int);
    assert(s.subrange(0, PREFIX_LEN as int) =~= be_bytes(payload.len(), PREFIX_LEN as nat));
}

/// A stream that closes before it produced a single byte reads as a clean
/// close, not as a fault.
pub proof fn lemma_empty_stream_closed()
    ensures
        parse_frame(Seq::<u8>::empty()) == Err::<(Seq<u8>, nat), FrameError>(FrameError::Closed),
{
}

} // verus!
