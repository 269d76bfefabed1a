//! Framing of the request/response transport: each message is its length as four
//! little-endian bytes, followed by that many bytes of body.
use vstd::prelude::*;

verus! {

/// Longest message body accepted, in bytes.
pub const MAX_MESSAGE_LEN: usize = 1000000;

/// Longest body a four-byte length can describe.
pub const MAX_FRAME_BODY: usize = 4294967295;

/// Why a length prefix or a body was refused.
#[derive(Debug, PartialEq, Eq, Structural, Clone, Copy)]
pub enum FrameError {
    /// A declared length over the accepted maximum.
    TooLarge,
}

/// The number four little-endian bytes stand for.
pub open spec fn le_u32(b: Seq<u8>) -> nat {
    b[0] as nat + 256 * (b[1] as nat) + 65536 * (b[2] as nat) + 16777216 * (b[3] as nat)
}

/// The four little-endian bytes of `n`.
pub open spec fn le_bytes(n: nat) -> Seq<u8> {
    seq![(n % 256) as u8, ((n / 256) % 256) as u8, ((n / 65536) % 256) as u8, ((n / 16777216) % 256) as u8]
}

/// Reading the four bytes written for a length gives that length back.
pub proof fn lemma_length_round_trip(n: nat)
    requires
        n <= MAX_FRAME_BODY,
    ensures
        le_bytes(n).len() == 4,
        le_u32(le_bytes(n)) == n,
{
    let b0 = n % 256;
    let b1 = (n / 256) % 256;
    let b2 = (n / 65536) % 256;
    let b3 = (n / 16777216) % 256;
    assert(n == b0 + 256 * b1 + 65536 * b2 + 16777216 * b3) by (nonlinear_arith)
        requires
            n <= 4294967295,
            b0 == n % 256,
            b1 == (n / 256) % 256,
            b2 == (n / 65536) % 256,
            b3 == (n / 16777216) % 256,
    {
        assert(n / 256 / 256 == n / 65536) by (nonlinear_arith);
        assert(n / 65536 / 256 == n / 16777216) by (nonlinear_arith);
        assert(n / 16777216 < 256) by (nonlinear_arith)
            requires n <= 4294967295;
    }
    assert(le_bytes(n)[0] as nat == b0);
    assert(le_bytes(n)[1] as nat == b1);
    assert(le_bytes(n)[2] as nat == b2);
    assert(le_bytes(n)[3] as nat == b3);
}

/// The body length a four-byte prefix declares, refused where it is over the maximum.
pub fn message_length(prefix: &[u8]) -> (r: Result<usize, FrameError>)
    requires
        prefix@.len() == 4,
    ensures
        le_u32(prefix@) <= MAX_MESSAGE_LEN ==> r == Ok::<usize, FrameError>(le_u32(prefix@) as usize),
        le_u32(prefix@) > MAX_MESSAGE_LEN ==> r == Err::<usize, FrameError>(FrameError::TooLarge),
{
    let n: u64 = prefix[0] as u64 + 256 * (prefix[1] as u64) + 65536 * (prefix[2] as u64)
        + 16777216 * (prefix[3] as u64);
    if n > MAX_MESSAGE_LEN as u64 {
        Err(FrameError::TooLarge)
    } else {
        Ok(n as usize)
    }
}

/// `body` preceded by its length as four little-endian bytes; a body too long for four
/// bytes is refused.
pub fn frame(body: &[u8]) -> (r: Result<Vec<u8>, FrameError>)
    ensures
        body@.len() <= MAX_FRAME_BODY ==> r is Ok && r->Ok_0@ == le_bytes(body@.len()) + body@,
        body@.len() > MAX_FRAME_BODY ==> r == Err::<Vec<u8>, FrameError>(FrameError::TooLarge),
{
    let n = body.len();
    if n > MAX_FRAME_BODY {
        return Err(FrameError::TooLarge);
    }
    let mut out: Vec<u8> = Vec::new();
    out.push((n % 256) as u8);
    out.push(((n / 256) % 256) as u8);
    out.push(((n / 65536) % 256) as u8);
    out.push(((n / 16777216) % 256) as u8);
    assert(out@ =~= le_bytes(n as nat));
    let mut i: usize = 0;
    while i < n
        invariant
            n == body@.len(),
            i <= n,
            out@ == le_bytes(n as nat) + body@.subrange(0, i as int),
        decreases n - i,
    {
        out.push(body[i]);
        assert(out@ =~= le_bytes(n as nat) + body@.subrange(0, i + 1));
        i = i + 1;
    }
    assert(body@.subrange(0, n as int) =~= body@);
    Ok(out)
}

} // verus!
