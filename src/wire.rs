//! Big-endian integer layout used by every header field of the protocol.

use vstd::prelude::*;

verus! {

/// The eight bytes of `v`, most significant first.
#[verifier::opaque]
pub open spec fn be_bytes(v: u64) -> Seq<u8> {
    seq![
        (v >> 56u64) as u8,
        (v >> 48u64) as u8,
        (v >> 40u64) as u8,
        (v >> 32u64) as u8,
        (v >> 24u64) as u8,
        (v >> 16u64) as u8,
        (v >> 8u64) as u8,
        v as u8,
    ]
}

/// The integer that the first eight bytes of `s` hold, most significant first.
#[verifier::opaque]
pub open spec fn be_value(s: Seq<u8>) -> u64
    recommends
        s.len() >= 8,
{
    ((s[0] as u64) << 56u64) | ((s[1] as u64) << 48u64) | ((s[2] as u64) << 40u64) | ((
    s[3] as u64) << 32u64) | ((s[4] as u64) << 24u64) | ((s[5] as u64) << 16u64) | ((
    s[6] as u64) << 8u64) | (s[7] as u64)
}

/// An encoded integer takes eight bytes.
pub broadcast proof fn lemma_be_bytes_len(v: u64)
    ensures
        #[trigger] be_bytes(v).len() == 8,
{
    reveal(be_bytes);
}

/// Reading back what was written gives the same integer.
pub broadcast proof fn lemma_be_value_of_bytes(v: u64)
    ensures
        #[trigger] be_value(be_bytes(v)) == v,
{
    reveal(be_bytes);
    reveal(be_value);
    assert(((((v >> 56u64) as u8) as u64) << 56u64) | ((((v >> 48u64) as u8) as u64) << 48u64)
        | ((((v >> 40u64) as u8) as u64) << 40u64) | ((((v >> 32u64) as u8) as u64) << 32u64) | ((
    ((v >> 24u64) as u8) as u64) << 24u64) | ((((v >> 16u64) as u8) as u64) << 16u64) | ((((v
        >> 8u64) as u8) as u64) << 8u64) | ((v as u8) as u64) == v) by (bit_vector);
}

/// Writes `v` big-endian over `buf[at..at + 8]`.
pub fn put_u64_be(buf: &mut Vec<u8>, at: usize, v: u64)
    requires
        at + 8 <= old(buf)@.len(),
    ensures
        final(buf)@ == old(buf)@.subrange(0, at as int) + be_bytes(v) + old(buf)@.subrange(
            at + 8,
            old(buf)@.len() as int,
        ),
{
    reveal(be_bytes);
    let n = buf.len();
    assert(at + 8 <= n);
    buf.set(at, #[verifier::truncate] ((v >> 56u64) as u8));
    buf.set(at + 1, #[verifier::truncate] ((v >> 48u64) as u8));
    buf.set(at + 2, #[verifier::truncate] ((v >> 40u64) as u8));
    buf.set(at + 3, #[verifier::truncate] ((v >> 32u64) as u8));
    buf.set(at + 4, #[verifier::truncate] ((v >> 24u64) as u8));
    buf.set(at + 5, #[verifier::truncate] ((v >> 16u64) as u8));
    buf.set(at + 6, #[verifier::truncate] ((v >> 8u64) as u8));
    buf.set(at + 7, #[verifier::truncate] (v as u8));
    assert(final(buf)@ =~= old(buf)@.subrange(0, at as int) + be_bytes(v) + old(buf)@.subrange(
        at + 8,
        old(buf)@.len() as int,
    ));
}

/// Reads the big-endian integer held by `b[at..at + 8]`.
pub fn get_u64_be(b: &[u8], at: usize) -> (r: u64)
    requires
        at + 8 <= b@.len(),
    ensures
        r == be_value(b@.subrange(at as int, at + 8)),
{
    reveal(be_value);
    ((b[at] as u64) << 56u64) | ((b[at + 1] as u64) << 48u64) | ((b[at + 2] as u64) << 40u64) | ((
    b[at + 3] as u64) << 32u64) | ((b[at + 4] as u64) << 24u64) | ((b[at + 5] as u64) << 16u64)
        | ((b[at + 6] as u64) << 8u64) | (b[at + 7] as u64)
}

} // verus!
