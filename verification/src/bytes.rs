//! Big-endian byte-order helpers for the four-byte integers that the wire
//! protocol uses: frame lengths and connection ids.

use vstd::prelude::*;

verus! {

/// The integer value of the first four bytes of `s`, read big-endian.
pub open spec fn be32_val(s: Seq<u8>) -> int
    recommends
        s.len() >= 4,
{
    s[0] * 0x1000000 + s[1] * 0x10000 + s[2] * 0x100 + s[3]
}

/// The four big-endian bytes of `n`.
pub open spec fn be32_bytes(n: u32) -> Seq<u8> {
    seq![
        (n / 0x1000000) as u8,
        ((n / 0x10000) % 0x100) as u8,
        ((n / 0x100) % 0x100) as u8,
        (n % 0x100) as u8,
    ]
}

/// Reading back the four bytes of `n` yields `n`.
pub proof fn lemma_be32_round_trip(n: u32)
    ensures
        be32_val(be32_bytes(n)) == n,
{
    let s = be32_bytes(n);
    assert(s[0] == (n / 0x1000000) as u8);
    assert(n / 0x1000000 < 0x100);
    assert(be32_val(s) == (n / 0x1000000) * 0x1000000 + ((n / 0x10000) % 0x100) * 0x10000 + ((n
        / 0x100) % 0x100) * 0x100 + n % 0x100);
    assert(n == (n / 0x1000000) * 0x1000000 + ((n / 0x10000) % 0x100) * 0x10000 + ((n / 0x100)
        % 0x100) * 0x100 + n % 0x100) by (nonlinear_arith);
}

/// Two byte strings that agree on their first four bytes read back the same
/// integer.
pub proof fn lemma_be32_val_prefix(a: Seq<u8>, b: Seq<u8>)
    requires
        a.len() >= 4,
        b.len() >= 4,
        forall|i: int| 0 <= i < 4 ==> a[i] == b[i],
    ensures
        be32_val(a) == be32_val(b),
{
}

/// Appends the four big-endian bytes of `n` to `out`.
pub fn put_u32_be(out: &mut Vec<u8>, n: u32)
    ensures
        final(out)@ == old(out)@ + be32_bytes(n),
{
    out.push((n / 0x1000000) as u8);
    out.push(((n / 0x10000) % 0x100) as u8);
    out.push(((n / 0x100) % 0x100) as u8);
    out.push((n % 0x100) as u8);
    assert(out@ =~= old(out)@ + be32_bytes(n));
}

/// Reads the four bytes of `s` starting at `at` as a big-endian integer.
pub fn get_u32_be(s: &[u8], at: usize) -> (n: u32)
    requires
        at + 4 <= s@.len(),
    ensures
        n == be32_val(s@.subrange(at as int, at + 4)),
{
    let b0: u8 = s[at];
    let b1: u8 = s[at + 1];
    let b2: u8 = s[at + 2];
    let b3: u8 = s[at + 3];
    assert(b0 * 0x1000000 + b1 * 0x10000 + b2 * 0x100 + b3 <= 0xffffffff) by (nonlinear_arith)
        requires
            b0 < 0x100 && b1 < 0x100 && b2 < 0x100 && b3 < 0x100,
    ;
    let n: u32 = (b0 as u32) * 0x1000000 + (b1 as u32) * 0x10000 + (b2 as u32) * 0x100 + (
    b3 as u32);
    proof {
        let sub = s@.subrange(at as int, at + 4);
        assert(sub[0] == b0 && sub[1] == b1 && sub[2] == b2 && sub[3] == b3);
    }
    n
}

} // verus!
