//! Big-endian byte strings: numbers written out byte by byte, most significant
//! byte first.

use crate::uint::U256;
use vstd::arithmetic::power::pow;
use vstd::prelude::*;

verus! {

/// The number that a big-endian byte string stands for.
pub open spec fn be_value(bytes: Seq<u8>) -> nat
    decreases bytes.len(),
{
    if bytes.len() == 0 {
        0
    } else {
        be_value(bytes.drop_last()) * 256 + bytes.last() as nat
    }
}

/// The lowest `len` bytes of a number, big-endian.
pub open spec fn be_fixed(x: nat, len: nat) -> Seq<u8>
    decreases len,
{
    if len == 0 {
        Seq::empty()
    } else {
        be_fixed(x / 256, (len - 1) as nat).push((x % 256) as u8)
    }
}

/// A number in as few big-endian bytes as possible; none for zero.
pub open spec fn be_minimal(x: nat) -> Seq<u8>
    decreases x,
{
    if x == 0 {
        Seq::empty()
    } else {
        be_minimal(x / 256).push((x % 256) as u8)
    }
}

/// `be_fixed` has the length asked for.
pub proof fn lemma_be_fixed_len(x: nat, len: nat)
    ensures
        be_fixed(x, len).len() == len,
    decreases len,
{
    if len > 0 {
        lemma_be_fixed_len(x / 256, (len - 1) as nat);
    }
}

/// Reading the shortest form of a number gives the number back.
pub proof fn lemma_be_minimal_value(x: nat)
    ensures
        be_value(be_minimal(x)) == x,
    decreases x,
{
    if x > 0 {
        lemma_be_minimal_value(x / 256);
        assert(be_minimal(x).drop_last() =~= be_minimal(x / 256));
    }
}

/// A number below `256^len` takes at most `len` bytes.
pub proof fn lemma_be_minimal_len(x: nat, len: nat)
    requires
        x < pow(256, len),
    ensures
        be_minimal(x).len() <= len,
    decreases len,
{
    reveal(pow);
    if len > 0 && x > 0 {
        let rest = pow(256, (len - 1) as nat);
        assert(x < 256 * rest);
        lemma_be_minimal_len(x / 256, (len - 1) as nat);
    }
}

/// Appends the lowest `len` bytes of a word, big-endian.
pub fn push_be_fixed(out: &mut Vec<u8>, x: U256, len: u8)
    ensures
        final(out)@ == old(out)@ + be_fixed(x@, len as nat),
    decreases len,
{
    if len > 0 {
        let (upper, byte) = x.split_byte();
        push_be_fixed(out, upper, len - 1);
        out.push(byte);
    }
    assert(out@ =~= old(out)@ + be_fixed(x@, len as nat));
}

/// Appends a word in as few big-endian bytes as possible.
pub fn push_be_minimal(out: &mut Vec<u8>, x: U256)
    ensures
        final(out)@ == old(out)@ + be_minimal(x@),
    decreases x@,
{
    if x != U256::zero() {
        let (upper, byte) = x.split_byte();
        push_be_minimal(out, upper);
        out.push(byte);
    }
    assert(out@ =~= old(out)@ + be_minimal(x@));
}

/// A copy of a byte string.
pub fn copy_bytes(bytes: &[u8]) -> (copy: Vec<u8>)
    ensures
        copy@ == bytes@,
{
    let mut copy: Vec<u8> = Vec::new();
    let mut i: usize = 0;
    while i < bytes.len()
        invariant
            i <= bytes@.len(),
            copy@ =~= bytes@.take(i as int),
        decreases bytes@.len() - i,
    {
        copy.push(bytes[i]);
        i = i + 1;
    }
    copy
}

} // verus!
