//! The recursive length prefix encoding of the pair from which a contract's
//! address is derived.

use crate::bytes::{be_minimal, be_value, lemma_be_minimal_len, lemma_be_minimal_value, push_be_minimal};
use crate::hash::Address;
use crate::uint::{two_128, two_256, U256};
use vstd::arithmetic::power::{lemma_pow_adds, pow};
use vstd::prelude::*;

verus! {

/// The encoding of a byte string of at most 55 bytes: a single byte below `0x80`
/// stands for itself, anything else follows its length.
pub open spec fn rlp_string(bytes: Seq<u8>) -> Seq<u8>
    recommends
        bytes.len() <= 55,
{
    if bytes.len() == 1 && bytes[0] < 0x80 {
        bytes
    } else {
        seq![(0x80 + bytes.len()) as u8] + bytes
    }
}

/// The encoding of a list whose encoded items take at most 55 bytes together.
pub open spec fn rlp_list(payload: Seq<u8>) -> Seq<u8>
    recommends
        payload.len() <= 55,
{
    seq![(0xc0 + payload.len()) as u8] + payload
}

/// The encoding of the list of an address and a nonce.
pub open spec fn rlp_address_nonce(address: Seq<u8>, nonce: nat) -> Seq<u8> {
    rlp_list(rlp_string(address) + rlp_string(be_minimal(nonce)))
}

/// A word takes at most 32 bytes.
pub proof fn lemma_word_len(x: nat)
    requires
        x < two_256(),
    ensures
        be_minimal(x).len() <= 32,
{
    assert(pow(256, 4) == 0x1_0000_0000) by {
        reveal_with_fuel(pow, 5);
    }
    lemma_pow_adds(256, 4, 4);
    assert(pow(256, 8) == 0x1_0000_0000_0000_0000);
    lemma_pow_adds(256, 8, 8);
    assert(pow(256, 16) == two_128());
    lemma_pow_adds(256, 16, 16);
    assert(pow(256, 32) == two_256());
    lemma_be_minimal_len(x, 32);
}

/// The encoding of the list of an address and a nonce.
pub fn encode_address_nonce(address: &Address, nonce: &U256) -> (encoding: Vec<u8>)
    ensures
        encoding@ == rlp_address_nonce(address@, nonce@),
{
    let mut number: Vec<u8> = Vec::new();
    push_be_minimal(&mut number, *nonce);
    let mut item: Vec<u8> = Vec::new();
    assert(number@ =~= be_minimal(nonce@));
    proof {
        lemma_word_len(nonce@);
    }
    if !(number.len() == 1 && number[0] < 0x80) {
        item.push(0x80 + number.len() as u8);
    }
    item.append(&mut number);
    assert(item@ =~= rlp_string(be_minimal(nonce@)));

    let mut encoding: Vec<u8> = Vec::new();
    encoding.push(0xc0 + 21 + item.len() as u8);
    encoding.push(0x80 + 20);
    let mut i: usize = 0;
    let ghost prefix = encoding@;
    while i < 20
        invariant
            i <= 20,
            encoding@ =~= prefix + address@.take(i as int),
        decreases 20 - i,
    {
        encoding.push(address.bytes[i]);
        i = i + 1;
    }
    encoding.append(&mut item);
    assert(encoding@ =~= rlp_address_nonce(address@, nonce@));
    encoding
}

/// Two different pairs of an address and a nonce have different encodings.
pub proof fn law_encoding_injective(a: Address, m: U256, b: Address, n: U256)
    requires
        rlp_address_nonce(a@, m@) == rlp_address_nonce(b@, n@),
    ensures
        a@ == b@,
        m@ == n@,
{
    let first = rlp_address_nonce(a@, m@);
    let second = rlp_address_nonce(b@, n@);
    let x = be_minimal(m@);
    let y = be_minimal(n@);
    lemma_word_len(m@);
    lemma_word_len(n@);
    assert(a@ =~= first.subrange(2, 22));
    assert(b@ =~= second.subrange(2, 22));
    assert(rlp_string(x) =~= first.skip(22));
    assert(rlp_string(y) =~= second.skip(22));
    if x.len() == 1 && x[0] < 0x80 {
        assert(rlp_string(x)[0] == rlp_string(y)[0]);
        assert(x =~= y);
    } else {
        assert(rlp_string(x)[0] == rlp_string(y)[0]);
        assert(x =~= rlp_string(x).skip(1));
        assert(!(y.len() == 1 && y[0] < 0x80));
        assert(y =~= rlp_string(y).skip(1));
    }
    lemma_be_minimal_value(m@);
    lemma_be_minimal_value(n@);
    assert(be_value(x) == be_value(y));
}

} // verus!
