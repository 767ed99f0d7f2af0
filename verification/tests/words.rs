use executive::bytes::{copy_bytes, push_be_fixed, push_be_minimal};
use executive::hash::{Address, H256};
use executive::output::OutputBuffer;
use executive::uint::{mul_u128, U256, U512};

const ALL: U256 = U256 { hi: u128::MAX, lo: u128::MAX };

#[test]
fn sums_and_differences_wrap() {
    assert_eq!(U256::from_u64(2).wrapping_add(U256::from_u64(3)), U256::from_u64(5));
    assert_eq!(U256::from_u128(u128::MAX).wrapping_add(U256::one()), U256 { hi: 1, lo: 0 });
    assert_eq!(ALL.wrapping_add(U256::one()), U256::zero());
    assert_eq!(U256 { hi: 1, lo: 0 }.wrapping_sub(U256::one()), U256::from_u128(u128::MAX));
    assert_eq!(U256::zero().wrapping_sub(U256::one()), ALL);
    assert_eq!(U256::from_usize(7).wrapping_sub(U256::from_usize(3)), U256::from_u64(4));
}

#[test]
fn products() {
    assert_eq!(U256::from_u64(6).wrapping_mul(U256::from_u64(7)), U256::from_u64(42));
    assert_eq!(mul_u128(u128::MAX, u128::MAX), U256 { hi: u128::MAX - 1, lo: 1 });
    assert_eq!(
        ALL.full_mul(ALL),
        U512 { hi: U256 { hi: u128::MAX, lo: u128::MAX - 1 }, lo: U256::one() },
    );
    assert_eq!(ALL.wrapping_mul(ALL), U256::one());
    let shift = U256 { hi: 1, lo: 0 };
    assert_eq!(shift.full_mul(shift), U512 { hi: U256::one(), lo: U256::zero() });
    assert_eq!(shift.wrapping_mul(shift), U256::zero());
}

#[test]
fn parts_of_a_word() {
    assert_eq!(U256 { hi: 3, lo: 5 }.half(), U256 { hi: 1, lo: (1u128 << 127) + 2 });
    assert_eq!(U256 { hi: 0x1ff, lo: 0x203 }.split_byte(), (U256 { hi: 1, lo: (0xffu128 << 120) + 2 }, 3));
    assert_eq!(U256 { hi: 9, lo: (7 << 64) + 6 }.low_u64(), 6);
}

#[test]
fn words_are_ordered_by_value() {
    assert!(U256 { hi: 0, lo: u128::MAX } < U256 { hi: 1, lo: 0 });
    assert!(U256 { hi: 1, lo: 1 } > U256 { hi: 1, lo: 0 });
    assert!(ALL <= ALL);
    assert!(U512::from_u256(ALL) < U512 { hi: U256::one(), lo: U256::zero() });
}

#[test]
fn wide_sums() {
    let sum = U512::from_u256(ALL).wrapping_add(U512::from_u256(U256::one()));
    assert_eq!(sum, U512 { hi: U256::one(), lo: U256::zero() });
    assert_eq!(sum.low_u256(), U256::zero());
    let most = U512 { hi: ALL, lo: ALL };
    assert_eq!(most.wrapping_add(U512::from_u256(U256::one())), U512::from_u256(U256::zero()));
}

#[test]
fn big_endian_bytes() {
    let mut out = vec![1];
    push_be_fixed(&mut out, U256::from_u64(0x0203), 3);
    assert_eq!(out, vec![1, 0, 2, 3]);
    push_be_minimal(&mut out, U256::from_u64(0x0405));
    assert_eq!(out, vec![1, 0, 2, 3, 4, 5]);
    push_be_minimal(&mut out, U256::zero());
    assert_eq!(copy_bytes(&out), vec![1, 0, 2, 3, 4, 5]);

    let hash = H256::from_u256(&U256 { hi: 1, lo: 2 });
    let mut expected = [0u8; 32];
    expected[15] = 1;
    expected[31] = 2;
    assert_eq!(hash, H256 { bytes: expected });
    let mut tail = [0u8; 20];
    tail[3] = 1;
    tail[19] = 2;
    assert_eq!(Address::from_hash(&hash), Address { bytes: tail });
    assert!(Address::zero().same(&Address { bytes: [0; 20] }));
    assert!(!hash.same(&H256::new()));
}

#[test]
fn buffers_for_returned_data() {
    let mut fixed = OutputBuffer::Fixed(vec![1, 2, 3]);
    fixed.write(&[9]);
    assert_eq!(fixed.into_bytes(), vec![9, 2, 3]);
    let mut fixed = OutputBuffer::Fixed(vec![1, 2, 3]);
    fixed.write(&[9, 8, 7, 6]);
    assert_eq!(fixed.into_bytes(), vec![9, 8, 7]);
    let mut flexible = OutputBuffer::Flexible(vec![1, 2, 3]);
    flexible.write(&[9, 8, 7, 6]);
    assert_eq!(flexible.into_bytes(), vec![9, 8, 7, 6]);
}
