use encoder::uint256::Uint256;
use ethers::types::U256;

#[test]
fn from_u128_splits_into_two_limbs() {
    assert_eq!(Uint256::from_u128(0), Uint256([0, 0, 0, 0]));
    assert_eq!(Uint256::from_u128(1), Uint256([1, 0, 0, 0]));
    assert_eq!(Uint256::from_u128(1 << 64), Uint256([0, 1, 0, 0]));
    assert_eq!(Uint256::from_u128(u128::MAX), Uint256([u64::MAX, u64::MAX, 0, 0]));
    assert_eq!(
        Uint256::from_u128(0x0102_0304_0506_0708_090a_0b0c_0d0e_0f10),
        Uint256([0x090a_0b0c_0d0e_0f10, 0x0102_0304_0506_0708, 0, 0])
    );
}

#[test]
fn limbs_agree_with_the_decimal_value() {
    let one_ether = U256::from_dec_str("1000000000000000000").unwrap();
    assert_eq!(Uint256::from_u128(1_000_000_000_000_000_000).0, one_ether.0);
    let two_to_128 = U256::from_dec_str("340282366920938463463374607431768211456").unwrap();
    assert_eq!(Uint256([0, 0, 1, 0]).0, two_to_128.0);
}

#[test]
fn fits_u128_below_two_to_the_128() {
    assert!(Uint256::from_u128(0).fits_u128());
    assert!(Uint256::from_u128(u128::MAX).fits_u128());
    assert!(!Uint256([0, 0, 1, 0]).fits_u128());
    assert!(!Uint256([0, 0, 0, 1]).fits_u128());
    assert!(!Uint256([5, 6, 7, 8]).fits_u128());
}

#[test]
fn to_be_bytes_puts_the_high_limb_first() {
    let bytes = Uint256([0x1112_1314_1516_1718, 0x2122_2324_2526_2728, 0x3132_3334_3536_3738, 0x4142_4344_4546_4748])
        .to_be_bytes();
    assert_eq!(
        bytes,
        [
            0x41, 0x42, 0x43, 0x44, 0x45, 0x46, 0x47, 0x48, 0x31, 0x32, 0x33, 0x34, 0x35, 0x36,
            0x37, 0x38, 0x21, 0x22, 0x23, 0x24, 0x25, 0x26, 0x27, 0x28, 0x11, 0x12, 0x13, 0x14,
            0x15, 0x16, 0x17, 0x18,
        ]
    );
}

#[test]
fn to_be_bytes_of_one_ether() {
    let bytes = Uint256::from_u128(1_000_000_000_000_000_000).to_be_bytes();
    let mut expected = [0u8; 32];
    expected[24..32].copy_from_slice(&[0x0d, 0xe0, 0xb6, 0xb3, 0xa7, 0x64, 0x00, 0x00]);
    assert_eq!(bytes, expected);
}

#[test]
fn from_be_bytes_reads_short_and_full_inputs() {
    assert_eq!(Uint256::from_be_bytes(&[]), Uint256([0, 0, 0, 0]));
    assert_eq!(Uint256::from_be_bytes(&[0x01, 0x02]), Uint256([0x0102, 0, 0, 0]));
    let sixteen = [
        0x01, 0x02, 0x03, 0x04, 0x05, 0x06, 0x07, 0x08, 0x09, 0x0a, 0x0b, 0x0c, 0x0d, 0x0e, 0x0f,
        0x10,
    ];
    assert_eq!(
        Uint256::from_be_bytes(&sixteen),
        Uint256([0x090a_0b0c_0d0e_0f10, 0x0102_0304_0506_0708, 0, 0])
    );
    let mut full = [0u8; 32];
    full[0] = 0x80;
    full[31] = 0x01;
    assert_eq!(Uint256::from_be_bytes(&full), Uint256([1, 0, 0, 0x8000_0000_0000_0000]));
}

#[test]
fn be_bytes_round_trip() {
    let value = Uint256([1, 2, 3, 4]);
    assert_eq!(Uint256::from_be_bytes(&value.to_be_bytes()), value);
}
