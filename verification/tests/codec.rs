use encoder::encoding::{
    decode, decode_bytes, decode_bytes_strict, encodingRequest, ArbitrageRequest,
};
use encoder::error::CodecError;
use encoder::hex_text::to_hex;
use encoder::hop::{ArbitrageHop, PoolKind, SellSide};
use encoder::uint256::Uint256;

const POOL_A: [u8; 20] = [
    0xB4, 0xe1, 0x6d, 0x01, 0x68, 0xe5, 0x2d, 0x35, 0xCa, 0xCD, 0x2c, 0x61, 0x85, 0xb4, 0x42, 0x81,
    0xEc, 0x28, 0xC9, 0xDc,
];

const POOL_B: [u8; 20] = [
    0x88, 0xe6, 0xA0, 0xc2, 0xdD, 0xD2, 0x6F, 0xEE, 0xb6, 0x4F, 0x03, 0x9a, 0x2c, 0x41, 0x29, 0x6F,
    0xcB, 0x3f, 0x56, 0x40,
];

const SAMPLE_HEX: &str = "0x\
00000000000000000de0b6b3a7640000\
000000000000000000038d7ea4c68000\
01b4e16d0168e52d35cacd2c6185b44281ec28c9dc\
0288e6a0c2ddd26feeb64f039a2c41296fcb3f5640";

fn sample() -> ArbitrageRequest {
    ArbitrageRequest {
        input_amount: Uint256::from_u128(1_000_000_000_000_000_000),
        min_profit: Uint256::from_u128(1_000_000_000_000_000),
        hops: vec![
            ArbitrageHop {
                pool_kind: PoolKind::KindA,
                sell_side: SellSide::Token0,
                pool_address: POOL_A,
            },
            ArbitrageHop {
                pool_kind: PoolKind::KindB,
                sell_side: SellSide::Token1,
                pool_address: POOL_B,
            },
        ],
    }
}

fn request_with_hops(count: usize) -> ArbitrageRequest {
    let mut hops = Vec::new();
    for i in 0..count {
        let mut pool_address = [0u8; 20];
        for (j, byte) in pool_address.iter_mut().enumerate() {
            *byte = (i * 20 + j) as u8;
        }
        hops.push(ArbitrageHop {
            pool_kind: if i % 2 == 0 { PoolKind::KindA } else { PoolKind::KindB },
            sell_side: if i % 3 == 0 { SellSide::Token0 } else { SellSide::Token1 },
            pool_address,
        });
    }
    ArbitrageRequest {
        input_amount: Uint256::from_u128(0x0102_0304_0506_0708_090a_0b0c_0d0e_0f10),
        min_profit: Uint256::from_u128(42),
        hops,
    }
}

#[test]
fn round_trip_returns_the_request() {
    for count in [0usize, 1, 2, 3, 7, 40] {
        let request = request_with_hops(count);
        let bytes = request.encode().unwrap();
        assert_eq!(decode_bytes(&bytes), Ok(request.clone()));
        assert_eq!(decode_bytes_strict(&bytes), Ok(request));
    }
}

#[test]
fn round_trip_keeps_hop_order() {
    let request = sample();
    let decoded = decode_bytes(&request.encode().unwrap()).unwrap();
    assert_eq!(decoded.hops[0].pool_address, POOL_A);
    assert_eq!(decoded.hops[1].pool_address, POOL_B);
    assert_eq!(decoded.hops[0].pool_kind, PoolKind::KindA);
    assert_eq!(decoded.hops[1].pool_kind, PoolKind::KindB);
    assert_eq!(decoded.hops[0].sell_side, SellSide::Token0);
    assert_eq!(decoded.hops[1].sell_side, SellSide::Token1);
}

#[test]
fn encoded_length_is_32_plus_21_per_hop() {
    for count in [0usize, 1, 2, 5, 100] {
        let bytes = request_with_hops(count).encode().unwrap();
        assert_eq!(bytes.len(), 32 + 21 * count);
    }
}

#[test]
fn zero_hops_encode_to_the_amount_header() {
    let request = ArbitrageRequest {
        input_amount: Uint256::from_u128(1),
        min_profit: Uint256::from_u128(2),
        hops: Vec::new(),
    };
    let bytes = request.encode().unwrap();
    let mut expected = vec![0u8; 32];
    expected[15] = 1;
    expected[31] = 2;
    assert_eq!(bytes, expected);
}

#[test]
fn thirty_two_bytes_decode_to_no_hops() {
    let mut bytes = vec![0u8; 32];
    bytes[14] = 0x01;
    bytes[15] = 0x02;
    bytes[31] = 0x09;
    let request = decode_bytes(&bytes).unwrap();
    assert!(request.hops.is_empty());
    assert_eq!(request.input_amount, Uint256::from_u128(0x0102));
    assert_eq!(request.min_profit, Uint256::from_u128(9));
}

#[test]
fn largest_amount_encodes_to_sixteen_ff() {
    let request = ArbitrageRequest {
        input_amount: Uint256::from_u128(u128::MAX),
        min_profit: Uint256::from_u128(0),
        hops: Vec::new(),
    };
    let bytes = request.encode().unwrap();
    assert_eq!(&bytes[0..16], &[0xFFu8; 16]);
    assert_eq!(&bytes[16..32], &[0u8; 16]);
    assert_eq!(decode_bytes(&bytes), Ok(request));
}

#[test]
fn two_to_the_128_is_out_of_range() {
    let request = ArbitrageRequest {
        input_amount: Uint256([0, 0, 1, 0]),
        min_profit: Uint256::from_u128(0),
        hops: Vec::new(),
    };
    assert_eq!(request.encode(), Err(CodecError::ValueOutOfRange));
}

#[test]
fn a_wide_minimum_profit_is_out_of_range() {
    let mut request = sample();
    request.min_profit = Uint256([0, 0, 0, 1]);
    assert_eq!(request.encode(), Err(CodecError::ValueOutOfRange));
    request.min_profit = Uint256([u64::MAX, u64::MAX, u64::MAX, u64::MAX]);
    assert_eq!(request.encode(), Err(CodecError::ValueOutOfRange));
}

#[test]
fn length_33_is_malformed() {
    assert_eq!(decode_bytes(&[0u8; 33]), Err(CodecError::MalformedLength));
    assert_eq!(decode_bytes_strict(&[0u8; 33]), Err(CodecError::MalformedLength));
}

#[test]
fn other_bad_lengths_are_malformed() {
    for len in [0usize, 1, 16, 31, 34, 52, 54, 73, 75] {
        let bytes = vec![0u8; len];
        assert_eq!(decode_bytes(&bytes), Err(CodecError::MalformedLength));
    }
    for len in [32usize, 53, 74, 95] {
        let bytes = vec![0u8; len];
        assert_eq!(decode_bytes(&bytes).unwrap().hops.len(), (len - 32) / 21);
    }
}

#[test]
fn sample_request_encodes_to_the_known_bytes() {
    let bytes = sample().encode().unwrap();
    assert_eq!(bytes.len(), 74);
    assert_eq!(bytes[32], 0x01);
    assert_eq!(bytes[53], 0x02);
    assert_eq!(
        &bytes[0..16],
        &[0, 0, 0, 0, 0, 0, 0, 0, 0x0d, 0xe0, 0xb6, 0xb3, 0xa7, 0x64, 0x00, 0x00]
    );
    assert_eq!(
        &bytes[16..32],
        &[0, 0, 0, 0, 0, 0, 0, 0, 0x00, 0x03, 0x8d, 0x7e, 0xa4, 0xc6, 0x80, 0x00]
    );
    assert_eq!(&bytes[33..53], &POOL_A);
    assert_eq!(&bytes[54..74], &POOL_B);
    assert_eq!(to_hex(&bytes), SAMPLE_HEX);
}

#[test]
fn encoding_request_gives_the_sample_bytes() {
    let bytes = encodingRequest();
    assert_eq!(bytes, sample().encode().unwrap());
    assert_eq!(to_hex(&bytes), SAMPLE_HEX);
}

#[test]
fn encoding_is_deterministic() {
    assert_eq!(sample().encode(), sample().encode());
    assert_eq!(encodingRequest(), encodingRequest());
}

#[test]
fn strict_decoding_rejects_a_reserved_bit() {
    let mut bytes = sample().encode().unwrap();
    bytes[53] |= 0x04;
    assert_eq!(decode_bytes_strict(&bytes), Err(CodecError::InvalidHopHeader));
    bytes[53] = 0x82;
    assert_eq!(decode_bytes_strict(&bytes), Err(CodecError::InvalidHopHeader));
}

#[test]
fn lenient_decoding_passes_over_reserved_bits() {
    let mut bytes = sample().encode().unwrap();
    bytes[32] = 0xFD;
    bytes[53] = 0xFE;
    assert_eq!(decode_bytes(&bytes), Ok(sample()));
}

#[test]
fn a_bad_length_comes_before_a_bad_header() {
    let mut bytes = sample().encode().unwrap();
    bytes[32] = 0xFF;
    bytes.push(0);
    assert_eq!(decode_bytes_strict(&bytes), Err(CodecError::MalformedLength));
}

#[test]
fn strictly_decoded_bytes_encode_to_themselves() {
    let mut bytes = vec![0u8; 32 + 21 * 4];
    for (i, byte) in bytes.iter_mut().enumerate() {
        *byte = (i * 7 + 3) as u8;
    }
    for hop in 0..4 {
        bytes[32 + 21 * hop] = hop as u8;
    }
    let request = decode_bytes_strict(&bytes).unwrap();
    assert_eq!(request.encode().unwrap(), bytes);
}

#[test]
fn text_decodes_to_the_sample() {
    assert_eq!(decode(SAMPLE_HEX), Ok(sample()));
}

#[test]
fn text_of_the_encoding_decodes_back() {
    let request = request_with_hops(3);
    let text = to_hex(&request.encode().unwrap());
    assert_eq!(decode(&text), Ok(request));
}

#[test]
fn text_accepts_upper_case_digits() {
    let upper = format!("0x{}", SAMPLE_HEX[2..].to_uppercase());
    assert_eq!(decode(&upper), Ok(sample()));
}

#[test]
fn text_without_the_prefix_is_invalid() {
    assert_eq!(decode(&SAMPLE_HEX[2..]), Err(CodecError::InvalidHexEncoding));
    assert_eq!(decode(""), Err(CodecError::InvalidHexEncoding));
    assert_eq!(decode("0"), Err(CodecError::InvalidHexEncoding));
    let upper_prefix = format!("0X{}", &SAMPLE_HEX[2..]);
    assert_eq!(decode(&upper_prefix), Err(CodecError::InvalidHexEncoding));
}

#[test]
fn text_with_a_bad_digit_is_invalid() {
    let bad = SAMPLE_HEX.replace("de0b", "dg0b");
    assert_eq!(decode(&bad), Err(CodecError::InvalidHexEncoding));
    let odd = format!("{}0", SAMPLE_HEX);
    assert_eq!(decode(&odd), Err(CodecError::InvalidHexEncoding));
    let not_ascii = format!("{}\u{e9}", SAMPLE_HEX);
    assert_eq!(decode(&not_ascii), Err(CodecError::InvalidHexEncoding));
}

#[test]
fn text_of_a_bad_length_is_malformed() {
    assert_eq!(decode("0x"), Err(CodecError::MalformedLength));
    assert_eq!(decode("0x00"), Err(CodecError::MalformedLength));
    let one_more = format!("{}00", SAMPLE_HEX);
    assert_eq!(decode(&one_more), Err(CodecError::MalformedLength));
}
