//! The request and the two directions of the codec: encoding a request into
//! its wire form, and decoding a wire form, or its text, into a request.

use crate::big_endian::{be_bytes, lemma_be_bytes_len, lemma_be_bytes_low};
use crate::buffer::{buf_bytes, buf_limit, put_slice, put_u8, to_vec};
use crate::error::CodecError;
use crate::hex_text::from_hex;
use crate::hop::{
    header_byte, header_is_clean, reserved_bits_clear, ArbitrageHop, HopView, PoolKind, SellSide,
};
use crate::uint256::{lemma_value_determines_limbs, Uint256};
use crate::wire::{
    block_at, lemma_decoded_is_valid, lemma_parse_of_wire, lemma_wire_of_parsed,
    length_is_well_formed, parse, parse_route, parse_text, route_bytes, route_is_clean, wire_len,
    RequestView,
};
use bytes::BytesMut;
use vstd::prelude::*;
use vstd::string::StringSliceAdditionalSpecFns;

verus! {

/// An arbitrage execution request: what goes in, the least profit that is
/// acceptable, and the route of pools to swap through, in execution order.
#[derive(Clone, Debug, PartialEq, Eq)]
pub struct ArbitrageRequest {
    /// The amount that enters the first hop. Encodable if below 2^128.
    pub input_amount: Uint256,
    /// The least acceptable profit. Encodable if below 2^128.
    pub min_profit: Uint256,
    /// The hops of the route, in execution order.
    pub hops: Vec<ArbitrageHop>,
}

/// The views of a sequence of hops, in order.
pub open spec fn hop_views(hops: Seq<ArbitrageHop>) -> Seq<HopView> {
    Seq::new(hops.len(), |i: int| hops[i]@)
}

impl View for ArbitrageRequest {
    type V = RequestView;

    open spec fn view(&self) -> RequestView {
        RequestView {
            input_amount: self.input_amount@,
            min_profit: self.min_profit@,
            hops: hop_views(self.hops@),
        }
    }
}

/// Whether `res` is what `expected` says, a decoded request taken by its
/// view.
pub open spec fn decodes_as(
    res: Result<ArbitrageRequest, CodecError>,
    expected: Result<RequestView, CodecError>,
) -> bool {
    match res {
        Ok(request) => expected == Ok::<RequestView, CodecError>(request@),
        Err(e) => expected == Err::<RequestView, CodecError>(e),
    }
}

impl ArbitrageRequest {
    /// Encodes the request into its wire form.
    ///
    /// Fails with `ValueOutOfRange`, and only so, if an amount is 2^128 or
    /// more. The wire form must not be longer than an allocation can be.
    pub fn encode(&self) -> (res: Result<Vec<u8>, CodecError>)
        requires
            wire_len(self.hops@.len()) <= isize::MAX,
        ensures
            res is Ok <==> self@.amounts_fit(),
            res matches Ok(bytes) ==> bytes@ == self@.wire(),
            res matches Ok(bytes) ==> bytes@.len() == 32 + 21 * self.hops@.len(),
            res matches Err(e) ==> e == CodecError::ValueOutOfRange,
    {
        if !self.input_amount.fits_u128() || !self.min_profit.fits_u128() {
            return Err(CodecError::ValueOutOfRange);
        }
        let count = self.hops.len();
        let mut encoded = BytesMut::with_capacity(32 + count * 21);

        let input_amount_bytes = self.input_amount.to_be_bytes();
        put_slice(&mut encoded, &input_amount_bytes[16..32]);
        let min_profit_bytes = self.min_profit.to_be_bytes();
        put_slice(&mut encoded, &min_profit_bytes[16..32]);

        let ghost amounts = be_bytes(self@.input_amount, 16) + be_bytes(self@.min_profit, 16);
        let ghost route = hop_views(self.hops@);
        proof {
            lemma_be_bytes_low(self@.input_amount, 16, 16);
            lemma_be_bytes_low(self@.min_profit, 16, 16);
            lemma_be_bytes_len(self@.input_amount, 16);
            lemma_be_bytes_len(self@.min_profit, 16);
            assert(buf_bytes(encoded) =~= amounts + route_bytes(route.take(0)));
        }
        let mut i: usize = 0;
        while i < count
            invariant
                i <= count,
                count == self.hops@.len(),
                route == hop_views(self.hops@),
                amounts.len() == 32,
                buf_limit(encoded) == 32 + 21 * count,
                buf_bytes(encoded) == amounts + route_bytes(route.take(i as int)),
                buf_bytes(encoded).len() == 32 + 21 * i,
            decreases count - i,
        {
            let hop = &self.hops[i];
            put_u8(&mut encoded, header_byte(hop.pool_kind, hop.sell_side));
            put_slice(&mut encoded, hop.pool_address.as_slice());
            proof {
                let next = route.take(i + 1);
                assert(next.drop_last() =~= route.take(i as int));
                assert(buf_bytes(encoded) =~= amounts + route_bytes(next));
            }
            i += 1;
        }
        proof {
            assert(route.take(count as int) =~= route);
        }
        Ok(to_vec(&encoded))
    }
}

fn decode_with(bytes: &[u8], strict: bool) -> (res: Result<ArbitrageRequest, CodecError>)
    ensures
        decodes_as(res, parse(bytes@, strict)),
{
    let len = bytes.len();
    if len < 32 || (len - 32) % 21 != 0 {
        return Err(CodecError::MalformedLength);
    }
    let input_amount = Uint256::from_be_bytes(&bytes[0..16]);
    let min_profit = Uint256::from_be_bytes(&bytes[16..32]);

    let ghost body = bytes@.skip(32);
    let mut hops: Vec<ArbitrageHop> = Vec::new();
    let mut offset: usize = 32;
    while offset < len
        invariant
            len == bytes@.len(),
            body == bytes@.skip(32),
            32 <= offset <= len,
            (len - 32) % 21 == 0,
            offset == 32 + 21 * hops@.len(),
            hops@.len() <= body.len() / 21,
            forall|k: int|
                0 <= k < hops@.len() ==> (#[trigger] hops@[k])@ == HopView::parse(
                    block_at(body, k),
                ),
            strict ==> forall|k: int|
                0 <= k < hops@.len() ==> header_is_clean(#[trigger] block_at(body, k)[0]),
        decreases len - offset,
    {
        let ghost k = hops@.len() as int;
        let block = &bytes[offset..offset + 21];
        assert(block@ =~= block_at(body, k));
        if strict && !reserved_bits_clear(block[0]) {
            return Err(CodecError::InvalidHopHeader);
        }
        hops.push(ArbitrageHop::from_block(block));
        offset += 21;
    }
    let request = ArbitrageRequest { input_amount, min_profit, hops };
    assert(request@.hops =~= parse_route(body));
    Ok(request)
}

/// Decodes a wire form. Fails with `MalformedLength`, and only so, if the
/// length is below 32 or leaves a partial hop. Reserved header bits are
/// passed over. What comes back can be encoded.
pub fn decode_bytes(bytes: &[u8]) -> (res: Result<ArbitrageRequest, CodecError>)
    ensures
        decodes_as(res, parse(bytes@, false)),
        res is Ok <==> length_is_well_formed(bytes@.len()),
        res matches Err(e) ==> e == CodecError::MalformedLength,
        res matches Ok(request) ==> request@.valid() && bytes@.len() == wire_len(
            request.hops@.len(),
        ),
{
    proof {
        if parse(bytes@, false) is Ok {
            lemma_decoded_is_valid(bytes@, false);
        }
    }
    decode_with(bytes, false)
}

/// Decodes a wire form and insists that every hop header leaves its reserved
/// bits clear. Fails with `MalformedLength` on a bad length, else with
/// `InvalidHopHeader` if some header sets a reserved bit. What comes back
/// encodes to `bytes` again.
pub fn decode_bytes_strict(bytes: &[u8]) -> (res: Result<ArbitrageRequest, CodecError>)
    ensures
        decodes_as(res, parse(bytes@, true)),
        res is Ok <==> length_is_well_formed(bytes@.len()) && route_is_clean(bytes@.skip(32)),
        res matches Err(e) ==> e == (if length_is_well_formed(bytes@.len()) {
            CodecError::InvalidHopHeader
        } else {
            CodecError::MalformedLength
        }),
        res matches Ok(request) ==> request@.valid() && request@.wire() == bytes@,
{
    proof {
        if parse(bytes@, true) is Ok {
            lemma_decoded_is_valid(bytes@, true);
            lemma_wire_of_parsed(bytes@);
        }
    }
    decode_with(bytes, true)
}

/// Decodes the textual form of a wire form: `0x`, then two hexadecimal
/// digits per byte. Fails with `InvalidHexEncoding` if the text is not of
/// that shape, else with `MalformedLength` if the bytes are not a wire form.
pub fn decode(encoded: &str) -> (res: Result<ArbitrageRequest, CodecError>)
    ensures
        decodes_as(res, parse_text(encoded.spec_bytes())),
{
    match from_hex(encoded) {
        Ok(bytes) => decode_bytes(bytes.as_slice()),
        Err(e) => Err(e),
    }
}

/// The address of the first pool of the sample route.
pub open spec fn sample_pool_a() -> Seq<u8> {
    seq![
        0xB4u8, 0xe1, 0x6d, 0x01, 0x68, 0xe5, 0x2d, 0x35, 0xCa, 0xCD,
        0x2c, 0x61, 0x85, 0xb4, 0x42, 0x81, 0xEc, 0x28, 0xC9, 0xDc,
    ]
}

/// The address of the second pool of the sample route.
pub open spec fn sample_pool_b() -> Seq<u8> {
    seq![
        0x88u8, 0xe6, 0xA0, 0xc2, 0xdD, 0xD2, 0x6F, 0xEE, 0xb6, 0x4F,
        0x03, 0x9a, 0x2c, 0x41, 0x29, 0x6F, 0xcB, 0x3f, 0x56, 0x40,
    ]
}

/// The sample request: one ether in, a thousandth of an ether of profit at
/// least, through a pool of the first kind selling its first token and then
/// a pool of the second kind selling its second token.
pub open spec fn sample_request() -> RequestView {
    RequestView {
        input_amount: 1_000_000_000_000_000_000,
        min_profit: 1_000_000_000_000_000,
        hops: seq![
            HopView {
                pool_kind: PoolKind::KindA,
                sell_side: SellSide::Token0,
                pool_address: sample_pool_a(),
            },
            HopView {
                pool_kind: PoolKind::KindB,
                sell_side: SellSide::Token1,
                pool_address: sample_pool_b(),
            },
        ],
    }
}

/// The wire form of the sample request, byte for byte.
pub open spec fn sample_wire() -> Seq<u8> {
    seq![
        0x00u8, 0x00, 0x00, 0x00, 0x00, 0x00, 0x00, 0x00,
        0x0d, 0xe0, 0xb6, 0xb3, 0xa7, 0x64, 0x00, 0x00,
        0x00, 0x00, 0x00, 0x00, 0x00, 0x00, 0x00, 0x00,
        0x00, 0x03, 0x8d, 0x7e, 0xa4, 0xc6, 0x80, 0x00,
        0x01, 0xB4, 0xe1, 0x6d, 0x01, 0x68, 0xe5, 0x2d, 0x35, 0xCa, 0xCD,
        0x2c, 0x61, 0x85, 0xb4, 0x42, 0x81, 0xEc, 0x28, 0xC9, 0xDc,
        0x02, 0x88, 0xe6, 0xA0, 0xc2, 0xdD, 0xD2, 0x6F, 0xEE, 0xb6, 0x4F,
        0x03, 0x9a, 0x2c, 0x41, 0x29, 0x6F, 0xcB, 0x3f, 0x56, 0x40,
    ]
}

/// The sample request encodes to the bytes of `sample_wire`.
pub proof fn lemma_sample_wire()
    ensures
        sample_request().valid(),
        sample_request().wire() == sample_wire(),
{
    let request = sample_request();
    assert(be_bytes(request.input_amount, 16) =~= sample_wire().subrange(0, 16)) by {
        reveal_with_fuel(be_bytes, 17);
    }
    assert(be_bytes(request.min_profit, 16) =~= sample_wire().subrange(16, 32)) by {
        reveal_with_fuel(be_bytes, 17);
    }
    assert(route_bytes(request.hops) =~= sample_wire().skip(32)) by {
        reveal_with_fuel(route_bytes, 3);
        assert(request.hops.drop_last().drop_last() =~= Seq::<HopView>::empty());
        assert(request.hops.drop_last().last() == request.hops[0]);
    }
    assert(request.wire() =~= sample_wire());
}

/// Builds the sample request and encodes it: 74 bytes.
#[allow(non_snake_case)]
pub fn encodingRequest() -> (encoded: Vec<u8>)
    ensures
        encoded@ == sample_request().wire(),
        encoded@ == sample_wire(),
        encoded@.len() == 74,
{
    let arbitrage_request = ArbitrageRequest {
        input_amount: Uint256::from_u128(1_000_000_000_000_000_000),
        min_profit: Uint256::from_u128(1_000_000_000_000_000),
        hops: vec![
            ArbitrageHop {
                pool_kind: PoolKind::KindA,
                sell_side: SellSide::Token0,
                pool_address: [
                    0xB4, 0xe1, 0x6d, 0x01, 0x68, 0xe5, 0x2d, 0x35, 0xCa, 0xCD,
                    0x2c, 0x61, 0x85, 0xb4, 0x42, 0x81, 0xEc, 0x28, 0xC9, 0xDc,
                ],
            },
            ArbitrageHop {
                pool_kind: PoolKind::KindB,
                sell_side: SellSide::Token1,
                pool_address: [
                    0x88, 0xe6, 0xA0, 0xc2, 0xdD, 0xD2, 0x6F, 0xEE, 0xb6, 0x4F,
                    0x03, 0x9a, 0x2c, 0x41, 0x29, 0x6F, 0xcB, 0x3f, 0x56, 0x40,
                ],
            },
        ],
    };
    proof {
        assert(arbitrage_request@.hops =~= sample_request().hops);
        lemma_sample_wire();
    }
    let res = arbitrage_request.encode();
    res.unwrap()
}

/// Two requests with the same view agree field for field: the same limbs
/// in both amounts, and the same hops in the same order.
pub proof fn lemma_view_determines_fields(a: ArbitrageRequest, b: ArbitrageRequest)
    requires
        a@ == b@,
    ensures
        a.input_amount == b.input_amount,
        a.min_profit == b.min_profit,
        a.hops@ == b.hops@,
{
    lemma_value_determines_limbs(a.input_amount, b.input_amount);
    lemma_value_determines_limbs(a.min_profit, b.min_profit);
    assert(a.hops@.len() == hop_views(a.hops@).len());
    assert forall|i: int| 0 <= i < a.hops@.len() implies a.hops@[i] == b.hops@[i] by {
        assert(a.hops@[i]@ == hop_views(a.hops@)[i]);
        assert(b.hops@[i]@ == hop_views(b.hops@)[i]);
        assert(a.hops@[i].pool_address =~= b.hops@[i].pool_address);
    }
    assert(a.hops@ =~= b.hops@);
}

/// The round-trip law on requests themselves. If the amounts of `request`
/// fit in 128 bits, its wire form decodes, with or without the check of the
/// reserved bits, and what it decodes to agrees with `request` field for
/// field: the same amounts, and the same hops in the same order.
pub proof fn lemma_round_trip(request: ArbitrageRequest, decoded: ArbitrageRequest, strict: bool)
    requires
        request@.amounts_fit(),
    ensures
        parse(request@.wire(), strict) == Ok::<RequestView, CodecError>(request@),
        decodes_as(Ok(decoded), parse(request@.wire(), strict)) ==> {
            &&& decoded.input_amount == request.input_amount
            &&& decoded.min_profit == request.min_profit
            &&& decoded.hops@ == request.hops@
        },
{
    lemma_parse_of_wire(request@, strict);
    if decodes_as(Ok(decoded), parse(request@.wire(), strict)) {
        lemma_view_determines_fields(decoded, request);
    }
}

} // verus!
