//! The wire layout of a request, as a function from requests to bytes and
//! back, and the laws that the two directions obey.
//!
//! | Offset | Length | Field |
//! |---|---|---|
//! | 0 | 16 | input amount, big-endian |
//! | 16 | 16 | minimum profit, big-endian |
//! | 32 + 21·i | 1 | header of hop i: bit 1 the pool kind, bit 0 the sell side |
//! | 33 + 21·i | 20 | pool address of hop i |

use crate::big_endian::{
    be_bytes, be_value, lemma_be_bytes_len, lemma_be_bytes_of_value, lemma_be_value_bound,
    lemma_be_value_of_bytes, lemma_pow256_16,
};
use crate::error::CodecError;
use crate::hex_text::{hex_text_bytes, hex_text_of, lemma_hex_text_roundtrip};
use crate::hop::{header_is_clean, lemma_parse_block, HopView};
use crate::uint256::pow2_128;
use vstd::prelude::*;
use vstd::utf8::encode_utf8;

verus! {

/// A request as contracts speak of it.
pub struct RequestView {
    pub input_amount: nat,
    pub min_profit: nat,
    pub hops: Seq<HopView>,
}

/// The length of the wire form of a request with `hop_count` hops.
pub open spec fn wire_len(hop_count: nat) -> nat {
    32 + 21 * hop_count
}

/// The blocks of a route, one after the other in route order.
pub open spec fn route_bytes(hops: Seq<HopView>) -> Seq<u8>
    decreases hops.len(),
{
    if hops.len() == 0 {
        Seq::empty()
    } else {
        route_bytes(hops.drop_last()) + hops.last().block()
    }
}

impl RequestView {
    /// Whether both amounts are below 2^128.
    pub open spec fn amounts_fit(self) -> bool {
        self.input_amount < pow2_128() && self.min_profit < pow2_128()
    }

    /// Whether every pool address has twenty bytes.
    pub open spec fn addresses_fit(self) -> bool {
        forall|i: int| 0 <= i < self.hops.len() ==> (#[trigger] self.hops[i]).valid()
    }

    /// Whether the request has a wire form that stands for it: the amounts
    /// and the addresses fit their fields.
    pub open spec fn valid(self) -> bool {
        self.amounts_fit() && self.addresses_fit()
    }

    /// The wire form: both amounts in sixteen bytes each, then the route.
    pub open spec fn wire(self) -> Seq<u8> {
        be_bytes(self.input_amount, 16) + be_bytes(self.min_profit, 16) + route_bytes(self.hops)
    }
}

/// Whether a byte sequence has the length of a wire form: the amount header,
/// then whole hop blocks.
pub open spec fn length_is_well_formed(len: nat) -> bool {
    len >= 32 && (len - 32) % 21 == 0
}

/// The `i`-th 21-byte block of a route's bytes.
pub open spec fn block_at(body: Seq<u8>, i: int) -> Seq<u8> {
    body.subrange(21 * i, 21 * i + 21)
}

/// The hops that the whole blocks of `body` stand for, in wire order.
pub open spec fn parse_route(body: Seq<u8>) -> Seq<HopView> {
    Seq::new(body.len() / 21, |i: int| HopView::parse(block_at(body, i)))
}

/// Whether no block of `body` sets a reserved bit in its header.
pub open spec fn route_is_clean(body: Seq<u8>) -> bool {
    forall|i: int| 0 <= i < body.len() / 21 ==> header_is_clean(#[trigger] block_at(body, i)[0])
}

/// What a byte sequence decodes to. The length is judged first. With
/// `strict`, a reserved bit in any hop header is an error; without, reserved
/// bits are passed over.
pub open spec fn parse(bytes: Seq<u8>, strict: bool) -> Result<RequestView, CodecError> {
    if !length_is_well_formed(bytes.len()) {
        Err(CodecError::MalformedLength)
    } else if strict && !route_is_clean(bytes.skip(32)) {
        Err(CodecError::InvalidHopHeader)
    } else {
        Ok(
            RequestView {
                input_amount: be_value(bytes.subrange(0, 16)),
                min_profit: be_value(bytes.subrange(16, 32)),
                hops: parse_route(bytes.skip(32)),
            },
        )
    }
}

/// What a text decodes to, the text given by its UTF-8 bytes: the text must
/// be `0x` followed by the hexadecimal digits of a wire form.
pub open spec fn parse_text(text: Seq<u8>) -> Result<RequestView, CodecError> {
    match hex_text_bytes(text) {
        Some(bytes) => parse(bytes, false),
        None => Err(CodecError::InvalidHexEncoding),
    }
}

/// A route of `n` hops with 20-byte addresses takes `21 * n` bytes.
pub proof fn lemma_route_len(hops: Seq<HopView>)
    requires
        forall|i: int| 0 <= i < hops.len() ==> (#[trigger] hops[i]).valid(),
    ensures
        route_bytes(hops).len() == 21 * hops.len(),
    decreases hops.len(),
{
    if hops.len() > 0 {
        lemma_route_len(hops.drop_last());
    }
}

/// The blocks of a route's bytes are the blocks of its hops, in order.
pub proof fn lemma_route_blocks(hops: Seq<HopView>)
    requires
        forall|i: int| 0 <= i < hops.len() ==> (#[trigger] hops[i]).valid(),
    ensures
        route_bytes(hops).len() == 21 * hops.len(),
        forall|i: int|
            0 <= i < hops.len() ==> #[trigger] block_at(route_bytes(hops), i) == hops[i].block(),
    decreases hops.len(),
{
    lemma_route_len(hops);
    if hops.len() > 0 {
        let front = hops.drop_last();
        lemma_route_blocks(front);
        lemma_route_len(front);
        assert forall|i: int| 0 <= i < hops.len() implies #[trigger] block_at(
            route_bytes(hops),
            i,
        ) == hops[i].block() by {
            if i < front.len() {
                assert(block_at(route_bytes(hops), i) =~= block_at(route_bytes(front), i));
                assert(front[i] == hops[i]);
            } else {
                assert(block_at(route_bytes(hops), i) =~= hops.last().block());
            }
        }
    }
}

/// The length law: the wire form of a request with `n` hops has
/// `32 + 21 * n` bytes, which is a well-formed length.
pub proof fn lemma_wire_len(request: RequestView)
    requires
        request.addresses_fit(),
    ensures
        request.wire().len() == wire_len(request.hops.len()),
        length_is_well_formed(request.wire().len()),
{
    lemma_be_bytes_len(request.input_amount, 16);
    lemma_be_bytes_len(request.min_profit, 16);
    lemma_route_len(request.hops);
}

/// The layout of the wire form of a valid request: the input amount at
/// offset 0 and the minimum profit at offset 16, sixteen bytes each; the
/// header of hop `i` at offset `32 + 21 * i`, its address in the twenty
/// bytes after it.
pub proof fn lemma_wire_layout(request: RequestView)
    requires
        request.valid(),
    ensures
        request.wire().len() == wire_len(request.hops.len()),
        request.wire().subrange(0, 16) == be_bytes(request.input_amount, 16),
        request.wire().subrange(16, 32) == be_bytes(request.min_profit, 16),
        request.wire().skip(32) == route_bytes(request.hops),
        forall|i: int|
            0 <= i < request.hops.len() ==> {
                let hop = #[trigger] request.hops[i];
                &&& request.wire()[32 + 21 * i] == 2 * hop.pool_kind.bit() + hop.sell_side.bit()
                &&& request.wire().subrange(33 + 21 * i, 53 + 21 * i) == hop.pool_address
            },
{
    let wire = request.wire();
    lemma_wire_len(request);
    lemma_be_bytes_len(request.input_amount, 16);
    lemma_be_bytes_len(request.min_profit, 16);
    lemma_route_blocks(request.hops);
    assert(wire.subrange(0, 16) =~= be_bytes(request.input_amount, 16));
    assert(wire.subrange(16, 32) =~= be_bytes(request.min_profit, 16));
    assert(wire.skip(32) =~= route_bytes(request.hops));
    assert forall|i: int| 0 <= i < request.hops.len() implies {
        let hop = #[trigger] request.hops[i];
        &&& wire[32 + 21 * i] == 2 * hop.pool_kind.bit() + hop.sell_side.bit()
        &&& wire.subrange(33 + 21 * i, 53 + 21 * i) == hop.pool_address
    } by {
        let block = block_at(route_bytes(request.hops), i);
        assert(wire[32 + 21 * i] == block[0]);
        assert(wire.subrange(33 + 21 * i, 53 + 21 * i) =~= block.subrange(1, 21));
    }
}

/// The round-trip law: the wire form of a valid request decodes to that
/// request, field for field and hop for hop, with or without the check of
/// the reserved bits.
pub proof fn lemma_parse_of_wire(request: RequestView, strict: bool)
    requires
        request.valid(),
    ensures
        parse(request.wire(), strict) == Ok::<RequestView, CodecError>(request),
{
    let wire = request.wire();
    let body = wire.skip(32);
    lemma_wire_layout(request);
    lemma_pow256_16();
    lemma_be_value_of_bytes(request.input_amount, 16);
    lemma_be_value_of_bytes(request.min_profit, 16);
    lemma_route_blocks(request.hops);
    assert forall|i: int| 0 <= i < request.hops.len() implies HopView::parse(
        #[trigger] block_at(body, i),
    ) == request.hops[i] && header_is_clean(block_at(body, i)[0]) by {
        lemma_parse_block(request.hops[i]);
    }
    assert(parse_route(body) =~= request.hops);
}

/// Whatever decodes, with or without the strict check, is a valid request:
/// its amounts fit and its addresses have twenty bytes.
pub proof fn lemma_decoded_is_valid(bytes: Seq<u8>, strict: bool)
    requires
        parse(bytes, strict) is Ok,
    ensures
        parse(bytes, strict)->Ok_0.valid(),
        parse(bytes, strict)->Ok_0.hops.len() == (bytes.len() - 32) / 21,
{
    lemma_pow256_16();
    lemma_be_value_bound(bytes.subrange(0, 16));
    lemma_be_value_bound(bytes.subrange(16, 32));
}

/// What the blocks of `body` stand for, written out again, is `body`,
/// provided that `body` is whole blocks with clean headers.
pub proof fn lemma_route_of_parsed(body: Seq<u8>)
    requires
        body.len() % 21 == 0,
        route_is_clean(body),
    ensures
        route_bytes(parse_route(body)) == body,
    decreases body.len(),
{
    let hops = parse_route(body);
    if body.len() == 0 {
        assert(route_bytes(hops) =~= body);
    } else {
        let count = (body.len() / 21) as int;
        let front = body.subrange(0, body.len() - 21);
        assert(front.len() / 21 == count - 1);
        assert forall|i: int| 0 <= i < front.len() / 21 implies header_is_clean(
            #[trigger] block_at(front, i)[0],
        ) by {
            assert(block_at(front, i) =~= block_at(body, i));
        }
        lemma_route_of_parsed(front);
        assert forall|i: int| 0 <= i < count - 1 implies parse_route(front)[i] == hops[i] by {
            assert(block_at(front, i) =~= block_at(body, i));
        }
        assert(hops.drop_last() =~= parse_route(front));
        let block = block_at(body, count - 1);
        assert(hops.last().block() =~= block);
        assert(front + block =~= body);
    }
}

/// The strict decoder is one to one: bytes that it accepts are the wire
/// form of the request that it returns.
pub proof fn lemma_wire_of_parsed(bytes: Seq<u8>)
    requires
        parse(bytes, true) is Ok,
    ensures
        parse(bytes, true)->Ok_0.wire() == bytes,
{
    let request = parse(bytes, true)->Ok_0;
    let body = bytes.skip(32);
    lemma_be_bytes_of_value(bytes.subrange(0, 16));
    lemma_be_bytes_of_value(bytes.subrange(16, 32));
    lemma_route_of_parsed(body);
    assert(bytes.subrange(0, 16) + bytes.subrange(16, 32) + body =~= bytes);
}

/// The round-trip law for the textual form: the text of the wire form of a
/// valid request decodes to that request.
pub proof fn lemma_parse_of_text(request: RequestView)
    requires
        request.valid(),
    ensures
        parse_text(encode_utf8(hex_text_of(request.wire()))) == Ok::<RequestView, CodecError>(
            request,
        ),
{
    lemma_hex_text_roundtrip(request.wire());
    lemma_parse_of_wire(request, false);
}

} // verus!
