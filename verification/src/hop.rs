//! One step of a swap route, and the 21-byte block that stands for it on the
//! wire: a header byte, then the pool's address.

use vstd::prelude::*;

verus! {

/// Which of the two supported pool implementations a hop goes through.
#[derive(Clone, Copy, Debug, PartialEq, Eq, Structural)]
pub enum PoolKind {
    /// The constant-product pool; header bit 1 is clear.
    KindA,
    /// The concentrated-liquidity pool; header bit 1 is set.
    KindB,
}

/// Which of the pool's two reserve tokens a hop sells.
#[derive(Clone, Copy, Debug, PartialEq, Eq, Structural)]
pub enum SellSide {
    /// The hop sells the pool's first token; header bit 0 is set.
    Token0,
    /// The hop sells the pool's second token; header bit 0 is clear.
    Token1,
}

impl PoolKind {
    /// The value of header bit 1 for this kind.
    pub open spec fn bit(self) -> nat {
        match self {
            PoolKind::KindA => 0,
            PoolKind::KindB => 1,
        }
    }
}

impl SellSide {
    /// The value of header bit 0 for this side.
    pub open spec fn bit(self) -> nat {
        match self {
            SellSide::Token0 => 1,
            SellSide::Token1 => 0,
        }
    }
}

/// One step of a swap route.
#[derive(Clone, Copy, Debug, PartialEq, Eq)]
pub struct ArbitrageHop {
    /// The implementation family of the pool.
    pub pool_kind: PoolKind,
    /// The reserve token that is sold.
    pub sell_side: SellSide,
    /// The address of the pool contract.
    pub pool_address: [u8; 20],
}

/// A hop as contracts speak of it: the address is a sequence of bytes.
pub struct HopView {
    pub pool_kind: PoolKind,
    pub sell_side: SellSide,
    pub pool_address: Seq<u8>,
}

impl View for ArbitrageHop {
    type V = HopView;

    open spec fn view(&self) -> HopView {
        HopView {
            pool_kind: self.pool_kind,
            sell_side: self.sell_side,
            pool_address: self.pool_address@,
        }
    }
}

/// The header byte of a hop: twice the kind's bit plus the side's bit.
pub open spec fn header_of(kind: PoolKind, side: SellSide) -> u8 {
    (2 * kind.bit() + side.bit()) as u8
}

/// The pool kind that a header byte names: its bit 1.
pub open spec fn kind_of_header(header: u8) -> PoolKind {
    if (header / 2) % 2 == 1 {
        PoolKind::KindB
    } else {
        PoolKind::KindA
    }
}

/// The sell side that a header byte names: its bit 0.
pub open spec fn side_of_header(header: u8) -> SellSide {
    if header % 2 == 1 {
        SellSide::Token0
    } else {
        SellSide::Token1
    }
}

/// Whether the six reserved bits of a header byte, bits 2 to 7, are clear.
pub open spec fn header_is_clean(header: u8) -> bool {
    header < 4
}

impl HopView {
    /// Whether the address has the width of an address.
    pub open spec fn valid(self) -> bool {
        self.pool_address.len() == 20
    }

    /// The hop on the wire: the header byte, then the address.
    pub open spec fn block(self) -> Seq<u8> {
        seq![header_of(self.pool_kind, self.sell_side)] + self.pool_address
    }

    /// The hop that a 21-byte block stands for. Reserved header bits are
    /// passed over.
    pub open spec fn parse(block: Seq<u8>) -> HopView {
        HopView {
            pool_kind: kind_of_header(block[0]),
            sell_side: side_of_header(block[0]),
            pool_address: block.subrange(1, 21),
        }
    }
}

/// Packs the two flags of a hop into its header byte. The byte is
/// `2 * kind + side`, and none of its bits 2 to 7 is set.
pub fn header_byte(kind: PoolKind, side: SellSide) -> (header: u8)
    ensures
        header == 2 * kind.bit() + side.bit(),
        header == header_of(kind, side),
        header & 0xFC == 0,
        header_is_clean(header),
        kind_of_header(header) == kind,
        side_of_header(header) == side,
{
    let kind_bit: u8 = match kind {
        PoolKind::KindA => 0,
        PoolKind::KindB => 1,
    };
    let side_bit: u8 = match side {
        SellSide::Token0 => 1,
        SellSide::Token1 => 0,
    };
    let header: u8 = (kind_bit << 1) | side_bit;
    assert(header == 2 * kind_bit + side_bit && header & 0xFC == 0) by (bit_vector)
        requires
            header == (kind_bit << 1) | side_bit,
            kind_bit <= 1,
            side_bit <= 1,
    ;
    header
}

/// The pool kind in bit 1 of a header byte.
pub fn pool_kind_of(header: u8) -> (kind: PoolKind)
    ensures
        kind == kind_of_header(header),
{
    let bit: u8 = (header >> 1) & 1;
    assert(bit == (header / 2) % 2) by (bit_vector)
        requires
            bit == (header >> 1) & 1,
    ;
    if bit != 0 {
        PoolKind::KindB
    } else {
        PoolKind::KindA
    }
}

/// The sell side in bit 0 of a header byte.
pub fn sell_side_of(header: u8) -> (side: SellSide)
    ensures
        side == side_of_header(header),
{
    let bit: u8 = header & 1;
    assert(bit == header % 2) by (bit_vector)
        requires
            bit == header & 1,
    ;
    if bit != 0 {
        SellSide::Token0
    } else {
        SellSide::Token1
    }
}

/// Whether a header byte leaves its reserved bits clear.
pub fn reserved_bits_clear(header: u8) -> (clean: bool)
    ensures
        clean == header_is_clean(header),
        clean == (header & 0xFC == 0),
{
    assert((header & 0xFC == 0) == (header < 4)) by (bit_vector);
    header & 0xFC == 0
}

impl ArbitrageHop {
    /// Reads a hop from its 21-byte block.
    pub fn from_block(block: &[u8]) -> (hop: ArbitrageHop)
        requires
            block@.len() == 21,
        ensures
            hop@ == HopView::parse(block@),
    {
        let header = block[0];
        let mut pool_address = [0u8; 20];
        let mut i: usize = 0;
        while i < 20
            invariant
                i <= 20,
                block@.len() == 21,
                forall|j: int| 0 <= j < i ==> pool_address@[j] == block@[1 + j],
            decreases 20 - i,
        {
            pool_address[i] = block[1 + i];
            i += 1;
        }
        assert(pool_address@ =~= block@.subrange(1, 21));
        ArbitrageHop {
            pool_kind: pool_kind_of(header),
            sell_side: sell_side_of(header),
            pool_address,
        }
    }
}

/// A block that was written from a hop reads back as that hop.
pub proof fn lemma_parse_block(hop: HopView)
    requires
        hop.valid(),
    ensures
        hop.block().len() == 21,
        HopView::parse(hop.block()) == hop,
        header_is_clean(hop.block()[0]),
{
    assert(hop.block().subrange(1, 21) =~= hop.pool_address);
}

} // verus!
