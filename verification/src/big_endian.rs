//! Big-endian numbers as sequences of bytes: the two directions of the
//! conversion, and the facts that tie them together.

use vstd::prelude::*;

verus! {

/// 256 to the power `n`: the number of values that `n` bytes can spell.
pub open spec fn pow256(n: nat) -> nat
    decreases n,
{
    if n == 0 {
        1
    } else {
        256 * pow256((n - 1) as nat)
    }
}

/// The number that `s` spells when read most significant byte first.
pub open spec fn be_value(s: Seq<u8>) -> nat
    decreases s.len(),
{
    if s.len() == 0 {
        0
    } else {
        be_value(s.drop_last()) * 256 + s.last() as nat
    }
}

/// The `n` low-order bytes of `v`, most significant first. Bytes of `v`
/// above the `n`-th are left out.
pub open spec fn be_bytes(v: nat, n: nat) -> Seq<u8>
    decreases n,
{
    if n == 0 {
        Seq::empty()
    } else {
        be_bytes(v / 256, (n - 1) as nat).push((v % 256) as u8)
    }
}

/// Sixteen bytes spell exactly the numbers below 2^128.
pub proof fn lemma_pow256_16()
    ensures
        pow256(16) == 0x1_0000_0000_0000_0000_0000_0000_0000_0000nat,
{
    reveal_with_fuel(pow256, 17);
}

/// `be_bytes(v, n)` has `n` bytes.
pub proof fn lemma_be_bytes_len(v: nat, n: nat)
    ensures
        be_bytes(v, n).len() == n,
    decreases n,
{
    if n > 0 {
        lemma_be_bytes_len(v / 256, (n - 1) as nat);
    }
}

/// A sequence of `n` bytes spells a number below `256^n`.
pub proof fn lemma_be_value_bound(s: Seq<u8>)
    ensures
        be_value(s) < pow256(s.len()),
    decreases s.len(),
{
    if s.len() > 0 {
        lemma_be_value_bound(s.drop_last());
    }
}

/// Writing a number that fits in `n` bytes and reading it back gives the
/// number.
pub proof fn lemma_be_value_of_bytes(v: nat, n: nat)
    requires
        v < pow256(n),
    ensures
        be_value(be_bytes(v, n)) == v,
    decreases n,
{
    if n > 0 {
        let s = be_bytes(v, n);
        lemma_be_value_of_bytes(v / 256, (n - 1) as nat);
        assert(s.drop_last() =~= be_bytes(v / 256, (n - 1) as nat));
    }
}

/// Reading bytes as a number and writing it back in the same width gives
/// the bytes.
pub proof fn lemma_be_bytes_of_value(s: Seq<u8>)
    ensures
        be_bytes(be_value(s), s.len()) == s,
    decreases s.len(),
{
    if s.len() > 0 {
        let v = be_value(s);
        lemma_be_bytes_of_value(s.drop_last());
        assert(v / 256 == be_value(s.drop_last()));
        assert(v % 256 == s.last() as nat);
        assert(s.drop_last().push(s.last()) =~= s);
    }
}

/// The last `n` bytes of a wider rendering are the rendering in `n` bytes.
pub proof fn lemma_be_bytes_low(v: nat, n: nat, k: nat)
    ensures
        be_bytes(v, n + k).subrange(k as int, (n + k) as int) == be_bytes(v, n),
    decreases n,
{
    lemma_be_bytes_len(v, n + k);
    lemma_be_bytes_len(v, n);
    if n > 0 {
        let m = (n - 1) as nat;
        lemma_be_bytes_low(v / 256, m, k);
        lemma_be_bytes_len(v / 256, m + k);
        assert(be_bytes(v, n + k).subrange(k as int, (n + k) as int) =~= be_bytes(
            v / 256,
            m + k,
        ).subrange(k as int, (m + k) as int).push((v % 256) as u8));
    }
}

} // verus!
