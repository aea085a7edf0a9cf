//! The additive checksum that closes every AMLC packet.

use vstd::prelude::*;

verus! {

/// Two to the power thirty-two, the modulus of the checksum.
pub open spec fn word_modulus() -> int {
    0x1_0000_0000
}

/// The weight of the byte at position `i`: bytes are grouped in little-endian
/// words of four, so the weight repeats with period four.
pub open spec fn byte_weight(i: int) -> int {
    let lane = i % 4;
    if lane == 0 {
        1
    } else if lane == 1 {
        0x100
    } else if lane == 2 {
        0x1_0000
    } else {
        0x100_0000
    }
}

/// The sum of all bytes of `data`, each multiplied by its weight.
pub open spec fn weighted_sum(data: Seq<u8>) -> int
    decreases data.len(),
{
    if data.len() == 0 {
        0
    } else {
        weighted_sum(data.drop_last()) + data.last() as int * byte_weight(data.len() - 1)
    }
}

/// The checksum of `data`: its weighted byte sum, reduced modulo 2^32.
pub open spec fn checksum_spec(data: Seq<u8>) -> int {
    weighted_sum(data) % word_modulus()
}

/// The weighted sum is never negative.
pub proof fn lemma_weighted_sum_nonnegative(data: Seq<u8>)
    ensures
        weighted_sum(data) >= 0,
    decreases data.len(),
{
    if data.len() > 0 {
        lemma_weighted_sum_nonnegative(data.drop_last());
        assert(data.last() as int * byte_weight(data.len() - 1) >= 0) by (nonlinear_arith)
            requires
                data.last() as int >= 0,
                byte_weight(data.len() - 1) >= 1,
        ;
    }
}

/// Appending one byte adds that byte times the weight of its position.
pub proof fn lemma_weighted_sum_push(data: Seq<u8>, b: u8)
    ensures
        weighted_sum(data.push(b)) == weighted_sum(data) + b as int * byte_weight(data.len() as int),
{
    assert(data.push(b).drop_last() =~= data);
}

/// The weighted sum of a concatenation whose first part ends on a word
/// boundary is the sum of the parts' weighted sums.
pub proof fn lemma_weighted_sum_concat(x: Seq<u8>, y: Seq<u8>)
    requires
        x.len() % 4 == 0,
    ensures
        weighted_sum(x + y) == weighted_sum(x) + weighted_sum(y),
    decreases y.len(),
{
    if y.len() == 0 {
        assert(x + y =~= x);
    } else {
        lemma_weighted_sum_concat(x, y.drop_last());
        assert((x + y).drop_last() =~= x + y.drop_last());
        assert((x + y).last() == y.last());
        assert(byte_weight((x + y).len() - 1) == byte_weight(y.len() - 1));
    }
}

/// The checksum of no bytes is zero.
pub proof fn law_checksum_empty()
    ensures
        checksum_spec(Seq::<u8>::empty()) == 0,
{
}

/// The checksum of a single byte is that byte.
pub proof fn law_checksum_one(a: u8)
    ensures
        checksum_spec(seq![a]) == a as int,
{
    lemma_weighted_sum_push(Seq::<u8>::empty(), a);
    assert(Seq::<u8>::empty().push(a) =~= seq![a]);
}

/// The checksum of two bytes is the little-endian number that they spell.
pub proof fn law_checksum_two(a: u8, b: u8)
    ensures
        checksum_spec(seq![a, b]) == a as int + 0x100 * b as int,
{
    law_checksum_one(a);
    lemma_weighted_sum_push(seq![a], b);
    assert(seq![a].push(b) =~= seq![a, b]);
}

/// Checksums add up, modulo 2^32, over a concatenation whose first part is a
/// whole number of words.
pub proof fn law_checksum_concat(x: Seq<u8>, y: Seq<u8>)
    requires
        x.len() % 4 == 0,
    ensures
        checksum_spec(x + y) == (checksum_spec(x) + checksum_spec(y)) % word_modulus(),
{
    lemma_weighted_sum_concat(x, y);
    lemma_weighted_sum_nonnegative(x);
    lemma_weighted_sum_nonnegative(y);
    let a = weighted_sum(x);
    let b = weighted_sum(y);
    assert((a + b) % 0x1_0000_0000 == ((a % 0x1_0000_0000) + (b % 0x1_0000_0000)) % 0x1_0000_0000)
        by (nonlinear_arith)
        requires
            a >= 0,
            b >= 0,
    ;
}

/// Zero bytes appended to `data` leave its checksum unchanged, so a tail that
/// is padded out to a word boundary sums like the tail itself.
pub proof fn law_checksum_zero_padding(data: Seq<u8>, padding: nat)
    ensures
        checksum_spec(data + Seq::new(padding, |i: int| 0u8)) == checksum_spec(data),
    decreases padding,
{
    let zeros = Seq::new(padding, |i: int| 0u8);
    if padding == 0 {
        assert(data + zeros =~= data);
    } else {
        let fewer = Seq::new((padding - 1) as nat, |i: int| 0u8);
        law_checksum_zero_padding(data, (padding - 1) as nat);
        assert(data + zeros =~= (data + fewer).push(0u8));
        lemma_weighted_sum_push(data + fewer, 0u8);
    }
}

/// Computes the AMLC checksum of `data`.
pub fn amlc_checksum(data: &[u8]) -> (sum: u32)
    ensures
        sum as int == checksum_spec(data@),
{
    let mut sum: u32 = 0;
    let mut offset: usize = 0;
    proof {
        assert(data@.subrange(0, 0) =~= Seq::<u8>::empty());
    }
    while offset < data.len()
        invariant
            offset <= data.len(),
            sum as int == checksum_spec(data@.subrange(0, offset as int)),
        decreases data.len() - offset,
    {
        let b: u8 = data[offset];
        let lane: usize = offset % 4;
        let term: u32 = if lane == 0 {
            b as u32
        } else if lane == 1 {
            (b as u32) * 0x100
        } else if lane == 2 {
            (b as u32) * 0x1_0000
        } else {
            (b as u32) * 0x100_0000
        };
        proof {
            let before = data@.subrange(0, offset as int);
            assert(data@.subrange(0, offset + 1) =~= before.push(b));
            lemma_weighted_sum_push(before, b);
            lemma_weighted_sum_nonnegative(before);
            assert(term as int == b as int * byte_weight(offset as int));
            let w = weighted_sum(before);
            let t = term as int;
            assert((w + t) % 0x1_0000_0000 == ((w % 0x1_0000_0000) + t) % 0x1_0000_0000)
                by (nonlinear_arith)
                requires
                    w >= 0,
                    t >= 0,
            ;
        }
        sum = sum.wrapping_add(term);
        offset = offset + 1;
    }
    proof {
        assert(data@.subrange(0, data@.len() as int) =~= data@);
    }
    sum
}

} // verus!
