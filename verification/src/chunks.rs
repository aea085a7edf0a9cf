//! Cutting a byte string into pieces of a bounded length.

use crate::usb::copy_range;
use vstd::prelude::*;

verus! {

/// The number of pieces of at most `size` bytes that `len` bytes fall into.
pub open spec fn chunk_count(len: int, size: int) -> int {
    (len + size - 1) / size
}

/// Where piece `i` ends when `len` bytes are cut into pieces of `size` bytes.
pub open spec fn chunk_end(len: int, size: int, i: int) -> int {
    if (i + 1) * size < len {
        (i + 1) * size
    } else {
        len
    }
}

/// Piece `i` of `data` cut into pieces of `size` bytes: all pieces but the
/// last are full.
pub open spec fn chunk_of(data: Seq<u8>, size: int, i: int) -> Seq<u8> {
    data.subrange(i * size, chunk_end(data.len() as int, size, i))
}

/// The pieces that fit before `offset` are exactly `offset / size` when
/// `offset` lies on a piece boundary, and the count of all pieces follows
/// from the length.
pub proof fn lemma_chunk_bounds(len: int, size: int, i: int)
    requires
        size > 0,
        len >= 0,
        0 <= i,
        i * size < len,
    ensures
        i < chunk_count(len, size),
        i * size < chunk_end(len, size, i) <= len,
        chunk_end(len, size, i) - i * size <= size,
        chunk_end(len, size, i) == len <==> i + 1 == chunk_count(len, size),
{
    assert((i + 1) * size == i * size + size) by (nonlinear_arith);
    let n = chunk_count(len, size);
    assert(n * size >= len && (n - 1) * size < len) by (nonlinear_arith)
        requires
            n == (len + size - 1) / size,
            size > 0,
            len >= 0,
    ;
    assert(i < n) by (nonlinear_arith)
        requires
            i * size < len,
            n * size >= len,
            size > 0,
    ;
    if (i + 1) * size >= len {
        assert(i + 1 >= n) by (nonlinear_arith)
            requires
                (i + 1) * size >= len,
                (n - 1) * size < len,
                size > 0,
        ;
    } else {
        assert(i + 1 < n) by (nonlinear_arith)
            requires
                (i + 1) * size < len,
                n * size >= len,
                size > 0,
        ;
    }
}

/// Every piece starts before the end of the data.
pub proof fn lemma_chunk_starts(len: int, size: int, i: int)
    requires
        size > 0,
        len >= 0,
        0 <= i < chunk_count(len, size),
    ensures
        i * size < len,
{
    let n = chunk_count(len, size);
    vstd::arithmetic::div_mod::lemma_fundamental_div_mod(len + size - 1, size);
    vstd::arithmetic::div_mod::lemma_mod_division_less_than_divisor(len + size - 1, size);
    assert(size * n == n * size) by (nonlinear_arith);
    assert(i * size <= (n - 1) * size) by (nonlinear_arith)
        requires
            i <= n - 1,
            size > 0,
    ;
    assert((n - 1) * size == n * size - size) by (nonlinear_arith);
}

/// Taking the first piece away leaves one piece less.
pub proof fn lemma_chunk_count_step(len: int, size: int)
    requires
        size > 0,
        len > 0,
    ensures
        chunk_count(len, size) >= 1,
        len > size ==> chunk_count(len - size, size) == chunk_count(len, size) - 1,
        len <= size ==> chunk_count(len, size) == 1,
        chunk_count(0, size) == 0,
{
    lemma_chunk_bounds(len, size, 0);
    if len > size {
        let n = chunk_count(len - size, size);
        vstd::arithmetic::div_mod::lemma_fundamental_div_mod(len - 1, size);
        vstd::arithmetic::div_mod::lemma_mod_division_less_than_divisor(len - 1, size);
        let q = (len - 1) / size;
        let r = (len - 1) % size;
        assert(size * q == q * size) by (nonlinear_arith);
        assert((q + 1) * size == q * size + size) by (nonlinear_arith);
        vstd::arithmetic::div_mod::lemma_fundamental_div_mod_converse(len + size - 1, size, q + 1, r);
    } else {
        vstd::arithmetic::div_mod::lemma_fundamental_div_mod_converse(
            len + size - 1,
            size,
            1,
            len - 1,
        );
    }
    vstd::arithmetic::div_mod::lemma_fundamental_div_mod_converse(size - 1, size, 0, size - 1);
}

/// No piece starts at or behind the end of the data.
pub proof fn lemma_chunk_count_exact(len: int, size: int, i: int)
    requires
        size > 0,
        len >= 0,
        0 <= i,
        i * size >= len,
        i == 0 || (i - 1) * size < len,
    ensures
        i == chunk_count(len, size),
{
    let n = chunk_count(len, size);
    assert(n * size >= len && (n - 1) * size < len) by (nonlinear_arith)
        requires
            n == (len + size - 1) / size,
            size > 0,
            len >= 0,
    ;
    assert(i >= n) by (nonlinear_arith)
        requires
            i * size >= len,
            (n - 1) * size < len,
            size > 0,
    ;
    if i > 0 {
        assert(i - 1 < n) by (nonlinear_arith)
            requires
                (i - 1) * size < len,
                n * size >= len,
                size > 0,
        ;
    } else {
        assert(n >= 0) by (nonlinear_arith)
            requires
                n == (len + size - 1) / size,
                size > 0,
                len >= 0,
        ;
    }
}

/// Cuts `data` into pieces of `size` bytes, the last one possibly shorter.
pub fn split_chunks(data: &[u8], size: usize) -> (pieces: Vec<Vec<u8>>)
    requires
        size > 0,
    ensures
        pieces@.len() == chunk_count(data@.len() as int, size as int),
        forall|i: int|
            0 <= i < pieces@.len() ==> (#[trigger] pieces@[i])@ == chunk_of(data@, size as int, i),
{
    let mut pieces: Vec<Vec<u8>> = Vec::new();
    let mut offset: usize = 0;
    let len: usize = data.len();
    while offset < len
        invariant
            size > 0,
            len == data@.len(),
            offset <= len,
            pieces@.len() > 0 ==> (pieces@.len() - 1) * (size as int) < (len as int),
            offset as int == chunk_end(len as int, size as int, pieces@.len() - 1),
            forall|i: int|
                0 <= i < pieces@.len() ==> (#[trigger] pieces@[i])@ == chunk_of(
                    data@,
                    size as int,
                    i,
                ),
        decreases len - offset,
    {
        let ghost k = pieces@.len() as int;
        proof {
            assert((k - 1 + 1) * (size as int) == k * (size as int));
            lemma_chunk_bounds(len as int, size as int, k);
            assert((k + 1) * (size as int) == k * (size as int) + (size as int))
                by (nonlinear_arith);
        }
        let end: usize = if len - offset > size {
            offset + size
        } else {
            len
        };
        let piece = copy_range(data, offset, end);
        assert(piece@ == chunk_of(data@, size as int, k));
        pieces.push(piece);
        offset = end;
    }
    proof {
        let k = pieces@.len() as int;
        assert((k - 1 + 1) * (size as int) == k * (size as int));
        lemma_chunk_count_exact(len as int, size as int, k);
    }
    pieces
}

} // verus!
