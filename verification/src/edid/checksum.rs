//! The EDID block checksum: all 128 bytes of a block sum to a multiple of 256.
use vstd::prelude::*;
use crate::edid::consts::EDID_BLOCK_SIZE;

verus! {

/// The sum of all bytes.
pub open spec fn byte_sum(bytes: Seq<u8>) -> nat
    decreases bytes.len(),
{
    if bytes.len() == 0 {
        0
    } else {
        byte_sum(bytes.drop_last()) + bytes.last() as nat
    }
}

/// A block is valid when it holds exactly one block's worth of bytes and they sum
/// to a multiple of 256.
pub open spec fn checksum_ok(block: Seq<u8>) -> bool {
    block.len() == EDID_BLOCK_SIZE && byte_sum(block) % 256 == 0
}

/// Whether `block` is one EDID block with a valid checksum.
pub fn valid_checksum(block: &[u8]) -> (valid: bool)
    ensures
        valid == checksum_ok(block@),
{
    if block.len() != EDID_BLOCK_SIZE {
        return false;
    }
    let mut sum: u8 = 0;
    let mut i: usize = 0;
    while i < block.len()
        invariant
            i <= block.len(),
            sum == byte_sum(block@.take(i as int)) % 256,
        decreases block.len() - i,
    {
        assert(block@.take(i as int + 1).drop_last() == block@.take(i as int));
        let ghost before = byte_sum(block@.take(i as int));
        sum = sum.wrapping_add(block[i]);
        assert(sum == (before + block@[i as int]) % 256) by (nonlinear_arith)
            requires
                sum == (before % 256 + block@[i as int]) % 256,
        ;
        i = i + 1;
    }
    assert(block@.take(i as int) == block@);
    sum == 0
}

/// The byte sum folds over concatenation.
pub proof fn lemma_byte_sum_append(a: Seq<u8>, b: Seq<u8>)
    ensures
        byte_sum(a + b) == byte_sum(a) + byte_sum(b),
    decreases b.len(),
{
    if b.len() == 0 {
        assert(a + b == a);
    } else {
        lemma_byte_sum_append(a, b.drop_last());
        assert((a + b).drop_last() == a + b.drop_last());
        assert((a + b).last() == b.last());
    }
}

/// Replacing one byte changes the byte sum by the difference between the new byte
/// and the old one.
pub proof fn lemma_byte_sum_update(bytes: Seq<u8>, i: int, x: u8)
    requires
        0 <= i < bytes.len(),
    ensures
        byte_sum(bytes.update(i, x)) + bytes[i] == byte_sum(bytes) + x,
{
    let left = bytes.take(i);
    let right = bytes.skip(i + 1);
    let y = bytes[i];
    assert(bytes == (left + seq![y]) + right);
    assert(bytes.update(i, x) == (left + seq![x]) + right);
    lemma_byte_sum_append(left + seq![y], right);
    lemma_byte_sum_append(left, seq![y]);
    lemma_byte_sum_append(left + seq![x], right);
    lemma_byte_sum_append(left, seq![x]);
    lemma_byte_sum_single(y);
    lemma_byte_sum_single(x);
}

/// The byte sum of a single byte is that byte.
pub proof fn lemma_byte_sum_single(x: u8)
    ensures
        byte_sum(seq![x]) == x,
{
    let one = seq![x];
    assert(one.drop_last() == Seq::<u8>::empty());
    assert(byte_sum(one) == byte_sum(one.drop_last()) + one.last());
}

/// A block with one byte changed never passes the check: in a valid block, replacing
/// any one byte by a different value makes the bytes no longer sum to a multiple of 256.
pub proof fn law_checksum_detects_a_changed_byte(block: Seq<u8>, i: int, x: u8)
    requires
        checksum_ok(block),
        0 <= i < block.len(),
        x != block[i],
    ensures
        !checksum_ok(block.update(i, x)),
{
    let y = block[i];
    lemma_byte_sum_update(block, i, x);
    let before: int = byte_sum(block) as int;
    let after: int = byte_sum(block.update(i, x)) as int;
    assert(after % 256 != 0) by (nonlinear_arith)
        requires
            before % 256 == 0,
            after + y == before + x,
            x != y,
            0 <= x < 256,
            0 <= y < 256,
    ;
}

/// Any 127 bytes become a valid block once the byte that brings their sum up to a
/// multiple of 256 is appended to them.
pub proof fn law_checksum_byte_completes_a_block(bytes: Seq<u8>)
    requires
        bytes.len() == 127,
    ensures
        checksum_ok(bytes.push(((256 - byte_sum(bytes) % 256) % 256) as u8)),
{
    let c = ((256 - byte_sum(bytes) % 256) % 256) as u8;
    let block = bytes.push(c);
    assert(block.drop_last() == bytes);
    let s: int = byte_sum(bytes) as int;
    assert(byte_sum(block) == s + c);
    assert((s + (256 - s % 256) % 256) % 256 == 0) by (nonlinear_arith)
        requires
            s >= 0,
    ;
}

} // verus!
