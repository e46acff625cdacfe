//! The DDC/CI checksum: the exclusive or of every byte of a frame.
use vstd::prelude::*;

verus! {

/// Exclusive or of all bytes, folded from the left starting at zero.
pub open spec fn xor_all(bytes: Seq<u8>) -> u8
    decreases bytes.len(),
{
    if bytes.len() == 0 {
        0
    } else {
        xor_all(bytes.drop_last()) ^ bytes.last()
    }
}

/// The checksum of `bytes`: all of them combined by exclusive or.
pub fn calculate(bytes: &[u8]) -> (checksum: u8)
    ensures
        checksum == xor_all(bytes@),
{
    let mut acc: u8 = 0;
    let mut i: usize = 0;
    while i < bytes.len()
        invariant
            i <= bytes.len(),
            acc == xor_all(bytes@.take(i as int)),
        decreases bytes.len() - i,
    {
        assert(bytes@.take(i as int + 1).drop_last() == bytes@.take(i as int));
        acc = acc ^ bytes[i];
        i = i + 1;
    }
    assert(bytes@.take(i as int) == bytes@);
    acc
}

/// A packet is valid when it is not empty and all its bytes exclusive-or to zero.
pub fn verify(packet: &[u8]) -> (valid: bool)
    ensures
        valid == (packet@.len() > 0 && xor_all(packet@) == 0),
{
    packet.len() > 0 && calculate(packet) == 0
}

/// Exclusive or on bytes is associative and commutative, has zero as its unit, and cancels.
pub proof fn lemma_xor_facts(x: u8, y: u8, z: u8)
    by (bit_vector)
    ensures
        (x ^ y) ^ z == x ^ (y ^ z),
        x ^ y == y ^ x,
        x ^ 0 == x,
        0 ^ x == x,
        x ^ x == 0,
        x ^ (y ^ x) == y,
{
}

/// The checksum folds over concatenation: the checksum of `a + b` combines those of `a` and `b`.
pub proof fn lemma_xor_all_append(a: Seq<u8>, b: Seq<u8>)
    ensures
        xor_all(a + b) == xor_all(a) ^ xor_all(b),
    decreases b.len(),
{
    if b.len() == 0 {
        assert(a + b == a);
        lemma_xor_facts(xor_all(a), 0, 0);
    } else {
        let b0 = b.drop_last();
        lemma_xor_all_append(a, b0);
        assert((a + b).drop_last() == a + b0);
        assert((a + b).last() == b.last());
        let x = xor_all(a);
        let y = xor_all(b0);
        let z = b.last();
        lemma_xor_facts(x, y, z);
    }
}

/// The checksum of a single byte is that byte.
pub proof fn lemma_xor_all_single(x: u8)
    ensures
        xor_all(seq![x]) == x,
{
    let one = seq![x];
    assert(one.drop_last() == Seq::<u8>::empty());
    assert(xor_all(one) == xor_all(one.drop_last()) ^ one.last());
    lemma_xor_facts(x, 0, 0);
}

/// Replacing one byte changes the checksum by exactly the bits in which the old and
/// the new byte differ.
pub proof fn lemma_xor_all_update(bytes: Seq<u8>, i: int, x: u8)
    requires
        0 <= i < bytes.len(),
    ensures
        xor_all(bytes.update(i, x)) == (xor_all(bytes) ^ bytes[i]) ^ x,
{
    let left = bytes.take(i);
    let right = bytes.skip(i + 1);
    let y = bytes[i];
    assert(bytes == (left + seq![y]) + right);
    assert(bytes.update(i, x) == (left + seq![x]) + right);
    lemma_xor_all_append(left + seq![y], right);
    lemma_xor_all_append(left, seq![y]);
    lemma_xor_all_append(left + seq![x], right);
    lemma_xor_all_append(left, seq![x]);
    lemma_xor_all_single(y);
    lemma_xor_all_single(x);
    lemma_xor_replace(xor_all(left), y, xor_all(right), x);
}

proof fn lemma_xor_replace(l: u8, y: u8, r: u8, x: u8)
    by (bit_vector)
    ensures
        (l ^ x) ^ r == (((l ^ y) ^ r) ^ y) ^ x,
{
}

/// Appending the checksum of a sequence of bytes makes all of them exclusive-or to zero.
pub proof fn law_checksum_appended(bytes: Seq<u8>)
    ensures
        xor_all(bytes.push(xor_all(bytes))) == 0,
{
    assert(bytes.push(xor_all(bytes)).drop_last() == bytes);
    lemma_xor_facts(xor_all(bytes), 0, 0);
}

proof fn lemma_xor_swap_last(l: u8, x: u8, r: u8)
    by (bit_vector)
    ensures
        (l ^ x) ^ r == (l ^ r) ^ x,
{
}

/// The checksum does not depend on the order of the bytes: any two byte sequences
/// that hold the same bytes, as many times each, have the same checksum.
pub proof fn law_checksum_ignores_order(a: Seq<u8>, q: Seq<u8>)
    requires
        a.to_multiset() == q.to_multiset(),
    ensures
        xor_all(a) == xor_all(q),
    decreases a.len(),
{
    broadcast use vstd::seq_lib::group_to_multiset_ensures;

    if a.len() == 0 {
        assert(a.to_multiset().len() == a.len());
        assert(q.to_multiset().len() == q.len());
        assert(q == Seq::<u8>::empty());
    } else {
        let x = a.last();
        let rest = a.drop_last();
        assert(a == rest.push(x));
        assert(a.to_multiset() == rest.to_multiset().insert(x));
        assert(q.to_multiset().count(x) > 0);
        assert(q.contains(x));
        let i = choose|i: int| 0 <= i < q.len() && q[i] == x;
        let q2 = q.remove(i);
        assert(q2.to_multiset() == q.to_multiset().remove(x));
        assert(q2.to_multiset() =~= rest.to_multiset());
        law_checksum_ignores_order(rest, q2);
        let left = q.take(i);
        let right = q.skip(i + 1);
        assert(q == left.push(x) + right);
        assert(q2 == left + right);
        lemma_xor_all_append(left.push(x), right);
        lemma_xor_all_append(left, right);
        assert(left.push(x).drop_last() == left);
        lemma_xor_swap_last(xor_all(left), x, xor_all(right));
    }
}

} // verus!
