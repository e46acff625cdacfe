//! Assembling an EDID block by block: which block to read next, where it lies on
//! the bus, and whether what was read may be kept.
use vstd::prelude::*;
use crate::edid::checksum::{byte_sum, checksum_ok, valid_checksum};
use crate::edid::consts::EDID_BLOCK_SIZE;
use crate::edid::error::{Error, Result};

verus! {

/// The eight bytes that open every EDID.
pub open spec fn edid_header() -> Seq<u8> {
    seq![0x00u8, 0xff, 0xff, 0xff, 0xff, 0xff, 0xff, 0x00]
}

/// The `k`-th block of an EDID.
pub open spec fn block_of(edid: Seq<u8>, k: int) -> Seq<u8> {
    edid.subrange(128 * k, 128 * k + 128)
}

/// The number of blocks that a base block announces: itself and the extension
/// blocks that its byte 126 counts.
pub open spec fn announced_blocks(base: Seq<u8>) -> nat {
    1 + base[126] as nat
}

/// What has been read so far is a prefix of a valid EDID: whole blocks, the first
/// of which opens with the header, each with a valid checksum, no more than the
/// base block announces.
pub open spec fn valid_prefix(edid: Seq<u8>, blocks: nat) -> bool {
    &&& edid.len() == 128 * blocks
    &&& blocks > 0 ==> {
        &&& edid.take(8) == edid_header()
        &&& blocks <= announced_blocks(edid)
        &&& forall|k: int| 0 <= k < blocks ==> #[trigger] checksum_ok(block_of(edid, k))
    }
}

/// A complete EDID: the base block and all the extension blocks it announces,
/// each valid, with the header in front.
pub open spec fn is_complete_edid(edid: Seq<u8>) -> bool {
    &&& edid.len() >= 128
    &&& valid_prefix(edid, announced_blocks(edid))
}

/// A complete EDID holds the base block and as many extension blocks as byte 126 of
/// the base block counts, opens with the bytes 00 ff ff ff ff ff ff 00, and the 128
/// bytes of each of its blocks sum to a multiple of 256.
pub proof fn law_complete_edid_layout(edid: Seq<u8>, k: int)
    requires
        is_complete_edid(edid),
        0 <= k <= edid[126],
    ensures
        edid.len() == 128 * (1 + edid[126]),
        edid[0] == 0x00 && edid[7] == 0x00,
        forall|i: int| 1 <= i < 7 ==> edid[i] == 0xff,
        byte_sum(edid.subrange(128 * k, 128 * k + 128)) % 256 == 0,
{
    assert(edid[0] == edid.take(8)[0]);
    assert(edid[7] == edid.take(8)[7]);
    assert forall|i: int| 1 <= i < 7 implies edid[i] == 0xff by {
        assert(edid[i] == edid.take(8)[i]);
    }
    assert(checksum_ok(block_of(edid, k)));
}

/// Appending a valid block to a valid prefix that is not yet complete (or empty,
/// when the block opens with the header) gives a valid prefix one block longer.
proof fn lemma_extend_prefix(before: Seq<u8>, blocks: nat, data: Seq<u8>)
    requires
        valid_prefix(before, blocks),
        checksum_ok(data),
        blocks == 0 ==> data.take(8) == edid_header(),
        blocks > 0 ==> blocks < announced_blocks(before),
    ensures
        valid_prefix(before + data, blocks + 1),
{
    let after = before + data;
    assert(after.len() == 128 * (blocks + 1));
    if blocks == 0 {
        assert(after == data);
    } else {
        assert(after.take(8) == before.take(8));
        assert(after[126] == before[126]);
    }
    assert forall|k: int| 0 <= k < blocks + 1 implies #[trigger] checksum_ok(block_of(after, k)) by {
        if k < blocks {
            assert(block_of(after, k) == block_of(before, k));
        } else {
            assert(block_of(after, k) == data);
        }
    }
}

/// Whether a block opens with the EDID header.
fn has_header(data: &[u8; 128]) -> (found: bool)
    ensures
        found == (data@.take(8) == edid_header()),
{
    let header: [u8; 8] = [0x00, 0xff, 0xff, 0xff, 0xff, 0xff, 0xff, 0x00];
    let mut i: usize = 0;
    while i < 8
        invariant
            i <= 8,
            data@.len() == 128,
            header@ == edid_header(),
            forall|j: int| 0 <= j < i ==> data@[j] == edid_header()[j],
        decreases 8 - i,
    {
        if data[i] != header[i] {
            assert(data@.take(8)[i as int] != edid_header()[i as int]);
            return false;
        }
        i = i + 1;
    }
    assert(data@.take(8) =~= edid_header());
    true
}

/// Where an EDID block lies on the bus: the segment to select first (blocks from
/// the third on), and the offset within the segment.
pub struct BlockAddress {
    pub segment: Option<u8>,
    pub offset: u8,
}

/// The segment pointer to write before reading block `block`: two blocks to a
/// segment, and none for the blocks of the first segment.
pub open spec fn block_segment(block: int) -> Option<u8> {
    if block >= 2 {
        Some(((block / 2) % 256) as u8)
    } else {
        None
    }
}

/// The offset of block `block` within its segment.
pub open spec fn block_offset(block: int) -> u8 {
    ((block % 2) * 128) as u8
}

/// Blocks lie one after the other, 128 bytes apart, across segments of 256 bytes:
/// for every block that a segment pointer reaches, the segment (the first when none
/// is written) times 256 plus the offset is 128 times the block number, and the
/// pointer is left out exactly for the first two blocks.
pub proof fn law_block_positions(block: int)
    requires
        0 <= block < 512,
    ensures
        (match block_segment(block) {
            Some(segment) => segment as int,
            None => 0,
        }) * 256 + block_offset(block) == 128 * block,
        block_segment(block) is None <==> block < 2,
{
}

/// The address of block `block`: two blocks to a segment; the segment pointer is
/// written only for blocks past the first segment.
pub fn block_address(block: usize) -> (address: BlockAddress)
    ensures
        address.segment == block_segment(block as int),
        address.offset == block_offset(block as int),
{
    let segment = ((block / 2) % 256) as u8;
    let offset = ((block % 2) * EDID_BLOCK_SIZE) as u8;
    BlockAddress { segment: if block >= 2 { Some(segment) } else { None }, offset }
}

/// An EDID being read: the blocks accepted so far.
pub struct EdidReader {
    edid: Vec<u8>,
    blocks: usize,
}

impl EdidReader {
    #[verifier::type_invariant]
    spec fn well_formed(self) -> bool {
        valid_prefix(self.edid@, self.blocks as nat)
    }

    /// The bytes accepted so far.
    pub closed spec fn bytes(self) -> Seq<u8> {
        self.edid@
    }

    /// The number of blocks accepted so far.
    pub closed spec fn blocks_read(self) -> nat {
        self.blocks as nat
    }

    /// Whether every block that the base block announces has been accepted.
    pub open spec fn complete(self) -> bool {
        self.blocks_read() > 0 && self.blocks_read() == announced_blocks(self.bytes())
    }

    /// A reader is complete once it holds the base block and as many extension
    /// blocks as byte 126 of the base block counts.
    pub proof fn law_complete_after_announced_blocks(self)
        ensures
            self.complete() <==> (self.blocks_read() > 0 && self.blocks_read() == 1
                + self.bytes()[126]),
    {
    }

    /// A reader with no block accepted yet.
    pub fn new() -> (reader: Self)
        ensures
            reader.bytes() == Seq::<u8>::empty(),
            reader.blocks_read() == 0,
    {
        EdidReader { edid: Vec::new(), blocks: 0 }
    }

    /// The block to read next, or `None` once the EDID is complete.
    pub fn next_block(&self) -> (next: Option<usize>)
        ensures
            self.complete() ==> next.is_none(),
            !self.complete() ==> next == Some(self.blocks_read() as usize),
    {
        proof {
            use_type_invariant(self);
        }
        if self.blocks == 0 {
            return Some(0);
        }
        let announced = 1 + self.edid[126] as usize;
        if self.blocks < announced {
            Some(self.blocks)
        } else {
            None
        }
    }

    /// Takes the next block read from the bus. The base block must open with the
    /// EDID header and every block must have a valid checksum; a refused block
    /// leaves the reader as it was.
    pub fn accept_block(&mut self, data: &[u8; 128]) -> (res: Result<()>)
        requires
            !old(self).complete(),
        ensures
            ({
                let before = old(self).bytes();
                let base = old(self).blocks_read() == 0;
                if base && data@.take(8) != edid_header() {
                    &&& res matches Err(Error::InvalidReturnData)
                    &&& final(self).bytes() == before
                    &&& final(self).blocks_read() == old(self).blocks_read()
                } else if !checksum_ok(data@) {
                    &&& res matches Err(Error::InvalidChecksum)
                    &&& final(self).bytes() == before
                    &&& final(self).blocks_read() == old(self).blocks_read()
                } else {
                    &&& res is Ok
                    &&& final(self).bytes() == before + data@
                    &&& final(self).blocks_read() == old(self).blocks_read() + 1
                }
            }),
    {
        proof {
            use_type_invariant(&*self);
        }
        let ghost before = self.edid@;
        if self.blocks == 0 && !has_header(data) {
            return Err(Error::InvalidReturnData);
        }
        if !valid_checksum(data) {
            return Err(Error::InvalidChecksum);
        }
        let mut edid = self.edid.clone();
        assert(edid@ == before);
        edid.extend_from_slice(data);
        assert(edid@ == before + data@);
        proof {
            lemma_extend_prefix(before, self.blocks as nat, data@);
        }
        let blocks = self.blocks + 1;
        *self = EdidReader { edid, blocks };
        Ok(())
    }

    /// The EDID read; complete once `next_block` has nothing more to read.
    pub fn into_edid(self) -> (edid: Vec<u8>)
        ensures
            edid@ == self.bytes(),
            self.complete() ==> is_complete_edid(edid@),
    {
        proof {
            use_type_invariant(&self);
        }
        self.edid
    }
}

} // verus!
