//! Identifiers that the queues carry: hashes, shards and blocks.
use vstd::prelude::*;

verus! {

/// A 256-bit identifier, kept as two halves of which `hi` is the more significant.
#[derive(Clone, Copy, Debug, PartialEq, Eq, PartialOrd, Ord, Hash, Structural)]
pub struct UInt256 {
    pub hi: u128,
    pub lo: u128,
}

impl UInt256 {
    /// The strict numeric order of identifiers.
    pub open spec fn below(self, other: UInt256) -> bool {
        self.hi < other.hi || (self.hi == other.hi && self.lo < other.lo)
    }

    /// Tells whether this identifier is numerically smaller than `other`.
    pub fn is_below(&self, other: &UInt256) -> (smaller: bool)
        ensures
            smaller == self.below(*other),
    {
        self.hi < other.hi || (self.hi == other.hi && self.lo < other.lo)
    }
}

/// The prefix of a shard that covers its whole workchain.
pub const SHARD_FULL: u64 = 0x8000_0000_0000_0000;

/// A shard: its workchain and the tagged prefix of the accounts in it.
#[derive(Clone, Copy, Debug, PartialEq, Eq, PartialOrd, Ord, Hash, Structural)]
pub struct ShardIdent {
    pub workchain_id: i32,
    pub prefix: u64,
}

/// A block, named by its shard, sequence number and hashes.
#[derive(Clone, Copy, Debug, PartialEq, Eq, PartialOrd, Ord, Hash, Structural)]
pub struct BlockIdExt {
    pub shard_id: ShardIdent,
    pub seq_no: u32,
    pub root_hash: UInt256,
    pub file_hash: UInt256,
}

/// The block identifier that stands where no block is known.
pub open spec fn no_block() -> BlockIdExt {
    BlockIdExt {
        shard_id: ShardIdent { workchain_id: 0, prefix: SHARD_FULL },
        seq_no: 0,
        root_hash: UInt256 { hi: 0, lo: 0 },
        file_hash: UInt256 { hi: 0, lo: 0 },
    }
}

impl Default for BlockIdExt {
    fn default() -> (block_id: BlockIdExt)
        ensures
            block_id == no_block(),
    {
        BlockIdExt {
            shard_id: ShardIdent { workchain_id: 0, prefix: SHARD_FULL },
            seq_no: 0,
            root_hash: UInt256 { hi: 0, lo: 0 },
            file_hash: UInt256 { hi: 0, lo: 0 },
        }
    }
}

} // verus!
