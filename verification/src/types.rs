//! The plain values that describe a storage deal.

use vstd::prelude::*;
use vstd::std_specs::ops::AddSpecImpl;
use vstd::bytes::{spec_u64_from_le_bytes, spec_u64_to_le_bytes, u64_from_le_bytes, u64_to_le_bytes};

verus! {

/// The identifier that the chain gives a deal.
#[derive(Clone, Copy, Debug, PartialEq, Eq, Structural, PartialOrd, Ord, Hash)]
pub struct DealID(pub u64);

/// A block height of the chain.
#[derive(Clone, Copy, Debug, PartialEq, Eq, Structural, PartialOrd, Ord, Hash)]
pub struct BlockNum(pub u64);

/// An amount of the token that a deal is paid in.
#[derive(Clone, Copy, Debug, PartialEq, Eq, Structural, PartialOrd, Ord, Hash)]
pub struct TokenAmount(pub u64);

/// The address of the ERC-20 contract of the token that a deal is paid in.
#[derive(Clone, Copy, Debug, PartialEq, Eq)]
pub struct Token(pub [u8; 20]);

impl core::ops::Add for BlockNum {
    type Output = BlockNum;

    fn add(self, other: BlockNum) -> (sum: BlockNum) {
        BlockNum(self.0 + other.0)
    }
}

impl AddSpecImpl for BlockNum {
    open spec fn obeys_add_spec() -> bool {
        true
    }

    open spec fn add_req(self, other: BlockNum) -> bool {
        self.0 + other.0 <= u64::MAX
    }

    open spec fn add_spec(self, other: BlockNum) -> BlockNum {
        BlockNum((self.0 + other.0) as u64)
    }
}


/// What the chain records about a deal.
///
/// The content identifier of the stored file is kept as the bytes of its
/// binary form.
#[derive(Clone, Debug)]
pub struct OnChainDealInfo {
    pub deal_id: DealID,
    pub deal_start_block: BlockNum,
    pub deal_length_in_blocks: BlockNum,
    pub proof_frequency_in_blocks: BlockNum,
    pub price: TokenAmount,
    pub collateral: TokenAmount,
    pub erc20_token_denomination: Token,
    pub ipfs_file_cid: Vec<u8>,
    pub file_size: u64,
    pub blake3_file_checksum: [u8; 32],
}

impl OnChainDealInfo {
    /// The first block after the deal: its start plus its length.
    pub open spec fn final_block(&self) -> int {
        self.deal_start_block.0 + self.deal_length_in_blocks.0
    }

    /// The block at which the deal ends.
    pub fn get_final_block(&self) -> (end: BlockNum)
        requires
            self.final_block() <= u64::MAX,
        ensures
            end.0 == self.final_block(),
    {
        self.deal_start_block + self.deal_length_in_blocks
    }
}

/// A storage proof for the window that starts at `block_number`.
#[derive(Clone, Debug)]
pub struct Proof {
    pub block_number: BlockNum,
    pub bao_proof_data: Vec<u8>,
}

impl DealID {
    /// The database key of a deal: its number as eight little-endian bytes.
    pub fn into_key_bytes(self) -> (key: Vec<u8>)
        ensures
            key@ == spec_u64_to_le_bytes(self.0),
    {
        u64_to_le_bytes(self.0)
    }

    /// Reads a deal's number from the first eight bytes of a key, little-endian.
    pub fn from_key_bytes(key: &[u8]) -> (id: DealID)
        requires
            key@.len() >= 8,
        ensures
            id.0 == spec_u64_from_le_bytes(key@.take(8)),
    {
        let first = first_eight(key);
        DealID(u64_from_le_bytes(first.as_slice()))
    }

    /// As `from_key_bytes`, or `None` where the key holds fewer than eight bytes.
    pub fn try_from_key_bytes(key: &[u8]) -> (id: Option<DealID>)
        ensures
            key@.len() < 8 ==> id is None,
            key@.len() >= 8 ==> id == Some(DealID(spec_u64_from_le_bytes(key@.take(8)))),
    {
        if key.len() < 8 {
            None
        } else {
            Some(DealID::from_key_bytes(key))
        }
    }
}

fn first_eight(bytes: &[u8]) -> (first: Vec<u8>)
    requires
        bytes@.len() >= 8,
    ensures
        first@ == bytes@.take(8),
{
    let mut first: Vec<u8> = Vec::new();
    let mut i: usize = 0;
    while i < 8
        invariant
            i <= 8,
            bytes@.len() >= 8,
            first@ == bytes@.take(i as int),
        decreases 8 - i,
    {
        first.push(bytes[i]);
        i = i + 1;
        assert(first@ =~= bytes@.take(i as int));
    }
    first
}

/// Reading a key back gives the deal that wrote it.
pub proof fn lemma_deal_id_key_round_trip(id: DealID)
    ensures
        spec_u64_to_le_bytes(id.0).len() == 8,
        spec_u64_from_le_bytes(spec_u64_to_le_bytes(id.0).take(8)) == id.0,
{
    vstd::bytes::lemma_auto_spec_u64_to_from_le_bytes();
    assert(spec_u64_to_le_bytes(id.0).take(8) =~= spec_u64_to_le_bytes(id.0));
}

} // verus!
