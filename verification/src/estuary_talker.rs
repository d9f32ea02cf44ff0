//! Taking in deals: whether to accept one, and the check of a received file
//! against the checksum that the deal records.

use vstd::prelude::*;
use crate::types::{BlockNum, OnChainDealInfo};
use crate::proof_utils::{blake3_digest, bao_outboard_bytes, gen_obao};

verus! {

/// Why a deal is turned down.
#[derive(Clone, Copy, Debug, PartialEq, Eq, Structural)]
pub enum AcceptanceError {
    /// The deal runs past the latest block.
    DealEnded,
}

/// The acceptance check of a new deal against the chain's latest block: a
/// deal whose final block lies after `latest_block` is turned down as
/// ended. The further checks that a deal ending by then would go through
/// are not written, so such a deal is outside the contract.
pub fn make_a_decision_on_acceptance(
    new_deal_info: &OnChainDealInfo,
    latest_block: BlockNum,
) -> (decision: Result<bool, AcceptanceError>)
    requires
        new_deal_info.final_block() <= u64::MAX,
        new_deal_info.final_block() > latest_block.0,
    ensures
        decision == Err::<bool, AcceptanceError>(AcceptanceError::DealEnded),
{
    let end = new_deal_info.deal_start_block + new_deal_info.deal_length_in_blocks;
    if end.0 > latest_block.0 {
        return Err(AcceptanceError::DealEnded);
    }
    proof {
        assert(false);
    }
    Ok(false)
}

/// Why a received file is refused.
#[derive(Clone, Copy, Debug, PartialEq, Eq, Structural)]
pub enum ObaoError {
    /// The file's BLAKE3 digest differs from the checksum that the deal records.
    DigestMismatch,
}

fn digests_equal(a: &[u8; 32], b: &[u8; 32]) -> (equal: bool)
    ensures
        equal == (a@ == b@),
{
    let mut i: usize = 0;
    while i < 32
        invariant
            i <= 32,
            a@.len() == 32,
            b@.len() == 32,
            forall|j: int| 0 <= j < i ==> a@[j] == b@[j],
        decreases 32 - i,
    {
        if a[i] != b[i] {
            return false;
        }
        i = i + 1;
    }
    assert(a@ =~= b@);
    true
}

/// The outboard encoding of a received file, built where the file's BLAKE3
/// digest is the checksum that the deal records, and refused otherwise.
pub fn build_obao(file: &[u8], blake3_hash: &[u8; 32]) -> (obao: Result<Vec<u8>, ObaoError>)
    ensures
        obao is Ok <==> blake3_digest(file@) == blake3_hash@,
        obao matches Ok(bytes) ==> bytes@ == bao_outboard_bytes(file@),
        obao matches Err(e) ==> e == ObaoError::DigestMismatch,
{
    let (obao_bytes, obao_digest) = gen_obao(file);
    if !digests_equal(&obao_digest, blake3_hash) {
        return Err(ObaoError::DigestMismatch);
    }
    Ok(obao_bytes)
}

} // verus!
