//! What the daemon stores locally about each deal it holds.

use vstd::prelude::*;
use crate::types::{BlockNum, OnChainDealInfo};

verus! {

/// The next job that a deal needs done.
#[derive(Clone, Copy, Debug, PartialEq, Eq, Structural)]
pub enum DealTodo {
    SubmitProof,
    Cancel,
    InitiateChainlinkFinalization,
    CheckChainlinkFinalization,
    WithdrawEarnings,
}

/// A deal as the daemon tracks it.
///
/// The content identifier of the outboard encoding is kept as the bytes of
/// its binary form.
#[derive(Clone, Debug)]
pub struct LocalDealInfo {
    pub on_chain: OnChainDealInfo,
    pub obao_cid: Vec<u8>,
    pub last_successful_proof_submission: Option<BlockNum>,
    pub deal_todo: DealTodo,
}

} // verus!
