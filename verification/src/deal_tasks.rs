//! The proof job of a deal, as decisions around the outside work: which
//! window to prove, and, once a proof is posted, what the deal owes next and
//! when to wake it up again.

use vstd::prelude::*;
use crate::types::BlockNum;
use crate::database_types::{DealTodo, LocalDealInfo};
use crate::window_utils::{
    get_the_right_window, get_the_window_after, lemma_window_after_is_following_window,
    right_window, window_after, DealStatusError,
};

verus! {

/// The first decision of a proof job.
#[derive(Debug)]
pub enum ProofStep {
    /// Prove the window that starts at this block, then record the proof.
    ProveWindow(BlockNum),
    /// Prove nothing; wake the deal at the given block with the given record.
    Reschedule(Option<BlockNum>, LocalDealInfo),
}

/// The record with its next step replaced.
pub open spec fn with_todo(info: LocalDealInfo, todo: DealTodo) -> LocalDealInfo {
    LocalDealInfo { deal_todo: todo, ..info }
}

/// What a proof job for a deal woken at `on_chain_current_block` does first:
/// prove the window that the block falls in; or, where the deal has ended,
/// skip the missed proof and owe the deal's finalization, waking again at
/// once (block 0). A deal woken before it starts is outside the contract.
pub fn submit_proof_step(deal_info: LocalDealInfo, on_chain_current_block: BlockNum) -> (step: ProofStep)
    requires
        on_chain_current_block.0 >= deal_info.on_chain.deal_start_block.0,
        deal_info.on_chain.final_block() <= u64::MAX,
        on_chain_current_block.0 < deal_info.on_chain.final_block()
            ==> deal_info.on_chain.proof_frequency_in_blocks.0 > 0,
    ensures
        on_chain_current_block.0 < deal_info.on_chain.final_block() ==> (step matches ProofStep::ProveWindow(
            b,
        ) && right_window(deal_info.on_chain, on_chain_current_block.0 as int) == Ok::<
            BlockNum,
            DealStatusError,
        >(b)),
        on_chain_current_block.0 >= deal_info.on_chain.final_block() ==> (step matches ProofStep::Reschedule(
            wakeup,
            info,
        ) && wakeup == Some(BlockNum(0)) && info == with_todo(
            deal_info,
            DealTodo::InitiateChainlinkFinalization,
        )),
        on_chain_current_block.0 < deal_info.on_chain.final_block() ==> (step matches ProofStep::ProveWindow(
            b,
        ) && b.0 == on_chain_current_block.0 - (on_chain_current_block.0
            - deal_info.on_chain.deal_start_block.0) % (
        deal_info.on_chain.proof_frequency_in_blocks.0 as int)),
        on_chain_current_block.0 >= deal_info.on_chain.final_block() ==> (step matches ProofStep::Reschedule(
            _,
            info,
        ) && info.on_chain == deal_info.on_chain && info.obao_cid == deal_info.obao_cid
            && info.last_successful_proof_submission == deal_info.last_successful_proof_submission
            && info.deal_todo == DealTodo::InitiateChainlinkFinalization),
{
    match get_the_right_window(&deal_info.on_chain, on_chain_current_block) {
        Ok(proof_window_start) => ProofStep::ProveWindow(proof_window_start),
        Err(DealStatusError::Past) => {
            let info = LocalDealInfo {
                deal_todo: DealTodo::InitiateChainlinkFinalization,
                ..deal_info
            };
            ProofStep::Reschedule(Some(BlockNum(0)), info)
        },
        Err(DealStatusError::Future) => {
            proof {
                assert(false);
            }
            ProofStep::Reschedule(None, deal_info)
        },
    }
}

/// After the proof for the window of `on_chain_current_block` was posted and
/// landed in `submission_blocknum`: record it; where another window starts
/// before the deal's final block, owe its proof and wake at its start, else
/// owe the deal's finalization and wake at the final block. The wake-up
/// block always lies after the current block and no later than the final one.
pub fn record_proof_submission(
    deal_info: LocalDealInfo,
    on_chain_current_block: BlockNum,
    submission_blocknum: BlockNum,
) -> (next: (Option<BlockNum>, LocalDealInfo))
    requires
        deal_info.on_chain.deal_start_block.0 <= on_chain_current_block.0
            < deal_info.on_chain.final_block(),
        deal_info.on_chain.final_block() <= u64::MAX,
        deal_info.on_chain.proof_frequency_in_blocks.0 > 0,
    ensures
        next.1 == (LocalDealInfo {
            last_successful_proof_submission: Some(submission_blocknum),
            deal_todo: if window_after(deal_info.on_chain, on_chain_current_block.0 as int) is Some {
                DealTodo::SubmitProof
            } else {
                DealTodo::InitiateChainlinkFinalization
            },
            ..deal_info
        }),
        next.0 == match window_after(deal_info.on_chain, on_chain_current_block.0 as int) {
            Some(n) => Some(n),
            None => Some(BlockNum(deal_info.on_chain.final_block() as u64)),
        },
        next.0 matches Some(wake) && (on_chain_current_block.0 < wake.0
            <= deal_info.on_chain.final_block()),
        next.1.last_successful_proof_submission == Some(submission_blocknum),
        ({
            let cur = on_chain_current_block.0 as int;
            let freq = deal_info.on_chain.proof_frequency_in_blocks.0 as int;
            let following = cur - (cur - deal_info.on_chain.deal_start_block.0) % freq + freq;
            &&& following < deal_info.on_chain.final_block() ==> next.0 == Some(
                BlockNum(following as u64),
            ) && next.1.deal_todo == DealTodo::SubmitProof
            &&& following >= deal_info.on_chain.final_block() ==> next.0 == Some(
                BlockNum(deal_info.on_chain.final_block() as u64),
            ) && next.1.deal_todo == DealTodo::InitiateChainlinkFinalization
        }),
{
    proof {
        lemma_window_after_is_following_window(deal_info.on_chain, on_chain_current_block.0 as int);
    }
    let next_window = get_the_window_after(&deal_info.on_chain, on_chain_current_block);
    let final_block = deal_info.on_chain.get_final_block();
    match next_window {
        Some(next) => {
            let info = LocalDealInfo {
                last_successful_proof_submission: Some(submission_blocknum),
                deal_todo: DealTodo::SubmitProof,
                ..deal_info
            };
            (Some(next), info)
        },
        None => {
            let info = LocalDealInfo {
                last_successful_proof_submission: Some(submission_blocknum),
                deal_todo: DealTodo::InitiateChainlinkFinalization,
                ..deal_info
            };
            (Some(final_block), info)
        },
    }
}

} // verus!
