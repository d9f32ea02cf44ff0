//! Proof windows: a deal is cut, from its start block on, into windows of
//! `proof_frequency_in_blocks` blocks, and one proof is owed per window.

use vstd::prelude::*;
use vstd::arithmetic::div_mod::{
    lemma_div_multiples_vanish, lemma_fundamental_div_mod, lemma_mod_multiples_basic,
};
use vstd::arithmetic::mul::{lemma_mul_nonnegative, lemma_mul_is_distributive_add};
use crate::types::{BlockNum, OnChainDealInfo};
use crate::database_types::LocalDealInfo;

verus! {

/// Why a block has no proof window of a deal.
#[derive(Clone, Copy, Debug, PartialEq, Eq, Structural)]
pub enum DealStatusError {
    /// The deal has not started yet.
    Future,
    /// The deal has ended.
    Past,
}

/// The start of the window that holds `block`: the deal's start plus a
/// whole number of windows.
pub open spec fn window_start(info: OnChainDealInfo, block: int) -> int {
    let start = info.deal_start_block.0 as int;
    let freq = info.proof_frequency_in_blocks.0 as int;
    start + freq * ((block - start) / freq)
}

/// What `get_the_right_window` gives for `block`.
pub open spec fn right_window(info: OnChainDealInfo, block: int) -> Result<BlockNum, DealStatusError> {
    if block < info.deal_start_block.0 {
        Err(DealStatusError::Future)
    } else if block >= info.final_block() {
        Err(DealStatusError::Past)
    } else {
        Ok(BlockNum(window_start(info, block) as u64))
    }
}

/// Whole windows: with `q` the number of whole windows in `d` blocks,
/// `freq * q` lies in `[d - freq + 1, d]` and is a multiple of `freq`.
pub proof fn lemma_whole_windows(freq: int, d: int)
    requires
        freq > 0,
        d >= 0,
    ensures
        d / freq >= 0,
        0 <= freq * (d / freq) <= d,
        d < freq * (d / freq) + freq,
        (freq * (d / freq)) % freq == 0,
{
    lemma_fundamental_div_mod(d, freq);
    assert(d / freq >= 0) by (nonlinear_arith)
        requires freq > 0, d >= 0;
    lemma_mul_nonnegative(freq, d / freq);
    lemma_mod_multiples_basic(d / freq, freq);
    assert(freq * (d / freq) == (d / freq) * freq) by (nonlinear_arith);
}

/// A block's window starts where the block, rounded down to a whole number
/// of windows after the deal's start, lies.
pub proof fn lemma_window_start_rounds_down(info: OnChainDealInfo, block: int)
    requires
        info.proof_frequency_in_blocks.0 > 0,
        info.deal_start_block.0 <= block,
    ensures
        window_start(info, block) == block - (block - info.deal_start_block.0) % (
        info.proof_frequency_in_blocks.0 as int),
{
    let start = info.deal_start_block.0 as int;
    let freq = info.proof_frequency_in_blocks.0 as int;
    lemma_fundamental_div_mod(block - start, freq);
}

/// The start of the proof window that `current_block_num` falls in, or why
/// there is none: `Future` before the deal starts, `Past` from its final
/// block on.
pub fn get_the_right_window(
    deal_info: &OnChainDealInfo,
    current_block_num: BlockNum,
) -> (window: Result<BlockNum, DealStatusError>)
    requires
        current_block_num.0 >= deal_info.deal_start_block.0 ==> deal_info.final_block() <= u64::MAX,
        deal_info.deal_start_block.0 <= current_block_num.0 < deal_info.final_block()
            ==> deal_info.proof_frequency_in_blocks.0 > 0,
    ensures
        window == right_window(*deal_info, current_block_num.0 as int),
        window matches Ok(w) ==> {
            &&& deal_info.deal_start_block.0 <= w.0 <= current_block_num.0
            &&& current_block_num.0 < w.0 + deal_info.proof_frequency_in_blocks.0
            &&& (w.0 - deal_info.deal_start_block.0) % (deal_info.proof_frequency_in_blocks.0 as int) == 0
            &&& w.0 == current_block_num.0 - (current_block_num.0 - deal_info.deal_start_block.0) % (
            deal_info.proof_frequency_in_blocks.0 as int)
        },
{
    if current_block_num.0 < deal_info.deal_start_block.0 {
        return Err(DealStatusError::Future);
    }
    if current_block_num.0 >= deal_info.get_final_block().0 {
        return Err(DealStatusError::Past);
    }
    let start = deal_info.deal_start_block.0;
    let freq = deal_info.proof_frequency_in_blocks.0;
    let window_number = (current_block_num.0 - start) / freq;
    proof {
        lemma_whole_windows(freq as int, (current_block_num.0 - start) as int);
        lemma_window_start_rounds_down(*deal_info, current_block_num.0 as int);
    }
    let offset = freq * window_number;
    Ok(BlockNum(start + offset))
}


/// Whether the last recorded proof fell in the deal's closing window: the
/// number of whole windows in the deal equals the window index of the last
/// proof. A deal with no proof recorded has not completed it.
pub open spec fn completed_last_proof_spec(deal_info: LocalDealInfo) -> bool {
    let on_chain = deal_info.on_chain;
    let freq = on_chain.proof_frequency_in_blocks.0 as int;
    match deal_info.last_successful_proof_submission {
        None => false,
        Some(last) => (on_chain.deal_length_in_blocks.0 as int) / freq
            == (last.0 - on_chain.deal_start_block.0) / freq,
    }
}

/// Whether the last proof of the deal has been submitted; see
/// `completed_last_proof_spec`.
pub fn completed_last_proof(deal_info: &LocalDealInfo) -> (done: bool)
    requires
        deal_info.last_successful_proof_submission matches Some(last) ==> {
            &&& deal_info.on_chain.proof_frequency_in_blocks.0 > 0
            &&& last.0 >= deal_info.on_chain.deal_start_block.0
        },
    ensures
        done == completed_last_proof_spec(*deal_info),
        deal_info.last_successful_proof_submission is None ==> !done,
        deal_info.last_successful_proof_submission matches Some(last) ==> done == ((
        deal_info.on_chain.deal_length_in_blocks.0 as int) / (
        deal_info.on_chain.proof_frequency_in_blocks.0 as int) == (last.0
            - deal_info.on_chain.deal_start_block.0) / (
        deal_info.on_chain.proof_frequency_in_blocks.0 as int)),
{
    match deal_info.last_successful_proof_submission {
        None => false,
        Some(last) => {
            let freq = deal_info.on_chain.proof_frequency_in_blocks.0;
            let windows_in_deal = deal_info.on_chain.deal_length_in_blocks.0 / freq;
            let last_window = (last.0 - deal_info.on_chain.deal_start_block.0) / freq;
            windows_in_deal == last_window
        },
    }
}

/// The start of the window after the one of the last recorded proof; with no
/// proof recorded, the deal's first window, which starts with the deal.
pub open spec fn next_window(deal_info: LocalDealInfo) -> int {
    let on_chain = deal_info.on_chain;
    let start = on_chain.deal_start_block.0 as int;
    let freq = on_chain.proof_frequency_in_blocks.0 as int;
    match deal_info.last_successful_proof_submission {
        None => start,
        Some(last) => start + freq * ((last.0 - start) / freq + 1),
    }
}

/// The first block of the window in which the deal's next proof is owed;
/// see `next_window`.
pub fn get_the_next_window(deal_info: &LocalDealInfo) -> (next: BlockNum)
    requires
        deal_info.last_successful_proof_submission matches Some(last) ==> {
            &&& deal_info.on_chain.proof_frequency_in_blocks.0 > 0
            &&& last.0 >= deal_info.on_chain.deal_start_block.0
            &&& next_window(*deal_info) <= u64::MAX
        },
    ensures
        next.0 == next_window(*deal_info),
        deal_info.last_successful_proof_submission is None ==> next
            == deal_info.on_chain.deal_start_block,
        deal_info.last_successful_proof_submission matches Some(last) ==> next.0 == last.0 - (last.0
            - deal_info.on_chain.deal_start_block.0) % (
        deal_info.on_chain.proof_frequency_in_blocks.0 as int)
            + deal_info.on_chain.proof_frequency_in_blocks.0,
{
    let start = deal_info.on_chain.deal_start_block.0;
    match deal_info.last_successful_proof_submission {
        None => BlockNum(start),
        Some(last) => {
            let freq = deal_info.on_chain.proof_frequency_in_blocks.0;
            let window_number = (last.0 - start) / freq;
            proof {
                lemma_whole_windows(freq as int, (last.0 - start) as int);
                lemma_mul_is_distributive_add(freq as int, window_number as int, 1);
                lemma_window_start_rounds_down(deal_info.on_chain, last.0 as int);
            }
            let offset = freq * (window_number + 1);
            BlockNum(start + offset)
        },
    }
}

/// The window after the one that `block` falls in, where it starts before
/// the deal's final block.
pub open spec fn window_after(info: OnChainDealInfo, block: int) -> Option<BlockNum> {
    let next = window_start(info, block) + info.proof_frequency_in_blocks.0;
    if next < info.final_block() {
        Some(BlockNum(next as u64))
    } else {
        None
    }
}

/// The start of the window that follows the one `current_block_num` falls
/// in, or `None` where that window would start at or after the deal's
/// final block.
pub fn get_the_window_after(
    deal_info: &OnChainDealInfo,
    current_block_num: BlockNum,
) -> (next: Option<BlockNum>)
    requires
        deal_info.deal_start_block.0 <= current_block_num.0 < deal_info.final_block(),
        deal_info.final_block() <= u64::MAX,
        deal_info.proof_frequency_in_blocks.0 > 0,
    ensures
        next == window_after(*deal_info, current_block_num.0 as int),
        next matches Some(n) ==> current_block_num.0 < n.0 < deal_info.final_block(),
        ({
            let cur = current_block_num.0 as int;
            let freq = deal_info.proof_frequency_in_blocks.0 as int;
            let following = cur - (cur - deal_info.deal_start_block.0) % freq + freq;
            &&& following < deal_info.final_block() ==> next == Some(BlockNum(following as u64))
            &&& following >= deal_info.final_block() ==> next is None
        }),
{
    let end = deal_info.get_final_block();
    let freq = deal_info.proof_frequency_in_blocks.0;
    proof {
        lemma_whole_windows(
            freq as int,
            current_block_num.0 - deal_info.deal_start_block.0,
        );
        lemma_window_start_rounds_down(*deal_info, current_block_num.0 as int);
    }
    match get_the_right_window(deal_info, current_block_num) {
        Ok(window) => {
            if freq < end.0 - window.0 {
                Some(BlockNum(window.0 + freq))
            } else {
                None
            }
        },
        Err(_) => None,
    }
}

/// The window of a proof lies inside the deal, and the next window owed
/// after it starts exactly one window later.
pub proof fn lemma_next_window_follows_proof_window(deal_info: LocalDealInfo)
    requires
        deal_info.last_successful_proof_submission matches Some(last) && {
            &&& deal_info.on_chain.proof_frequency_in_blocks.0 > 0
            &&& deal_info.on_chain.deal_start_block.0 <= last.0
        },
    ensures
        ({
            let last = (deal_info.last_successful_proof_submission->0).0 as int;
            let w = window_start(deal_info.on_chain, last);
            &&& deal_info.on_chain.deal_start_block.0 <= w <= last
            &&& next_window(deal_info) == w + deal_info.on_chain.proof_frequency_in_blocks.0
            &&& last < next_window(deal_info)
        }),
{
    let on_chain = deal_info.on_chain;
    let start = on_chain.deal_start_block.0 as int;
    let freq = on_chain.proof_frequency_in_blocks.0 as int;
    let last = (deal_info.last_successful_proof_submission->0).0 as int;
    lemma_whole_windows(freq, last - start);
    lemma_mul_is_distributive_add(freq, (last - start) / freq, 1);
}


/// The window after a block's window starts a window of its own: a deal
/// woken at that block proves the window that starts there.
pub proof fn lemma_window_after_starts_window(info: OnChainDealInfo, block: int)
    requires
        info.proof_frequency_in_blocks.0 > 0,
        info.deal_start_block.0 <= block < info.final_block(),
        info.final_block() <= u64::MAX,
    ensures
        window_after(info, block) matches Some(next) ==> right_window(info, next.0 as int) == Ok::<
            BlockNum,
            DealStatusError,
        >(next),
{
    let start = info.deal_start_block.0 as int;
    let freq = info.proof_frequency_in_blocks.0 as int;
    let q = (block - start) / freq;
    lemma_whole_windows(freq, block - start);
    lemma_mul_is_distributive_add(freq, q, 1);
    lemma_div_multiples_vanish(q + 1, freq);
    let next = window_start(info, block) + freq;
    if next < info.final_block() {
        assert(next - start == freq * (q + 1));
        assert((next - start) / freq == q + 1);
        assert(window_start(info, next) == next);
    }
}


/// The window after a block's window starts one window after the block
/// rounded down to its window's start, and exists exactly where that start
/// lies before the deal's final block.
pub proof fn lemma_window_after_is_following_window(info: OnChainDealInfo, block: int)
    requires
        info.proof_frequency_in_blocks.0 > 0,
        info.deal_start_block.0 <= block,
    ensures
        ({
            let freq = info.proof_frequency_in_blocks.0 as int;
            let following = block - (block - info.deal_start_block.0) % freq + freq;
            &&& following < info.final_block() ==> window_after(info, block) == Some(
                BlockNum(following as u64),
            )
            &&& following >= info.final_block() ==> window_after(info, block) is None
        }),
{
    lemma_window_start_rounds_down(info, block);
}

/// The next window owed starts with the deal where no proof is recorded, and
/// one window after the rounded-down last proof otherwise.
pub proof fn lemma_next_window_owed(deal_info: LocalDealInfo)
    requires
        deal_info.last_successful_proof_submission matches Some(last) ==> {
            &&& deal_info.on_chain.proof_frequency_in_blocks.0 > 0
            &&& last.0 >= deal_info.on_chain.deal_start_block.0
        },
    ensures
        deal_info.last_successful_proof_submission is None ==> next_window(deal_info)
            == deal_info.on_chain.deal_start_block.0,
        deal_info.last_successful_proof_submission matches Some(last) ==> next_window(deal_info)
            == last.0 - (last.0 - deal_info.on_chain.deal_start_block.0) % (
        deal_info.on_chain.proof_frequency_in_blocks.0 as int)
            + deal_info.on_chain.proof_frequency_in_blocks.0,
{
    if let Some(last) = deal_info.last_successful_proof_submission {
        let start = deal_info.on_chain.deal_start_block.0 as int;
        let freq = deal_info.on_chain.proof_frequency_in_blocks.0 as int;
        lemma_mul_is_distributive_add(freq, (last.0 - start) / freq, 1);
        lemma_window_start_rounds_down(deal_info.on_chain, last.0 as int);
    }
}

} // verus!
