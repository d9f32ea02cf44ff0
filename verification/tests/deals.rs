use ipfs_proof_buddy::database_types::{DealTodo, LocalDealInfo};
use ipfs_proof_buddy::types::{BlockNum, DealID, OnChainDealInfo, Token, TokenAmount};
use ipfs_proof_buddy::window_utils::{
    completed_last_proof, get_the_next_window, get_the_right_window, get_the_window_after,
    DealStatusError,
};
use ipfs_proof_buddy::deal_tasks::{record_proof_submission, submit_proof_step, ProofStep};
use ipfs_proof_buddy::estuary_talker::{make_a_decision_on_acceptance, AcceptanceError};

fn deal(start: u64, length: u64, freq: u64) -> OnChainDealInfo {
    OnChainDealInfo {
        deal_id: DealID(42),
        deal_start_block: BlockNum(start),
        deal_length_in_blocks: BlockNum(length),
        proof_frequency_in_blocks: BlockNum(freq),
        price: TokenAmount(5),
        collateral: TokenAmount(7),
        erc20_token_denomination: Token([3u8; 20]),
        ipfs_file_cid: vec![1, 85, 18, 32],
        file_size: 3000,
        blake3_file_checksum: [9u8; 32],
    }
}

fn local(on_chain: OnChainDealInfo, last: Option<u64>) -> LocalDealInfo {
    LocalDealInfo {
        on_chain,
        obao_cid: vec![1, 2, 3],
        last_successful_proof_submission: last.map(BlockNum),
        deal_todo: DealTodo::SubmitProof,
    }
}

#[test]
fn block_numbers_add() {
    assert_eq!(BlockNum(100) + BlockNum(50), BlockNum(150));
    assert_eq!(BlockNum(0) + BlockNum(0), BlockNum(0));
}

#[test]
fn final_block_is_start_plus_length() {
    assert_eq!(deal(100, 50, 10).get_final_block(), BlockNum(150));
}

#[test]
fn deal_id_key_is_little_endian() {
    let id = DealID(0x0102_0304_0506_0708);
    let key = id.into_key_bytes();
    assert_eq!(key, vec![8, 7, 6, 5, 4, 3, 2, 1]);
    assert_eq!(DealID::from_key_bytes(&key), id);
}

#[test]
fn deal_id_key_round_trip() {
    for n in [0u64, 1, 255, 256, u64::MAX, 1 << 40] {
        let key = DealID(n).into_key_bytes();
        assert_eq!(DealID::from_key_bytes(&key), DealID(n));
        assert_eq!(DealID::try_from_key_bytes(&key), Some(DealID(n)));
    }
}

#[test]
fn deal_id_key_reads_first_eight_bytes() {
    let key = [1u8, 0, 0, 0, 0, 0, 0, 0, 99, 98];
    assert_eq!(DealID::from_key_bytes(&key), DealID(1));
}

#[test]
fn deal_id_short_key_is_refused() {
    assert_eq!(DealID::try_from_key_bytes(&[1, 2, 3]), None);
    assert_eq!(DealID::try_from_key_bytes(&[]), None);
}

#[test]
fn local_record_keeps_its_fields() {
    let info = local(deal(1, 2, 1), Some(1));
    assert_eq!(info.last_successful_proof_submission, Some(BlockNum(1)));
    assert_eq!(info.deal_todo, DealTodo::SubmitProof);
}

#[test]
fn right_window_before_deal_is_future() {
    let d = deal(100, 50, 10);
    assert_eq!(get_the_right_window(&d, BlockNum(99)), Err(DealStatusError::Future));
    assert_eq!(get_the_right_window(&d, BlockNum(0)), Err(DealStatusError::Future));
}

#[test]
fn right_window_after_deal_is_past() {
    let d = deal(100, 50, 10);
    assert_eq!(get_the_right_window(&d, BlockNum(150)), Err(DealStatusError::Past));
    assert_eq!(get_the_right_window(&d, BlockNum(1_000)), Err(DealStatusError::Past));
}

#[test]
fn right_window_starts_the_window_of_the_block() {
    let d = deal(100, 50, 10);
    assert_eq!(get_the_right_window(&d, BlockNum(100)), Ok(BlockNum(100)));
    assert_eq!(get_the_right_window(&d, BlockNum(109)), Ok(BlockNum(100)));
    assert_eq!(get_the_right_window(&d, BlockNum(125)), Ok(BlockNum(120)));
    assert_eq!(get_the_right_window(&d, BlockNum(149)), Ok(BlockNum(140)));
}

#[test]
fn right_window_contains_the_block() {
    let d = deal(7, 1_000, 13);
    for b in 7..1_007u64 {
        let w = get_the_right_window(&d, BlockNum(b)).unwrap().0;
        assert!(7 <= w && w <= b && b < w + 13);
        assert_eq!((w - 7) % 13, 0);
    }
}

#[test]
fn right_window_of_deal_with_uneven_last_window() {
    let d = deal(100, 50, 20);
    assert_eq!(get_the_right_window(&d, BlockNum(145)), Ok(BlockNum(140)));
}

#[test]
fn window_after_is_next_window_start() {
    let d = deal(100, 50, 10);
    assert_eq!(get_the_window_after(&d, BlockNum(125)), Some(BlockNum(130)));
    assert_eq!(get_the_window_after(&d, BlockNum(100)), Some(BlockNum(110)));
}

#[test]
fn window_after_last_window_is_none() {
    assert_eq!(get_the_window_after(&deal(100, 50, 10), BlockNum(145)), None);
    assert_eq!(get_the_window_after(&deal(100, 50, 20), BlockNum(141)), None);
    assert_eq!(get_the_window_after(&deal(0, 10, u64::MAX), BlockNum(3)), None);
}

#[test]
fn completed_last_proof_in_closing_window() {
    let d = deal(100, 50, 10);
    assert!(completed_last_proof(&local(d.clone(), Some(150))));
    assert!(!completed_last_proof(&local(d.clone(), Some(145))));
    assert!(!completed_last_proof(&local(d, Some(100))));
}

#[test]
fn completed_last_proof_without_proof_is_false() {
    assert!(!completed_last_proof(&local(deal(100, 50, 10), None)));
}

#[test]
fn next_window_follows_last_proof() {
    let d = deal(100, 50, 10);
    assert_eq!(get_the_next_window(&local(d.clone(), Some(125))), BlockNum(130));
    assert_eq!(get_the_next_window(&local(d.clone(), Some(120))), BlockNum(130));
    assert_eq!(get_the_next_window(&local(d, Some(100))), BlockNum(110));
}

#[test]
fn next_window_without_proof_is_deal_start() {
    assert_eq!(get_the_next_window(&local(deal(100, 50, 10), None)), BlockNum(100));
}

#[test]
fn next_window_is_right_window_plus_one_window() {
    let d = deal(3, 500, 7);
    for last in 3..503u64 {
        let w = get_the_right_window(&d, BlockNum(last)).unwrap();
        assert_eq!(get_the_next_window(&local(d.clone(), Some(last))), BlockNum(w.0 + 7));
    }
}

#[test]
fn proof_step_proves_current_window() {
    match submit_proof_step(local(deal(100, 50, 10), None), BlockNum(125)) {
        ProofStep::ProveWindow(w) => assert_eq!(w, BlockNum(120)),
        other => panic!("unexpected step {:?}", other),
    }
}

#[test]
fn proof_step_after_deal_moves_to_finalization() {
    let info = local(deal(100, 50, 10), Some(140));
    match submit_proof_step(info, BlockNum(150)) {
        ProofStep::Reschedule(wake, next) => {
            assert_eq!(wake, Some(BlockNum(0)));
            assert_eq!(next.deal_todo, DealTodo::InitiateChainlinkFinalization);
            assert_eq!(next.last_successful_proof_submission, Some(BlockNum(140)));
            assert_eq!(next.obao_cid, vec![1, 2, 3]);
        }
        other => panic!("unexpected step {:?}", other),
    }
}

#[test]
fn recorded_proof_schedules_next_window() {
    let (wake, next) = record_proof_submission(local(deal(100, 50, 10), None), BlockNum(125), BlockNum(127));
    assert_eq!(wake, Some(BlockNum(130)));
    assert_eq!(next.deal_todo, DealTodo::SubmitProof);
    assert_eq!(next.last_successful_proof_submission, Some(BlockNum(127)));
    assert_eq!(next.on_chain.deal_id, DealID(42));
}

#[test]
fn recorded_last_proof_schedules_finalization() {
    let (wake, next) = record_proof_submission(local(deal(100, 50, 10), Some(135)), BlockNum(145), BlockNum(146));
    assert_eq!(wake, Some(BlockNum(150)));
    assert_eq!(next.deal_todo, DealTodo::InitiateChainlinkFinalization);
    assert_eq!(next.last_successful_proof_submission, Some(BlockNum(146)));
}

#[test]
fn recorded_proof_wakes_after_current_block_within_deal() {
    let d = deal(10, 95, 9);
    for cur in 10..105u64 {
        let (wake, _) = record_proof_submission(local(d.clone(), None), BlockNum(cur), BlockNum(cur));
        let wake = wake.unwrap().0;
        assert!(cur < wake && wake <= 105);
    }
}

#[test]
fn deal_running_past_latest_block_is_refused() {
    let d = deal(100, 50, 10);
    assert_eq!(
        make_a_decision_on_acceptance(&d, BlockNum(120)),
        Err(AcceptanceError::DealEnded)
    );
    assert_eq!(
        make_a_decision_on_acceptance(&d, BlockNum(0)),
        Err(AcceptanceError::DealEnded)
    );
}

#[test]
fn deal_woken_at_next_window_proves_that_window() {
    let d = deal(100, 50, 10);
    let (wake, _) = record_proof_submission(local(d.clone(), None), BlockNum(125), BlockNum(126));
    let wake = wake.unwrap();
    assert_eq!(get_the_right_window(&d, wake), Ok(wake));
    match submit_proof_step(local(d, Some(126)), wake) {
        ProofStep::ProveWindow(w) => assert_eq!(w, wake),
        other => panic!("unexpected step {:?}", other),
    }
}
