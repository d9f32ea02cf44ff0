use std::collections::HashSet;

use ipfs_proof_buddy::database_types::{DealTodo, LocalDealInfo};
use ipfs_proof_buddy::deal_tracker_db::{
    deal_task, plan_after_task, plan_new_deal, schedule_dealid, unschedule_dealid, DealTask,
    ScheduleWrite,
};
use ipfs_proof_buddy::types::{BlockNum, DealID, OnChainDealInfo, Token, TokenAmount};

fn set(ids: &[u64]) -> HashSet<u64> {
    ids.iter().copied().collect()
}

fn new_deal() -> OnChainDealInfo {
    OnChainDealInfo {
        deal_id: DealID(11),
        deal_start_block: BlockNum(500),
        deal_length_in_blocks: BlockNum(100),
        proof_frequency_in_blocks: BlockNum(25),
        price: TokenAmount(1),
        collateral: TokenAmount(2),
        erc20_token_denomination: Token([0u8; 20]),
        ipfs_file_cid: vec![4, 5],
        file_size: 10,
        blake3_file_checksum: [0u8; 32],
    }
}

#[test]
fn schedule_at_empty_block_creates_it() {
    match schedule_dealid(None, DealID(7), BlockNum(9)) {
        ScheduleWrite::Insert(b, s) => {
            assert_eq!(b, BlockNum(9));
            assert_eq!(s, set(&[7]));
        }
        other => panic!("unexpected write {:?}", other),
    }
}

#[test]
fn schedule_adds_deal_to_block() {
    match schedule_dealid(Some(set(&[1, 2])), DealID(7), BlockNum(9)) {
        ScheduleWrite::Insert(b, s) => {
            assert_eq!(b, BlockNum(9));
            assert_eq!(s, set(&[1, 2, 7]));
        }
        other => panic!("unexpected write {:?}", other),
    }
}

#[test]
fn schedule_of_scheduled_deal_keeps_set() {
    match schedule_dealid(Some(set(&[7, 8])), DealID(7), BlockNum(9)) {
        ScheduleWrite::Insert(_, s) => assert_eq!(s, set(&[7, 8])),
        other => panic!("unexpected write {:?}", other),
    }
}

#[test]
fn unschedule_from_missing_block_writes_nothing() {
    assert!(matches!(unschedule_dealid(None, DealID(7), BlockNum(9)), ScheduleWrite::Nothing));
}

#[test]
fn unschedule_last_deal_removes_block() {
    match unschedule_dealid(Some(set(&[7])), DealID(7), BlockNum(9)) {
        ScheduleWrite::Remove(b) => assert_eq!(b, BlockNum(9)),
        other => panic!("unexpected write {:?}", other),
    }
}

#[test]
fn unschedule_keeps_other_deals() {
    match unschedule_dealid(Some(set(&[7, 8])), DealID(7), BlockNum(9)) {
        ScheduleWrite::Insert(b, s) => {
            assert_eq!(b, BlockNum(9));
            assert_eq!(s, set(&[8]));
        }
        other => panic!("unexpected write {:?}", other),
    }
}

#[test]
fn unschedule_of_absent_deal_rewrites_same_set() {
    match unschedule_dealid(Some(set(&[8])), DealID(7), BlockNum(9)) {
        ScheduleWrite::Insert(_, s) => assert_eq!(s, set(&[8])),
        other => panic!("unexpected write {:?}", other),
    }
}

#[test]
fn unschedule_undoes_schedule_on_concrete_block() {
    let before = set(&[1, 2]);
    let after = match schedule_dealid(Some(before.clone()), DealID(5), BlockNum(3)) {
        ScheduleWrite::Insert(_, s) => s,
        other => panic!("unexpected write {:?}", other),
    };
    match unschedule_dealid(Some(after), DealID(5), BlockNum(3)) {
        ScheduleWrite::Insert(_, s) => assert_eq!(s, before),
        other => panic!("unexpected write {:?}", other),
    }
}

#[test]
fn new_deal_is_scheduled_at_its_start() {
    let plan = plan_new_deal(new_deal(), vec![8, 9]);
    assert_eq!(plan.deal_id, DealID(11));
    assert_eq!(plan.old_block_num, None);
    assert_eq!(plan.new_block_num, Some(BlockNum(500)));
    let info: LocalDealInfo = plan.updated_deal_params.unwrap();
    assert_eq!(info.obao_cid, vec![8, 9]);
    assert_eq!(info.last_successful_proof_submission, None);
    assert_eq!(info.deal_todo, DealTodo::SubmitProof);
    assert_eq!(info.on_chain.deal_start_block, BlockNum(500));
}

#[test]
fn todo_picks_task() {
    assert_eq!(deal_task(DealTodo::SubmitProof), DealTask::SubmitProof);
    assert_eq!(deal_task(DealTodo::InitiateChainlinkFinalization), DealTask::SubmitFinalization);
}

#[test]
fn task_result_moves_deal() {
    let info = LocalDealInfo {
        on_chain: new_deal(),
        obao_cid: vec![],
        last_successful_proof_submission: Some(BlockNum(510)),
        deal_todo: DealTodo::SubmitProof,
    };
    let plan = plan_after_task(DealID(11), BlockNum(505), Some(BlockNum(525)), info);
    assert_eq!(plan.old_block_num, Some(BlockNum(505)));
    assert_eq!(plan.new_block_num, Some(BlockNum(525)));
    assert_eq!(
        plan.updated_deal_params.unwrap().last_successful_proof_submission,
        Some(BlockNum(510))
    );
}

fn apply(schedule: &mut std::collections::HashMap<u64, HashSet<u64>>, write: ScheduleWrite) {
    match write {
        ScheduleWrite::Nothing => {}
        ScheduleWrite::Remove(b) => {
            schedule.remove(&b.0);
        }
        ScheduleWrite::Insert(b, s) => {
            schedule.insert(b.0, s);
        }
    }
}

fn move_deal(
    schedule: &mut std::collections::HashMap<u64, HashSet<u64>>,
    deal: u64,
    old: Option<u64>,
    new: Option<u64>,
) {
    if let Some(b) = old {
        let existing = schedule.get(&b).cloned();
        apply(schedule, unschedule_dealid(existing, DealID(deal), BlockNum(b)));
    }
    if let Some(b) = new {
        let existing = schedule.get(&b).cloned();
        apply(schedule, schedule_dealid(existing, DealID(deal), BlockNum(b)));
    }
}

#[test]
fn rescheduling_moves_deal_and_keeps_other_blocks() {
    let mut schedule = std::collections::HashMap::new();
    schedule.insert(10, set(&[1, 2]));
    schedule.insert(20, set(&[3]));
    schedule.insert(30, set(&[4]));
    move_deal(&mut schedule, 1, Some(10), Some(20));
    assert_eq!(schedule.get(&10), Some(&set(&[2])));
    assert_eq!(schedule.get(&20), Some(&set(&[1, 3])));
    assert_eq!(schedule.get(&30), Some(&set(&[4])));
    move_deal(&mut schedule, 3, Some(20), Some(40));
    move_deal(&mut schedule, 1, Some(20), None);
    assert_eq!(schedule.get(&20), None);
    assert_eq!(schedule.get(&40), Some(&set(&[3])));
    assert!(schedule.values().all(|s| !s.is_empty()));
}

#[test]
fn rescheduling_to_same_block_keeps_deal() {
    let mut schedule = std::collections::HashMap::new();
    schedule.insert(10, set(&[1]));
    move_deal(&mut schedule, 1, Some(10), Some(10));
    assert_eq!(schedule.get(&10), Some(&set(&[1])));
    assert_eq!(schedule.len(), 1);
}
