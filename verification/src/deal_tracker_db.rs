//! The proof schedule: for each wake-up block, the set of deals to wake up
//! then. The database stores it block by block; this module decides what to
//! write, and states what the writes do to the schedule as a whole.

use vstd::prelude::*;
use std::collections::HashSet;
use crate::types::{BlockNum, DealID, OnChainDealInfo};
use crate::database_types::{DealTodo, LocalDealInfo};

verus! {

broadcast use vstd::std_specs::hash::group_hash_axioms;

/// The schedule as a whole: wake-up block to the deals scheduled then.
pub type ScheduleView = Map<u64, Set<u64>>;

/// What the schedule holds at `block`.
pub open spec fn stored(schedule: ScheduleView, block: u64) -> Option<Set<u64>> {
    if schedule.contains_key(block) {
        Some(schedule[block])
    } else {
        None
    }
}

/// The schedule keeps no block with an empty set of deals.
pub open spec fn no_empty_blocks(schedule: ScheduleView) -> bool {
    forall|b: u64| #[trigger] schedule.contains_key(b) ==> !schedule[b].is_empty()
}

/// Whether `deal` is scheduled at `block`.
pub open spec fn scheduled_at(schedule: ScheduleView, deal: u64, block: u64) -> bool {
    schedule.contains_key(block) && schedule[block].contains(deal)
}

/// One write to the schedule at one block.
#[derive(Debug)]
pub enum ScheduleWrite {
    /// Leave the schedule as it is.
    Nothing,
    /// Drop the block from the schedule.
    Remove(BlockNum),
    /// Store this set of deals at the block.
    Insert(BlockNum, HashSet<u64>),
}

/// A write, with the set of deals taken by its view.
pub enum ScheduleWriteView {
    Nothing,
    Remove(u64),
    Insert(u64, Set<u64>),
}

impl View for ScheduleWrite {
    type V = ScheduleWriteView;

    open spec fn view(&self) -> ScheduleWriteView {
        match self {
            ScheduleWrite::Nothing => ScheduleWriteView::Nothing,
            ScheduleWrite::Remove(b) => ScheduleWriteView::Remove(b.0),
            ScheduleWrite::Insert(b, s) => ScheduleWriteView::Insert(b.0, s@),
        }
    }
}

/// The schedule after a write.
pub open spec fn write_applied(schedule: ScheduleView, write: ScheduleWriteView) -> ScheduleView {
    match write {
        ScheduleWriteView::Nothing => schedule,
        ScheduleWriteView::Remove(b) => schedule.remove(b),
        ScheduleWriteView::Insert(b, s) => schedule.insert(b, s),
    }
}

/// A stored set, by its view.
pub open spec fn stored_view(existing: Option<HashSet<u64>>) -> Option<Set<u64>> {
    match existing {
        Some(s) => Some(s@),
        None => None,
    }
}

/// The write that adds `deal` to what is stored at `block`.
pub open spec fn schedule_write(existing: Option<Set<u64>>, deal: u64, block: u64) -> ScheduleWriteView {
    match existing {
        Some(s) => ScheduleWriteView::Insert(block, s.insert(deal)),
        None => ScheduleWriteView::Insert(block, Set::empty().insert(deal)),
    }
}

/// The write that takes `deal` out of what is stored at `block`, dropping
/// the block where no deal is left there.
pub open spec fn unschedule_write(existing: Option<Set<u64>>, deal: u64, block: u64) -> ScheduleWriteView {
    match existing {
        Some(s) => if s.remove(deal).is_empty() {
            ScheduleWriteView::Remove(block)
        } else {
            ScheduleWriteView::Insert(block, s.remove(deal))
        },
        None => ScheduleWriteView::Nothing,
    }
}

/// The schedule after `deal` is added at `block`.
pub open spec fn schedule_deal(schedule: ScheduleView, deal: u64, block: u64) -> ScheduleView {
    write_applied(schedule, schedule_write(stored(schedule, block), deal, block))
}

/// The schedule after `deal` is taken out of `block`.
pub open spec fn unschedule_deal(schedule: ScheduleView, deal: u64, block: u64) -> ScheduleView {
    write_applied(schedule, unschedule_write(stored(schedule, block), deal, block))
}

/// The write that schedules `deal_id` at `block_num`, given the set of deals
/// that the schedule holds at `block_num` (`None` where it holds none): the
/// set with the deal added.
pub fn schedule_dealid(
    existing: Option<HashSet<u64>>,
    deal_id: DealID,
    block_num: BlockNum,
) -> (write: ScheduleWrite)
    ensures
        write@ == schedule_write(stored_view(existing), deal_id.0, block_num.0),
        write matches ScheduleWrite::Insert(b, set) && b == block_num && set@ == match existing {
            Some(e) => e@.insert(deal_id.0),
            None => Set::<u64>::empty().insert(deal_id.0),
        },
{
    let mut deal_id_set = match existing {
        Some(set) => set,
        None => HashSet::new(),
    };
    deal_id_set.insert(deal_id.0);
    ScheduleWrite::Insert(block_num, deal_id_set)
}

/// The write that unschedules `deal_id` from `block_num`, given the set of
/// deals that the schedule holds at `block_num` (`None` where it holds
/// none): nothing where the block holds no set, the removal of the block
/// where the deal was the last one there, else the set without the deal.
pub fn unschedule_dealid(
    existing: Option<HashSet<u64>>,
    deal_id: DealID,
    block_num: BlockNum,
) -> (write: ScheduleWrite)
    ensures
        write@ == unschedule_write(stored_view(existing), deal_id.0, block_num.0),
        existing is None ==> write is Nothing,
        existing matches Some(e) ==> (e@.remove(deal_id.0).is_empty() ==> write
            == ScheduleWrite::Remove(block_num)),
        existing matches Some(e) ==> (!e@.remove(deal_id.0).is_empty() ==> (write matches ScheduleWrite::Insert(
            b,
            set,
        ) && b == block_num && set@ == e@.remove(deal_id.0))),
{
    match existing {
        None => ScheduleWrite::Nothing,
        Some(set) => {
            let mut deal_id_set = set;
            deal_id_set.remove(&deal_id.0);
            if deal_id_set.is_empty() {
                ScheduleWrite::Remove(block_num)
            } else {
                ScheduleWrite::Insert(block_num, deal_id_set)
            }
        },
    }
}


/// Scheduling adds the deal at the block and leaves every other block as it
/// was, and keeps a schedule with no empty block free of empty blocks.
pub proof fn lemma_schedule_deal(schedule: ScheduleView, deal: u64, block: u64)
    ensures
        ({
            let after = schedule_deal(schedule, deal, block);
            &&& scheduled_at(after, deal, block)
            &&& after[block] == (if schedule.contains_key(block) {
                schedule[block]
            } else {
                Set::empty()
            }).insert(deal)
            &&& after.remove(block) == schedule.remove(block)
            &&& no_empty_blocks(schedule) ==> no_empty_blocks(after)
        }),
{
    let after = schedule_deal(schedule, deal, block);
    assert(after.remove(block) =~= schedule.remove(block));
    if no_empty_blocks(schedule) {
        assert forall|b: u64| #[trigger] after.contains_key(b) implies !after[b].is_empty() by {
            if b == block {
                assert(after[b].contains(deal));
            }
        }
    }
}

/// Unscheduling leaves the deal nowhere at the block, drops the block where
/// the deal was the last one there, leaves every other block as it was, and
/// keeps a schedule with no empty block free of empty blocks.
pub proof fn lemma_unschedule_deal(schedule: ScheduleView, deal: u64, block: u64)
    ensures
        ({
            let after = unschedule_deal(schedule, deal, block);
            &&& !scheduled_at(after, deal, block)
            &&& after.remove(block) == schedule.remove(block)
            &&& !schedule.contains_key(block) ==> after == schedule
            &&& no_empty_blocks(schedule) && !scheduled_at(schedule, deal, block) ==> after == schedule
            &&& schedule.contains_key(block) && schedule[block].remove(deal).is_empty()
                ==> !after.contains_key(block)
            &&& schedule.contains_key(block) && !schedule[block].remove(deal).is_empty()
                ==> after.contains_key(block) && after[block] == schedule[block].remove(deal)
            &&& no_empty_blocks(schedule) ==> no_empty_blocks(after)
        }),
{
    let after = unschedule_deal(schedule, deal, block);
    assert(after.remove(block) =~= schedule.remove(block));
    if no_empty_blocks(schedule) && !scheduled_at(schedule, deal, block) && schedule.contains_key(
        block,
    ) {
        assert(schedule[block].remove(deal) =~= schedule[block]);
        assert(after =~= schedule);
    }
}

/// Unscheduling a deal right after scheduling it where it was not scheduled
/// gives back the schedule as it was.
pub proof fn lemma_unschedule_undoes_schedule(schedule: ScheduleView, deal: u64, block: u64)
    requires
        no_empty_blocks(schedule),
        !scheduled_at(schedule, deal, block),
    ensures
        unschedule_deal(schedule_deal(schedule, deal, block), deal, block) == schedule,
{
    let mid = schedule_deal(schedule, deal, block);
    let after = unschedule_deal(mid, deal, block);
    if schedule.contains_key(block) {
        assert(mid[block].remove(deal) =~= schedule[block]);
        assert(after =~= schedule);
    } else {
        assert(mid[block].remove(deal) =~= Set::<u64>::empty());
        assert(after =~= schedule);
    }
}

/// Scheduling a deal where it is already scheduled changes nothing.
pub proof fn lemma_schedule_idempotent(schedule: ScheduleView, deal: u64, block: u64)
    requires
        scheduled_at(schedule, deal, block),
    ensures
        schedule_deal(schedule, deal, block) == schedule,
{
    let after = schedule_deal(schedule, deal, block);
    assert(schedule[block].insert(deal) =~= schedule[block]);
    assert(after =~= schedule);
}

/// The schedule after a deal is moved: taken out of `old_block` where there
/// is one, then added at `new_block` where there is one.
pub open spec fn rescheduled(
    schedule: ScheduleView,
    deal: u64,
    old_block: Option<u64>,
    new_block: Option<u64>,
) -> ScheduleView {
    let without = match old_block {
        Some(b) => unschedule_deal(schedule, deal, b),
        None => schedule,
    };
    match new_block {
        Some(b) => schedule_deal(without, deal, b),
        None => without,
    }
}

/// Moving a deal leaves it scheduled at the new block, no longer at the old
/// one (where the two differ), and every other block as it was; the
/// schedule stays free of empty blocks.
pub proof fn lemma_rescheduled(
    schedule: ScheduleView,
    deal: u64,
    old_block: Option<u64>,
    new_block: Option<u64>,
)
    requires
        no_empty_blocks(schedule),
    ensures
        ({
            let after = rescheduled(schedule, deal, old_block, new_block);
            &&& no_empty_blocks(after)
            &&& (new_block matches Some(nb) ==> scheduled_at(after, deal, nb))
            &&& (old_block matches Some(ob) ==> (new_block != Some(ob) ==> !scheduled_at(
                after,
                deal,
                ob,
            )))
            &&& forall|k: u64|
                old_block != Some(k) && new_block != Some(k) ==> #[trigger] stored(after, k)
                    == stored(schedule, k)
        }),
{
    let without = match old_block {
        Some(b) => unschedule_deal(schedule, deal, b),
        None => schedule,
    };
    if let Some(ob) = old_block {
        lemma_unschedule_deal(schedule, deal, ob);
        assert forall|k: u64| k != ob implies #[trigger] stored(without, k) == stored(schedule, k) by {
            assert(without.remove(ob).contains_key(k) == schedule.remove(ob).contains_key(k));
            if schedule.contains_key(k) {
                assert(without.remove(ob)[k] == schedule.remove(ob)[k]);
            }
        }
    }
    if let Some(nb) = new_block {
        lemma_schedule_deal(without, deal, nb);
        let after = schedule_deal(without, deal, nb);
        assert forall|k: u64| k != nb implies #[trigger] stored(after, k) == stored(without, k) by {
            assert(after.remove(nb).contains_key(k) == without.remove(nb).contains_key(k));
            if without.contains_key(k) {
                assert(after.remove(nb)[k] == without.remove(nb)[k]);
            }
        }
        if let Some(ob) = old_block {
            if ob != nb {
                assert(stored(after, ob) == stored(without, ob));
            }
        }
    }
}


/// One atomic update of the database for one deal: take the deal out of
/// the schedule at `old_block_num`, add it at `new_block_num`, and store
/// `updated_deal_params` as the deal's record; each where it is given.
#[derive(Debug)]
pub struct ReschedulePlan {
    pub deal_id: DealID,
    pub old_block_num: Option<BlockNum>,
    pub new_block_num: Option<BlockNum>,
    pub updated_deal_params: Option<LocalDealInfo>,
}

/// The local record of a deal just accepted: no proof yet, a proof owed next.
pub open spec fn is_fresh_deal_info(
    info: LocalDealInfo,
    deal_params: OnChainDealInfo,
    obao_cid: Seq<u8>,
) -> bool {
    &&& info.on_chain == deal_params
    &&& info.obao_cid@ == obao_cid
    &&& info.last_successful_proof_submission is None
    &&& info.deal_todo == DealTodo::SubmitProof
}

/// How a deal accepted on chain, whose file and outboard encoding are
/// stored, enters the database: its record holds no proof yet and owes a
/// proof, and it is scheduled at its start block and nowhere else before.
pub fn plan_new_deal(deal_params: OnChainDealInfo, obao_cid: Vec<u8>) -> (plan: ReschedulePlan)
    ensures
        plan.deal_id == deal_params.deal_id,
        plan.old_block_num is None,
        plan.new_block_num == Some(deal_params.deal_start_block),
        plan.updated_deal_params matches Some(info) && is_fresh_deal_info(info, deal_params, obao_cid@),
        plan.updated_deal_params matches Some(info) && info.on_chain == deal_params
            && info.obao_cid@ == obao_cid@ && info.last_successful_proof_submission is None
            && info.deal_todo == DealTodo::SubmitProof,
{
    let deal_id = deal_params.deal_id;
    let start = deal_params.deal_start_block;
    let local_deal_info = LocalDealInfo {
        on_chain: deal_params,
        obao_cid,
        last_successful_proof_submission: None,
        deal_todo: DealTodo::SubmitProof,
    };
    ReschedulePlan {
        deal_id,
        old_block_num: None,
        new_block_num: Some(start),
        updated_deal_params: Some(local_deal_info),
    }
}

/// The job run for a deal when it wakes up.
#[derive(Clone, Copy, Debug, PartialEq, Eq, Structural)]
pub enum DealTask {
    /// Prove the current window.
    SubmitProof,
    /// Start the deal's finalization.
    SubmitFinalization,
}

/// The job that a deal's next step calls for. Cancelling, checking a
/// finalization and withdrawing earnings have no job.
pub fn deal_task(deal_todo: DealTodo) -> (task: DealTask)
    requires
        deal_todo == DealTodo::SubmitProof || deal_todo == DealTodo::InitiateChainlinkFinalization,
    ensures
        deal_todo == DealTodo::SubmitProof ==> task == DealTask::SubmitProof,
        deal_todo == DealTodo::InitiateChainlinkFinalization ==> task == DealTask::SubmitFinalization,
{
    match deal_todo {
        DealTodo::SubmitProof => DealTask::SubmitProof,
        _ => DealTask::SubmitFinalization,
    }
}

/// After a job for a deal woken at `wakeup_block` returns the deal's next
/// wake-up block and record: take the deal out of `wakeup_block`, schedule it
/// at the new block where there is one, and store the new record.
pub fn plan_after_task(
    deal_id: DealID,
    wakeup_block: BlockNum,
    new_block_num: Option<BlockNum>,
    new_deal_info: LocalDealInfo,
) -> (plan: ReschedulePlan)
    ensures
        plan.deal_id == deal_id,
        plan.old_block_num == Some(wakeup_block),
        plan.new_block_num == new_block_num,
        plan.updated_deal_params == Some(new_deal_info),
{
    ReschedulePlan {
        deal_id,
        old_block_num: Some(wakeup_block),
        new_block_num,
        updated_deal_params: Some(new_deal_info),
    }
}

} // verus!
