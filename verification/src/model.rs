//! The mathematical model of a timed action plan and its duration
//! accounting.
//!
//! Every executable plan type of this crate, whether it borrows or owns its
//! action targets, views to the same `PlanModel`; the duration algorithms
//! and the wire codec are specified once, over this model.

use vstd::prelude::*;
use eva_common::OID;
use eva_common::actions::Params;
use uuid::Uuid;

verus! {

/// One addressed operation: a target, an optional opaque parameter payload,
/// and the pause (in microseconds) the engine takes after dispatching it.
pub struct ActionModel {
    pub target: OID,
    pub params: Option<Params>,
    pub wait: u64,
}

/// One or more actions dispatched together. A `Multi` group runs its actions
/// concurrently, so its time cost is the slowest member's wait.
pub enum GroupModel {
    Single(ActionModel),
    Multi(Seq<ActionModel>),
}

/// One step of a plan: a pure pause, or a group of actions.
pub enum EntryModel {
    Delay(u64),
    Acts(GroupModel),
}

/// A whole plan: identifier, ordered steps, optional abort plan, and the
/// advisory overall time budget (microseconds).
pub struct PlanModel {
    pub id: Uuid,
    pub entries: Seq<EntryModel>,
    pub abort: Option<GroupModel>,
    pub timeout: u64,
}

/// The largest wait among the actions of a group, or zero for an empty one.
pub open spec fn max_wait_micros(acts: Seq<ActionModel>) -> int
    decreases acts.len(),
{
    if acts.len() == 0 {
        0
    } else {
        let rest = max_wait_micros(acts.drop_last());
        if acts.last().wait > rest {
            acts.last().wait as int
        } else {
            rest
        }
    }
}

/// The time one action group costs: its single action's wait, or the
/// largest wait of a concurrent group.
pub open spec fn group_wait_micros(g: GroupModel) -> int {
    match g {
        GroupModel::Single(a) => a.wait as int,
        GroupModel::Multi(acts) => max_wait_micros(acts),
    }
}

/// The time one step costs: a delay in full, an action group per
/// `group_wait_micros`.
pub open spec fn entry_micros(e: EntryModel) -> int {
    match e {
        EntryModel::Delay(d) => d as int,
        EntryModel::Acts(g) => group_wait_micros(g),
    }
}

/// The expected runtime of a step list: the sum of its steps' costs.
pub open spec fn total_micros(entries: Seq<EntryModel>) -> int
    decreases entries.len(),
{
    if entries.len() == 0 {
        0
    } else {
        total_micros(entries.drop_last()) + entry_micros(entries.last())
    }
}

/// The time an abort plan costs: zero where there is none.
pub open spec fn abort_micros(abort: Option<GroupModel>) -> int {
    match abort {
        Some(g) => group_wait_micros(g),
        None => 0,
    }
}

/// Clamp a mathematical total into `u64`.
pub open spec fn clamp_u64(x: int) -> u64 {
    if x > u64::MAX {
        u64::MAX
    } else if x < 0 {
        0
    } else {
        x as u64
    }
}

pub proof fn lemma_max_wait_bounds(acts: Seq<ActionModel>)
    ensures
        0 <= max_wait_micros(acts) <= u64::MAX,
    decreases acts.len(),
{
    if acts.len() > 0 {
        lemma_max_wait_bounds(acts.drop_last());
    }
}

pub proof fn lemma_group_wait_bounds(g: GroupModel)
    ensures
        0 <= group_wait_micros(g) <= u64::MAX,
{
    match g {
        GroupModel::Single(_) => {},
        GroupModel::Multi(acts) => lemma_max_wait_bounds(acts),
    }
}

pub proof fn lemma_entry_micros_bounds(e: EntryModel)
    ensures
        0 <= entry_micros(e) <= u64::MAX,
{
    match e {
        EntryModel::Delay(_) => {},
        EntryModel::Acts(g) => lemma_group_wait_bounds(g),
    }
}

pub proof fn lemma_total_micros_nonneg(entries: Seq<EntryModel>)
    ensures
        0 <= total_micros(entries),
    decreases entries.len(),
{
    if entries.len() > 0 {
        lemma_total_micros_nonneg(entries.drop_last());
        lemma_entry_micros_bounds(entries.last());
    }
}

/// Expected runtime is additive over step lists: splitting a plan anywhere
/// splits its expected duration into the two parts' sums.
pub proof fn lemma_total_micros_additive(a: Seq<EntryModel>, b: Seq<EntryModel>)
    ensures
        total_micros(a + b) == total_micros(a) + total_micros(b),
    decreases b.len(),
{
    if b.len() == 0 {
        assert(a + b =~= a);
    } else {
        lemma_total_micros_additive(a, b.drop_last());
        assert((a + b).drop_last() =~= a + b.drop_last());
        assert((a + b).last() == b.last());
    }
}

} // verus!
