//! The fully owned plan variant: every action owns its target identifier, so
//! a plan can be stored, queued, or sent across an ownership boundary.

use vstd::prelude::*;
use eva_common::OID;
use eva_common::value::Value;
use eva_common::actions::Params;
use uuid::Uuid;
use crate::ext::{uuid_generate, params_new_unit, unit_params_of};
use crate::model::{
    ActionModel, GroupModel, EntryModel, PlanModel, group_wait_micros, max_wait_micros,
    total_micros, abort_micros, clamp_u64, lemma_total_micros_nonneg, lemma_entry_micros_bounds,
};

verus! {

/// One owned dispatch unit: target identifier, optional opaque parameters,
/// and the post-dispatch wait in microseconds.
pub struct SequenceActionOwned {
    pub oid: OID,
    pub params: Option<Params>,
    pub wait: u64,
}

/// One or more owned actions dispatched together.
pub enum SequenceActionEntryOwned {
    Single(SequenceActionOwned),
    Multi(Vec<SequenceActionOwned>),
}

/// One owned plan step: a pure delay (microseconds) or an action group.
pub enum SequenceEntryOwned {
    Delay(u64),
    Actions(SequenceActionEntryOwned),
}

/// A fully owned timed action plan.
pub struct SequenceOwned {
    pub u: Uuid,
    pub seq: Vec<SequenceEntryOwned>,
    pub on_abort: Option<SequenceActionEntryOwned>,
    pub timeout: u64,
}

impl View for SequenceActionOwned {
    type V = ActionModel;

    open spec fn view(&self) -> ActionModel {
        ActionModel { target: self.oid, params: self.params, wait: self.wait }
    }
}

impl View for SequenceActionEntryOwned {
    type V = GroupModel;

    open spec fn view(&self) -> GroupModel {
        match self {
            SequenceActionEntryOwned::Single(a) => GroupModel::Single(a@),
            SequenceActionEntryOwned::Multi(acts) => GroupModel::Multi(
                acts@.map_values(|a: SequenceActionOwned| a@),
            ),
        }
    }
}

impl View for SequenceEntryOwned {
    type V = EntryModel;

    open spec fn view(&self) -> EntryModel {
        match self {
            SequenceEntryOwned::Delay(d) => EntryModel::Delay(*d),
            SequenceEntryOwned::Actions(g) => EntryModel::Acts(g@),
        }
    }
}

impl View for SequenceOwned {
    type V = PlanModel;

    open spec fn view(&self) -> PlanModel {
        PlanModel {
            id: self.u,
            entries: self.seq@.map_values(|e: SequenceEntryOwned| e@),
            abort: match self.on_abort {
                Some(g) => Some(g@),
                None => None,
            },
            timeout: self.timeout,
        }
    }
}

/// The largest wait among a slice of actions, in microseconds. Exact: the
/// result is `max_wait_micros` of the actions' models.
pub(crate) fn max_wait_of(acts: &Vec<SequenceActionOwned>) -> (r: u64)
    ensures
        r == max_wait_micros(acts@.map_values(|a: SequenceActionOwned| a@)),
{
    let ghost ms = acts@.map_values(|a: SequenceActionOwned| a@);
    let mut m: u64 = 0;
    let n: usize = acts.len();
    let mut i: usize = 0;
    while i < n
        invariant
            i <= n,
            n == acts.len(),
            ms == acts@.map_values(|a: SequenceActionOwned| a@),
            ms.len() == n,
            m == max_wait_micros(ms.take(i as int)),
        decreases n - i,
    {
        let w: u64 = acts[i].wait;
        proof {
            assert(ms.take(i as int + 1).drop_last() =~= ms.take(i as int));
            assert(ms.take(i as int + 1).last() == ms[i as int]);
            assert(ms[i as int] == acts@[i as int]@);
        }
        if w > m {
            m = w;
        }
        i = i + 1;
    }
    proof {
        assert(ms.take(n as int) =~= ms);
    }
    m
}

/// The time one action group costs. Exact: `group_wait_micros` of the
/// group's model.
pub(crate) fn group_wait_of(g: &SequenceActionEntryOwned) -> (r: u64)
    ensures
        r == group_wait_micros(g@),
{
    match g {
        SequenceActionEntryOwned::Single(a) => a.wait,
        SequenceActionEntryOwned::Multi(acts) => max_wait_of(acts),
    }
}

impl SequenceOwned {
    /// A fresh plan: empty step list, no abort plan, the given overall
    /// time budget (microseconds), and a freshly generated identifier.
    pub fn new(timeout: u64) -> (r: Self)
        ensures
            r@.entries == Seq::<EntryModel>::empty(),
            r@.abort is None,
            r@.timeout == timeout,
    {
        let r = SequenceOwned { u: uuid_generate(), seq: Vec::new(), on_abort: None, timeout };
        proof {
            assert(r@.entries =~= Seq::<EntryModel>::empty());
        }
        r
    }

    /// The plan's identifier, generated at construction and stable for the
    /// plan's life.
    pub fn uuid(&self) -> (r: Uuid)
        ensures
            r == self@.id,
    {
        self.u
    }

    /// The advisory overall time budget, in microseconds.
    pub fn timeout(&self) -> (r: u64)
        ensures
            r == self@.timeout,
    {
        self.timeout
    }

    /// Appends a pure delay step (microseconds).
    pub fn push_delay(&mut self, delay: u64)
        ensures
            final(self)@.entries == old(self)@.entries.push(EntryModel::Delay(delay)),
            final(self)@.id == old(self)@.id,
            final(self)@.abort == old(self)@.abort,
            final(self)@.timeout == old(self)@.timeout,
    {
        self.seq.push(SequenceEntryOwned::Delay(delay));
        proof {
            assert(self@.entries =~= old(self)@.entries.push(EntryModel::Delay(delay)));
        }
    }

    /// Appends a step holding one single action.
    pub fn push_action(&mut self, action: SequenceActionOwned)
        ensures
            final(self)@.entries == old(self)@.entries.push(
                EntryModel::Acts(GroupModel::Single(action@)),
            ),
            final(self)@.id == old(self)@.id,
            final(self)@.abort == old(self)@.abort,
            final(self)@.timeout == old(self)@.timeout,
    {
        let ghost m = action@;
        self.seq.push(SequenceEntryOwned::Actions(SequenceActionEntryOwned::Single(action)));
        proof {
            assert(self@.entries =~= old(self)@.entries.push(
                EntryModel::Acts(GroupModel::Single(m)),
            ));
        }
    }

    /// Appends a step holding a concurrent action group; an empty group is
    /// legal and costs zero time.
    pub fn push_actions_multi(&mut self, actions: Vec<SequenceActionOwned>)
        ensures
            final(self)@.entries == old(self)@.entries.push(
                EntryModel::Acts(GroupModel::Multi(
                    actions@.map_values(|a: SequenceActionOwned| a@),
                )),
            ),
            final(self)@.id == old(self)@.id,
            final(self)@.abort == old(self)@.abort,
            final(self)@.timeout == old(self)@.timeout,
    {
        let ghost ms = actions@.map_values(|a: SequenceActionOwned| a@);
        self.seq.push(SequenceEntryOwned::Actions(SequenceActionEntryOwned::Multi(actions)));
        proof {
            assert(self@.entries =~= old(self)@.entries.push(
                EntryModel::Acts(GroupModel::Multi(ms)),
            ));
        }
    }

    /// Replaces the abort plan with one single action; last write wins.
    pub fn set_on_abort(&mut self, action: SequenceActionOwned)
        ensures
            final(self)@.abort == Some(GroupModel::Single(action@)),
            final(self)@.id == old(self)@.id,
            final(self)@.entries == old(self)@.entries,
            final(self)@.timeout == old(self)@.timeout,
    {
        self.on_abort = Some(SequenceActionEntryOwned::Single(action));
    }

    /// Replaces the abort plan with a concurrent action group; last write
    /// wins.
    pub fn set_on_abort_multi(&mut self, actions: Vec<SequenceActionOwned>)
        ensures
            final(self)@.abort == Some(GroupModel::Multi(
                actions@.map_values(|a: SequenceActionOwned| a@),
            )),
            final(self)@.id == old(self)@.id,
            final(self)@.entries == old(self)@.entries,
            final(self)@.timeout == old(self)@.timeout,
    {
        self.on_abort = Some(SequenceActionEntryOwned::Multi(actions));
    }

    /// The expected total runtime of the plan, in microseconds: delays count
    /// in full, a single action counts its wait, a concurrent group counts
    /// its slowest member's wait. Exact up to clamping at `u64::MAX`.
    pub fn max_expected_duration(&self) -> (r: u64)
        ensures
            r == clamp_u64(total_micros(self@.entries)),
    {
        let ghost entries = self@.entries;
        let mut total: u64 = 0;
        let n: usize = self.seq.len();
        let mut i: usize = 0;
        while i < n
            invariant
                i <= n,
                n == self.seq.len(),
                entries == self@.entries,
                entries.len() == n,
                total == clamp_u64(total_micros(entries.take(i as int))),
            decreases n - i,
        {
            let step: u64 = match &self.seq[i] {
                SequenceEntryOwned::Delay(d) => *d,
                SequenceEntryOwned::Actions(g) => group_wait_of(g),
            };
            proof {
                assert(entries.take(i as int + 1).drop_last() =~= entries.take(i as int));
                assert(entries.take(i as int + 1).last() == entries[i as int]);
                assert(entries[i as int] == self.seq@[i as int]@);
                lemma_total_micros_nonneg(entries.take(i as int));
                lemma_entry_micros_bounds(entries[i as int]);
            }
            total = if total <= u64::MAX - step {
                total + step
            } else {
                u64::MAX
            };
            i = i + 1;
        }
        proof {
            assert(entries.take(n as int) =~= entries);
        }
        total
    }

    /// The abort plan's runtime, in microseconds: the single action's wait,
    /// a concurrent group's largest wait, or zero with no abort plan.
    pub fn abort_timeout(&self) -> (r: u64)
        ensures
            r == abort_micros(self@.abort),
    {
        match &self.on_abort {
            Some(g) => group_wait_of(g),
            None => 0,
        }
    }
}

impl SequenceActionOwned {
    /// A unit action: the target is to be set to the given value, then the
    /// engine waits the given time (microseconds).
    pub fn new_unit(oid: OID, value: Value, wait: u64) -> (r: Self)
        ensures
            r@.target == oid,
            r@.params == Some(unit_params_of(value)),
            r@.wait == wait,
    {
        SequenceActionOwned { oid, params: Some(params_new_unit(value)), wait }
    }
}

} // verus!
