//! What is done with each item of a run, and the counts at its end.

use vstd::prelude::*;

verus! {

/// How one item ended.
#[derive(Clone, Copy, Debug, PartialEq, Eq, Structural)]
pub enum ItemOutcome {
    Success,
    /// The destination was there already, or the run was a dry run.
    Skipped,
    Failed,
}

/// What is to be done with one item.
#[derive(Clone, Copy, Debug, PartialEq, Eq, Structural)]
pub enum ItemPlan {
    /// The item lacks a file name or a source URL: it has failed.
    Fail,
    /// Nothing is transferred.
    Skip,
    /// The item is transferred.
    Download,
}

/// Whether a text field is there and not empty.
pub open spec fn present(field: Option<&str>) -> bool {
    field is Some && field.unwrap()@.len() > 0
}

/// The plan for an item: without a name or a URL it fails; a destination
/// that exists is left alone where existing ones are skipped; a dry run
/// transfers nothing.
pub open spec fn plan_item_spec(
    file_name: Option<&str>,
    url: Option<&str>,
    exists: bool,
    skip_existing: bool,
    dry_run: bool,
) -> ItemPlan {
    if !present(file_name) || !present(url) {
        ItemPlan::Fail
    } else if (exists && skip_existing) || dry_run {
        ItemPlan::Skip
    } else {
        ItemPlan::Download
    }
}

/// Decides what is done with one item. An item whose destination exists
/// is never transferred again while existing destinations are skipped.
pub fn plan_item(
    file_name: Option<&str>,
    url: Option<&str>,
    exists: bool,
    skip_existing: bool,
    dry_run: bool,
) -> (plan: ItemPlan)
    ensures
        plan == plan_item_spec(file_name, url, exists, skip_existing, dry_run),
        exists && skip_existing ==> plan != ItemPlan::Download,
{
    let named = match file_name {
        Some(s) => !s.is_empty(),
        None => false,
    };
    let sourced = match url {
        Some(s) => !s.is_empty(),
        None => false,
    };
    if !named || !sourced {
        ItemPlan::Fail
    } else if (exists && skip_existing) || dry_run {
        ItemPlan::Skip
    } else {
        ItemPlan::Download
    }
}

/// The outcome of an item from its plan and, where it was transferred,
/// from whether the transfer succeeded.
pub open spec fn outcome_spec(plan: ItemPlan, transferred: bool) -> ItemOutcome {
    match plan {
        ItemPlan::Fail => ItemOutcome::Failed,
        ItemPlan::Skip => ItemOutcome::Skipped,
        ItemPlan::Download => if transferred {
            ItemOutcome::Success
        } else {
            ItemOutcome::Failed
        },
    }
}

/// The outcome of an item; `transferred` counts only for an item that was
/// to be transferred.
pub fn outcome_of(plan: ItemPlan, transferred: bool) -> (outcome: ItemOutcome)
    ensures
        outcome == outcome_spec(plan, transferred),
{
    match plan {
        ItemPlan::Fail => ItemOutcome::Failed,
        ItemPlan::Skip => ItemOutcome::Skipped,
        ItemPlan::Download => if transferred {
            ItemOutcome::Success
        } else {
            ItemOutcome::Failed
        },
    }
}

/// How many of the outcomes are `which`.
pub open spec fn count(outcomes: Seq<ItemOutcome>, which: ItemOutcome) -> nat
    decreases outcomes.len(),
{
    if outcomes.len() == 0 {
        0
    } else {
        count(outcomes.drop_last(), which) + if outcomes.last() == which {
            1nat
        } else {
            0nat
        }
    }
}

/// Every outcome is counted once.
pub proof fn lemma_counts_add_up(outcomes: Seq<ItemOutcome>)
    ensures
        count(outcomes, ItemOutcome::Success) + count(outcomes, ItemOutcome::Skipped) + count(
            outcomes,
            ItemOutcome::Failed,
        ) == outcomes.len(),
    decreases outcomes.len(),
{
    if outcomes.len() > 0 {
        lemma_counts_add_up(outcomes.drop_last());
    }
}

/// The three counts reported at the end of a run.
#[derive(Clone, Copy, Debug, PartialEq, Eq, Structural)]
pub struct Tally {
    pub success: usize,
    pub skipped: usize,
    pub failed: usize,
}

impl Tally {
    /// The number of items counted.
    pub open spec fn total(&self) -> nat {
        (self.success + self.skipped + self.failed) as nat
    }

    /// The tally of a run in which these were the outcomes.
    pub open spec fn counts(&self, outcomes: Seq<ItemOutcome>) -> bool {
        &&& self.success == count(outcomes, ItemOutcome::Success)
        &&& self.skipped == count(outcomes, ItemOutcome::Skipped)
        &&& self.failed == count(outcomes, ItemOutcome::Failed)
    }

    /// The tally before the first item.
    pub fn new() -> (t: Self)
        ensures
            t.success == 0,
            t.skipped == 0,
            t.failed == 0,
    {
        Tally { success: 0, skipped: 0, failed: 0 }
    }

    /// Counts one more outcome.
    pub fn record(&mut self, outcome: ItemOutcome)
        requires
            old(self).total() < usize::MAX,
        ensures
            final(self).success == old(self).success + if outcome == ItemOutcome::Success {
                1int
            } else {
                0int
            },
            final(self).skipped == old(self).skipped + if outcome == ItemOutcome::Skipped {
                1int
            } else {
                0int
            },
            final(self).failed == old(self).failed + if outcome == ItemOutcome::Failed {
                1int
            } else {
                0int
            },
            final(self).total() == old(self).total() + 1,
    {
        match outcome {
            ItemOutcome::Success => {
                self.success = self.success + 1;
            },
            ItemOutcome::Skipped => {
                self.skipped = self.skipped + 1;
            },
            ItemOutcome::Failed => {
                self.failed = self.failed + 1;
            },
        }
    }
}

/// The counts of a whole run from the outcomes of its items.
pub fn tally(outcomes: &Vec<ItemOutcome>) -> (t: Tally)
    ensures
        t.counts(outcomes@),
        t.total() == outcomes@.len(),
{
    let mut t = Tally::new();
    let mut i: usize = 0;
    proof {
        assert(outcomes@.subrange(0, 0) =~= Seq::<ItemOutcome>::empty());
    }
    while i < outcomes.len()
        invariant
            i <= outcomes@.len(),
            t.counts(outcomes@.subrange(0, i as int)),
            t.total() == i,
        decreases outcomes@.len() - i,
    {
        proof {
            assert(outcomes@.subrange(0, i + 1).drop_last() =~= outcomes@.subrange(0, i as int));
        }
        t.record(outcomes[i]);
        i = i + 1;
    }
    proof {
        assert(outcomes@.subrange(0, i as int) =~= outcomes@);
    }
    t
}

} // verus!
