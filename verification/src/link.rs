//! Bringing the `current` entry in step with a selection: which operations
//! to perform, in what order, and what they leave behind.

use vstd::prelude::*;
use crate::active::{active_of, is_bare_name, lemma_base_name_of_bare, CurrentEntry, EntryView};
use crate::error::SwitchError;
use crate::select::{is_system, system_name};

verus! {

broadcast use vstd::string::group_string_axioms;

/// One operation on the installation directory. Only the `current` entry is
/// ever touched.
#[derive(Clone, Copy, Debug, PartialEq, Eq, Structural)]
pub enum LinkOp {
    /// Make sure of the installation directory, in which the link lives.
    Enter,
    /// Remove the `current` entry.
    Remove,
    /// Create `current` as a link whose target is the chosen name, as it is.
    Create,
}

/// The operations that bring the entry in step with a selection: enter the
/// directory; remove the entry if there is one, whatever it is; create the
/// link unless the system's own version was chosen.
pub open spec fn plan_ops(present: bool, system: bool) -> Seq<LinkOp> {
    seq![LinkOp::Enter] + if present {
        seq![LinkOp::Remove]
    } else {
        Seq::<LinkOp>::empty()
    } + if system {
        Seq::<LinkOp>::empty()
    } else {
        seq![LinkOp::Create]
    }
}

/// The error that ends the run when an operation fails.
pub open spec fn failure(op: LinkOp) -> SwitchError {
    match op {
        LinkOp::Enter => SwitchError::DirectoryNotFound,
        LinkOp::Remove => SwitchError::LinkRemovalFailed,
        LinkOp::Create => SwitchError::LinkCreationFailed,
    }
}

/// What an operation that succeeded leaves under the name `current`.
pub open spec fn entry_after_op(entry: EntryView, op: LinkOp, chosen: Seq<char>) -> EntryView {
    match op {
        LinkOp::Enter => entry,
        LinkOp::Remove => EntryView::Absent,
        LinkOp::Create => EntryView::Link(chosen),
    }
}

/// What a run of operations that all succeeded leaves.
pub open spec fn entry_after(entry: EntryView, ops: Seq<LinkOp>, chosen: Seq<char>) -> EntryView
    decreases ops.len(),
{
    if ops.len() == 0 {
        entry
    } else {
        entry_after_op(entry_after(entry, ops.drop_last(), chosen), ops.last(), chosen)
    }
}

/// What applying a selection leaves, when every operation succeeds.
pub open spec fn applied(entry: EntryView, chosen: Seq<char>) -> EntryView {
    entry_after(entry, plan_ops(!(entry is Absent), chosen == system_name()), chosen)
}

/// What the entry is to be for a selection: nothing for the system's own
/// version, else a link to the chosen name.
pub open spec fn entry_for(chosen: Seq<char>) -> EntryView {
    if chosen == system_name() {
        EntryView::Absent
    } else {
        EntryView::Link(chosen)
    }
}

/// A link is only ever created where nothing bears the name: a plan that
/// creates one has removed whatever was there.
pub proof fn lemma_plan_clears_before_create(present: bool, system: bool)
    ensures
        plan_ops(present, system).len() >= 1,
        plan_ops(present, system)[0] == LinkOp::Enter,
        plan_ops(present, system).contains(LinkOp::Remove) <==> present,
        plan_ops(present, system).contains(LinkOp::Create) <==> !system,
        forall|i: int, j: int|
            0 <= i < plan_ops(present, system).len() && 0 <= j < plan_ops(present, system).len()
                && plan_ops(present, system)[i] == LinkOp::Remove && plan_ops(present, system)[j]
                == LinkOp::Create ==> i < j,
{
    let ops = plan_ops(present, system);
    if present {
        assert(ops[1] == LinkOp::Remove);
    }
    if !system {
        assert(ops[ops.len() - 1] == LinkOp::Create);
    }
}

/// Applying a selection leaves what the selection asks for, whatever was
/// there before: no earlier link outlives it.
pub proof fn lemma_applied_is_entry_for(entry: EntryView, chosen: Seq<char>)
    ensures
        applied(entry, chosen) == entry_for(chosen),
{
    let ops = plan_ops(!(entry is Absent), chosen == system_name());
    let one = ops.drop_last();
    assert(ops.len() >= 1);
    if one.len() >= 1 {
        let two = one.drop_last();
        if two.len() >= 1 {
            let three = two.drop_last();
            assert(three.len() == 0);
            assert(entry_after(entry, three, chosen) == entry);
        }
        assert(entry_after(entry, two, chosen) == if two.len() == 0 {
            entry
        } else {
            entry_after_op(entry, two.last(), chosen)
        });
    }
    assert(entry_after(entry, one, chosen) == if one.len() == 0 {
        entry
    } else {
        entry_after_op(entry_after(entry, one.drop_last(), chosen), one.last(), chosen)
    });
}

/// After a version was applied, reading the active version gives that
/// version; after the system's own version was applied, it gives none.
pub proof fn lemma_apply_then_read(entry: EntryView, chosen: Seq<char>)
    requires
        chosen == system_name() || is_bare_name(chosen),
    ensures
        chosen == system_name() ==> active_of(applied(entry, chosen)) == None::<Seq<char>>,
        chosen != system_name() ==> active_of(applied(entry, chosen)) == Some(chosen),
{
    lemma_applied_is_entry_for(entry, chosen);
    if chosen != system_name() {
        lemma_base_name_of_bare(chosen);
    }
}

/// Applying the same selection a second time changes nothing.
pub proof fn lemma_apply_idempotent(entry: EntryView, chosen: Seq<char>)
    ensures
        applied(applied(entry, chosen), chosen) == applied(entry, chosen),
{
    lemma_applied_is_entry_for(entry, chosen);
    lemma_applied_is_entry_for(applied(entry, chosen), chosen);
}

/// The error that ends the run when `op` fails.
pub fn failure_of(op: LinkOp) -> (e: SwitchError)
    ensures
        e == failure(op),
{
    match op {
        LinkOp::Enter => SwitchError::DirectoryNotFound,
        LinkOp::Remove => SwitchError::LinkRemovalFailed,
        LinkOp::Create => SwitchError::LinkCreationFailed,
    }
}

/// Plans the operations for a selection; `present` says whether anything
/// bears the name `current` now, a broken link included.
pub fn plan_selection(present: bool, chosen: &str) -> (plan: Vec<LinkOp>)
    ensures
        plan@ == plan_ops(present, chosen@ == system_name()),
{
    let mut plan: Vec<LinkOp> = Vec::new();
    plan.push(LinkOp::Enter);
    if present {
        plan.push(LinkOp::Remove);
    }
    if !is_system(chosen) {
        plan.push(LinkOp::Create);
    }
    assert(plan@ =~= plan_ops(present, chosen@ == system_name()));
    plan
}

impl CurrentEntry {
    /// Whether anything bears the name `current`.
    pub fn is_present(&self) -> (r: bool)
        ensures
            r == !(self@ is Absent),
    {
        match self {
            CurrentEntry::Absent => false,
            _ => true,
        }
    }

    /// The entry that `op` leaves when it succeeds.
    pub fn after_op(self, op: LinkOp, chosen: &str) -> (r: CurrentEntry)
        ensures
            r@ == entry_after_op(self@, op, chosen@),
    {
        match op {
            LinkOp::Enter => self,
            LinkOp::Remove => CurrentEntry::Absent,
            LinkOp::Create => CurrentEntry::Link(String::from_str(chosen)),
        }
    }

    /// The entry that applying a selection leaves when every operation of
    /// its plan succeeds.
    pub fn after_selection(self, chosen: &str) -> (r: CurrentEntry)
        ensures
            r@ == applied(self@, chosen@),
            r@ == entry_for(chosen@),
    {
        let plan = plan_selection(self.is_present(), chosen);
        let ghost start = self@;
        let mut entry = self;
        let mut i: usize = 0;
        assert(plan@.take(0) =~= Seq::<LinkOp>::empty());
        while i < plan.len()
            invariant
                i <= plan@.len(),
                entry@ == entry_after(start, plan@.take(i as int), chosen@),
            decreases plan@.len() - i,
        {
            assert(plan@.take(i + 1).drop_last() =~= plan@.take(i as int));
            entry = entry.after_op(plan[i], chosen);
            i += 1;
        }
        assert(plan@.take(plan@.len() as int) =~= plan@);
        proof {
            lemma_applied_is_entry_for(start, chosen@);
        }
        entry
    }
}

} // verus!
