use vstd::prelude::*;
use crate::usage::{
    clean_slots, corrected_owner, in_probe, is_corrected, missing_slots, needs_correction,
    slot_missing, slot_to_clean, UsageEntry,
};

verus! {

/// No two entries of a usage record name the same slot.
pub open spec fn unique_slots(usage: Seq<UsageEntry>) -> bool {
    forall|i: int, j: int| 0 <= i < j < usage.len() ==> (#[trigger] usage[i]).0@ != (#[trigger] usage[j]).0@
}

proof fn lemma_missing_member(usage: Seq<UsageEntry>, node: Seq<char>, probe: Seq<String>, s: Seq<char>)
    requires
        missing_slots(usage, node, probe).contains(s),
    ensures
        exists|i: int| 0 <= i < usage.len() && (#[trigger] usage[i]).0@ == s && slot_missing(node, probe, usage[i]),
    decreases usage.len(),
{
    let prev = missing_slots(usage.drop_last(), node, probe);
    if prev.contains(s) {
        lemma_missing_member(usage.drop_last(), node, probe, s);
        let i = choose|i: int| 0 <= i < usage.len() - 1 && (#[trigger] usage.drop_last()[i]).0@ == s
            && slot_missing(node, probe, usage.drop_last()[i]);
        assert(usage[i] == usage.drop_last()[i]);
    } else {
        assert(usage[usage.len() - 1] == usage.last());
    }
}

proof fn lemma_clean_member(usage: Seq<UsageEntry>, node: Seq<char>, probe: Seq<String>, s: Seq<char>)
    requires
        clean_slots(usage, node, probe).contains(s),
    ensures
        exists|i: int| 0 <= i < usage.len() && (#[trigger] usage[i]).0@ == s && slot_to_clean(node, probe, usage[i]),
    decreases usage.len(),
{
    let prev = clean_slots(usage.drop_last(), node, probe);
    if prev.contains(s) {
        lemma_clean_member(usage.drop_last(), node, probe, s);
        let i = choose|i: int| 0 <= i < usage.len() - 1 && (#[trigger] usage.drop_last()[i]).0@ == s
            && slot_to_clean(node, probe, usage.drop_last()[i]);
        assert(usage[i] == usage.drop_last()[i]);
    } else {
        assert(usage[usage.len() - 1] == usage.last());
    }
}

proof fn lemma_nothing_selected(usage: Seq<UsageEntry>, node: Seq<char>, probe: Seq<String>)
    requires
        forall|i: int| 0 <= i < usage.len() ==> !slot_missing(node, probe, #[trigger] usage[i])
            && !slot_to_clean(node, probe, usage[i]),
    ensures
        !needs_correction(usage, node, probe),
    decreases usage.len(),
{
    if usage.len() > 0 {
        assert(usage.last() == usage[usage.len() - 1]);
        assert forall|i: int| 0 <= i < usage.drop_last().len() implies !slot_missing(node, probe, #[trigger] usage.drop_last()[i])
            && !slot_to_clean(node, probe, usage.drop_last()[i]) by {
            assert(usage.drop_last()[i] == usage[i]);
        };
        lemma_nothing_selected(usage.drop_last(), node, probe);
    }
}

/// No slot is both to be credited to this node and to be freed: a slot that
/// a live container holds is never cleaned.
pub proof fn lemma_missing_and_clean_disjoint(usage: Seq<UsageEntry>, node: Seq<char>, probe: Seq<String>, s: Seq<char>)
    requires
        unique_slots(usage),
    ensures
        !(missing_slots(usage, node, probe).contains(s) && clean_slots(usage, node, probe).contains(s)),
{
    if missing_slots(usage, node, probe).contains(s) && clean_slots(usage, node, probe).contains(s) {
        lemma_missing_member(usage, node, probe, s);
        lemma_clean_member(usage, node, probe, s);
        let i = choose|i: int| 0 <= i < usage.len() && (#[trigger] usage[i]).0@ == s && slot_missing(node, probe, usage[i]);
        let j = choose|j: int| 0 <= j < usage.len() && (#[trigger] usage[j]).0@ == s && slot_to_clean(node, probe, usage[j]);
        if i < j {
            assert(usage[i].0@ != usage[j].0@);
        } else if j < i {
            assert(usage[j].0@ != usage[i].0@);
        }
    }
}

/// After a correction, a slot that was credited to this node or free is
/// credited to this node exactly when a live container on it holds the slot;
/// a slot credited to another node keeps that node unless a live container
/// here holds it.
pub proof fn lemma_convergence(usage: Seq<UsageEntry>, node: Seq<char>, probe: Seq<String>, updated: Seq<UsageEntry>)
    requires
        node.len() > 0,
        is_corrected(usage, node, probe, updated),
    ensures
        forall|i: int| 0 <= i < usage.len() && (usage[i].1@ == node || usage[i].1@.len() == 0) ==>
            ((#[trigger] updated[i]).1@ == node <==> in_probe(probe, usage[i].0@)),
        forall|i: int| 0 <= i < usage.len() && usage[i].1@ != node && !in_probe(probe, usage[i].0@) ==>
            (#[trigger] updated[i]).1@ == usage[i].1@,
        forall|i: int| 0 <= i < usage.len() && in_probe(probe, usage[i].0@) ==> (#[trigger] updated[i]).1@ == node,
{
    assert forall|i: int| 0 <= i < usage.len() && (usage[i].1@ == node || usage[i].1@.len() == 0) implies
        ((#[trigger] updated[i]).1@ == node <==> in_probe(probe, usage[i].0@)) by {
        assert(updated[i].1@ == corrected_owner(node, probe, usage[i]));
        if usage[i].1@.len() == 0 && !in_probe(probe, usage[i].0@) {
            assert(usage[i].1@ != node);
        }
    };
    assert forall|i: int| 0 <= i < usage.len() && in_probe(probe, usage[i].0@) implies (#[trigger] updated[i]).1@ == node by {
        assert(updated[i].1@ == corrected_owner(node, probe, usage[i]));
    };
}

/// A second pass over a record that the first pass corrected, with the same
/// probe, finds nothing to change: the update is sent at most once.
pub proof fn lemma_second_pass_changes_nothing(usage: Seq<UsageEntry>, node: Seq<char>, probe: Seq<String>, updated: Seq<UsageEntry>)
    requires
        node.len() > 0,
        is_corrected(usage, node, probe, updated),
    ensures
        !needs_correction(updated, node, probe),
{
    assert forall|i: int| 0 <= i < updated.len() implies !slot_missing(node, probe, #[trigger] updated[i])
        && !slot_to_clean(node, probe, updated[i]) by {
        assert(updated[i].1@ == corrected_owner(node, probe, usage[i]));
        assert(updated[i].0@ == usage[i].0@);
    };
    lemma_nothing_selected(updated, node, probe);
}

/// The slots a usage record names.
pub open spec fn slot_set(usage: Seq<UsageEntry>) -> Set<Seq<char>> {
    Set::new(|s: Seq<char>| exists|i: int| 0 <= i < usage.len() && (#[trigger] usage[i]).0@ == s)
}

/// A correction names the same slots as the record it corrects.
pub proof fn lemma_update_keeps_slots(usage: Seq<UsageEntry>, node: Seq<char>, probe: Seq<String>, updated: Seq<UsageEntry>)
    requires
        is_corrected(usage, node, probe, updated),
    ensures
        slot_set(updated) == slot_set(usage),
{
    assert forall|s: Seq<char>| slot_set(updated).contains(s) implies slot_set(usage).contains(s) by {
        let i = choose|i: int| 0 <= i < updated.len() && (#[trigger] updated[i]).0@ == s;
        assert(usage[i].0@ == s);
    };
    assert forall|s: Seq<char>| slot_set(usage).contains(s) implies slot_set(updated).contains(s) by {
        let i = choose|i: int| 0 <= i < usage.len() && (#[trigger] usage[i]).0@ == s;
        assert(updated[i].0@ == s);
    };
    assert(slot_set(updated) =~= slot_set(usage));
}

} // verus!
