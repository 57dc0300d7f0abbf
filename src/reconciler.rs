use vstd::prelude::*;

verus! {

/// The map a list of (slot, workload) pairs stands for; a later pair
/// overrides an earlier one with the same slot.
pub open spec fn pairs_map(e: Seq<(String, String)>) -> Map<Seq<char>, Seq<char>>
    decreases e.len(),
{
    if e.len() == 0 {
        Map::empty()
    } else {
        pairs_map(e.drop_last()).insert(e.last().0@, e.last().1@)
    }
}

/// Keeps, for each slot allocated on this node, the workload that holds it
/// (empty while unknown).
pub struct DevicePluginReconciler {
    slot_pod_map: Vec<(String, String)>,
}

impl View for DevicePluginReconciler {
    type V = Map<Seq<char>, Seq<char>>;

    closed spec fn view(&self) -> Map<Seq<char>, Seq<char>> {
        pairs_map(self.slot_pod_map@)
    }
}

impl DevicePluginReconciler {
    /// A reconciler that knows of no slot.
    pub fn new() -> (r: DevicePluginReconciler)
        ensures
            r@ == Map::<Seq<char>, Seq<char>>::empty(),
    {
        DevicePluginReconciler { slot_pod_map: Vec::new() }
    }

    /// Records a newly allocated slot; its workload is not known yet. A slot
    /// recorded before is overwritten.
    pub fn add_or_update_slot(&mut self, slot: String)
        ensures
            final(self)@ == old(self)@.insert(slot@, Seq::empty()),
    {
        self.remove_slot(slot.clone());
        let ghost before = self.slot_pod_map@;
        self.slot_pod_map.push((slot, String::new()));
        assert(self.slot_pod_map@.drop_last() =~= before);
        assert(self@ =~= old(self)@.remove(slot@).insert(slot@, Seq::empty()));
    }

    /// Forgets a slot; nothing changes if it is not recorded.
    pub fn remove_slot(&mut self, slot: String)
        ensures
            final(self)@ == old(self)@.remove(slot@),
    {
        let ghost e = self.slot_pod_map@;
        let mut kept: Vec<(String, String)> = Vec::new();
        let mut i: usize = 0;
        while i < self.slot_pod_map.len()
            invariant
                0 <= i <= e.len(),
                self.slot_pod_map@ == e,
                pairs_map(kept@) == pairs_map(e.take(i as int)).remove(slot@),
            decreases e.len() - i,
        {
            let entry = &self.slot_pod_map[i];
            assert(e.take(i + 1).drop_last() =~= e.take(i as int));
            if !(entry.0 == slot) {
                let ghost before = kept@;
                kept.push((entry.0.clone(), entry.1.clone()));
                assert(kept@.drop_last() =~= before);
            }
            assert(pairs_map(kept@) =~= pairs_map(e.take(i + 1)).remove(slot@));
            i = i + 1;
        }
        assert(e.take(e.len() as int) =~= e);
        self.slot_pod_map = kept;
    }

    /// The workload recorded for `slot`, if the slot is recorded.
    pub fn slot_pod(&self, slot: &String) -> (r: Option<String>)
        ensures
            r is Some <==> self@.contains_key(slot@),
            r matches Some(p) ==> p@ == self@[slot@],
    {
        let ghost e = self.slot_pod_map@;
        let mut i: usize = self.slot_pod_map.len();
        assert(e.take(i as int) =~= e);
        while i > 0
            invariant
                0 <= i <= e.len(),
                self.slot_pod_map@ == e,
                pairs_map(e).contains_key(slot@) == pairs_map(e.take(i as int)).contains_key(slot@),
                pairs_map(e).contains_key(slot@) ==> pairs_map(e)[slot@] == pairs_map(e.take(i as int))[slot@],
            decreases i,
        {
            assert(e.take(i as int).drop_last() =~= e.take(i - 1));
            let entry = &self.slot_pod_map[i - 1];
            if entry.0 == *slot {
                return Some(entry.1.clone());
            }
            i = i - 1;
        }
        assert(e.take(0) =~= Seq::<(String, String)>::empty());
        None
    }
}

} // verus!
