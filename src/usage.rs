use vstd::prelude::*;

verus! {

/// A slot and the node it is credited to; an empty node means the slot is free.
pub type UsageEntry = (String, String);

/// The body of a device instance record.
pub struct Instance {
    pub configuration_name: String,
    pub metadata: Vec<(String, String)>,
    pub rbac: String,
    pub shared: bool,
    pub nodes: Vec<String>,
    /// Which node each usage slot is credited to, one entry per slot.
    pub device_usage: Vec<UsageEntry>,
}

/// An instance record as listed from the cluster, with its identity.
pub struct InstanceRecord {
    pub name: String,
    pub namespace: String,
    pub spec: Instance,
}

/// The arguments of one instance update sent to the cluster.
pub struct InstanceUpdate {
    pub instance: Instance,
    pub name: String,
    pub namespace: String,
}

/// The slot `slot` is among those the runtime probe reported.
pub open spec fn in_probe(probe: Seq<String>, slot: Seq<char>) -> bool {
    exists|i: int| 0 <= i < probe.len() && (#[trigger] probe[i])@ == slot
}

/// A live container on this node holds the slot, yet the record credits it
/// to another node or to none.
pub open spec fn slot_missing(node: Seq<char>, probe: Seq<String>, e: UsageEntry) -> bool {
    e.1@ != node && in_probe(probe, e.0@)
}

/// The record credits the slot to this node, yet no live container holds it.
pub open spec fn slot_to_clean(node: Seq<char>, probe: Seq<String>, e: UsageEntry) -> bool {
    e.1@ == node && !in_probe(probe, e.0@)
}

/// The slots of `usage` that must be credited to `node`, in record order.
pub open spec fn missing_slots(usage: Seq<UsageEntry>, node: Seq<char>, probe: Seq<String>) -> Seq<Seq<char>>
    decreases usage.len(),
{
    if usage.len() == 0 {
        Seq::empty()
    } else {
        let prev = missing_slots(usage.drop_last(), node, probe);
        if slot_missing(node, probe, usage.last()) {
            prev.push(usage.last().0@)
        } else {
            prev
        }
    }
}

/// The slots of `usage` that must be freed, in record order.
pub open spec fn clean_slots(usage: Seq<UsageEntry>, node: Seq<char>, probe: Seq<String>) -> Seq<Seq<char>>
    decreases usage.len(),
{
    if usage.len() == 0 {
        Seq::empty()
    } else {
        let prev = clean_slots(usage.drop_last(), node, probe);
        if slot_to_clean(node, probe, usage.last()) {
            prev.push(usage.last().0@)
        } else {
            prev
        }
    }
}

/// The node a slot is credited to once corrected; a missing slot wins over
/// one to clean.
pub open spec fn corrected_owner(node: Seq<char>, probe: Seq<String>, e: UsageEntry) -> Seq<char> {
    if slot_missing(node, probe, e) {
        node
    } else if slot_to_clean(node, probe, e) {
        Seq::empty()
    } else {
        e.1@
    }
}

/// `r` is `usage` with every owner corrected, slot for slot, in the same order.
pub open spec fn is_corrected(
    usage: Seq<UsageEntry>,
    node: Seq<char>,
    probe: Seq<String>,
    r: Seq<UsageEntry>,
) -> bool {
    &&& r.len() == usage.len()
    &&& forall|i: int|
        0 <= i < usage.len() ==> (#[trigger] r[i]).0@ == usage[i].0@ && r[i].1@ == corrected_owner(
            node,
            probe,
            usage[i],
        )
}

/// Some entry of `usage` has to change.
pub open spec fn needs_correction(usage: Seq<UsageEntry>, node: Seq<char>, probe: Seq<String>) -> bool {
    missing_slots(usage, node, probe).len() > 0 || clean_slots(usage, node, probe).len() > 0
}

pub open spec fn strs(v: Seq<String>) -> Seq<Seq<char>> {
    v.map_values(|s: String| s@)
}

/// Whether the probe reported `slot`.
pub fn probe_contains(probe: &Vec<String>, slot: &String) -> (r: bool)
    ensures
        r == in_probe(probe@, slot@),
{
    let mut i: usize = 0;
    while i < probe.len()
        invariant
            0 <= i <= probe@.len(),
            forall|k: int| 0 <= k < i ==> (#[trigger] probe@[k])@ != slot@,
        decreases probe@.len() - i,
    {
        if probe[i] == *slot {
            return true;
        }
        i = i + 1;
    }
    false
}

/// The slots that live containers on `node_name` hold but the record credits
/// elsewhere or to no node.
pub fn slots_missing_this_node(
    device_usage: &Vec<UsageEntry>,
    node_name: &String,
    node_slot_usage: &Vec<String>,
) -> (r: Vec<String>)
    ensures
        strs(r@) == missing_slots(device_usage@, node_name@, node_slot_usage@),
{
    let mut r: Vec<String> = Vec::new();
    let mut i: usize = 0;
    while i < device_usage.len()
        invariant
            0 <= i <= device_usage@.len(),
            strs(r@) == missing_slots(device_usage@.take(i as int), node_name@, node_slot_usage@),
        decreases device_usage@.len() - i,
    {
        let e = &device_usage[i];
        assert(device_usage@.take(i + 1).drop_last() =~= device_usage@.take(i as int));
        if !(e.1 == *node_name) && probe_contains(node_slot_usage, &e.0) {
            r.push(e.0.clone());
        }
        assert(strs(r@) =~= missing_slots(device_usage@.take(i + 1), node_name@, node_slot_usage@));
        i = i + 1;
    }
    assert(device_usage@.take(device_usage@.len() as int) =~= device_usage@);
    r
}

/// The slots the record credits to `node_name` that no live container holds.
pub fn slots_to_clean(
    device_usage: &Vec<UsageEntry>,
    node_name: &String,
    node_slot_usage: &Vec<String>,
) -> (r: Vec<String>)
    ensures
        strs(r@) == clean_slots(device_usage@, node_name@, node_slot_usage@),
{
    let mut r: Vec<String> = Vec::new();
    let mut i: usize = 0;
    while i < device_usage.len()
        invariant
            0 <= i <= device_usage@.len(),
            strs(r@) == clean_slots(device_usage@.take(i as int), node_name@, node_slot_usage@),
        decreases device_usage@.len() - i,
    {
        let e = &device_usage[i];
        assert(device_usage@.take(i + 1).drop_last() =~= device_usage@.take(i as int));
        if e.1 == *node_name && !probe_contains(node_slot_usage, &e.0) {
            r.push(e.0.clone());
        }
        assert(strs(r@) =~= clean_slots(device_usage@.take(i + 1), node_name@, node_slot_usage@));
        i = i + 1;
    }
    assert(device_usage@.take(device_usage@.len() as int) =~= device_usage@);
    r
}


/// The record's entries with every owner corrected: a slot a live container
/// holds is credited to `node_name`, a slot credited to `node_name` that no
/// live container holds is freed, and every other entry is kept.
pub fn modified_device_usage(
    device_usage: &Vec<UsageEntry>,
    node_name: &String,
    node_slot_usage: &Vec<String>,
) -> (r: Vec<UsageEntry>)
    ensures
        is_corrected(device_usage@, node_name@, node_slot_usage@, r@),
{
    let mut r: Vec<UsageEntry> = Vec::new();
    let mut i: usize = 0;
    while i < device_usage.len()
        invariant
            0 <= i <= device_usage@.len(),
            is_corrected(device_usage@.take(i as int), node_name@, node_slot_usage@, r@),
        decreases device_usage@.len() - i,
    {
        let e = &device_usage[i];
        let used = probe_contains(node_slot_usage, &e.0);
        let owner = if !(e.1 == *node_name) && used {
            node_name.clone()
        } else if e.1 == *node_name && !used {
            String::new()
        } else {
            e.1.clone()
        };
        r.push((e.0.clone(), owner));
        assert(is_corrected(device_usage@.take(i + 1), node_name@, node_slot_usage@, r@));
        i = i + 1;
    }
    assert(device_usage@.take(device_usage@.len() as int) =~= device_usage@);
    r
}

fn copy_strings(v: &Vec<String>) -> (r: Vec<String>)
    ensures
        r@ == v@,
{
    let mut r: Vec<String> = Vec::new();
    let mut i: usize = 0;
    while i < v.len()
        invariant
            0 <= i <= v@.len(),
            r@ == v@.take(i as int),
        decreases v@.len() - i,
    {
        r.push(v[i].clone());
        assert(r@ =~= v@.take(i + 1));
        i = i + 1;
    }
    assert(v@.take(v@.len() as int) =~= v@);
    r
}

fn copy_pairs(v: &Vec<(String, String)>) -> (r: Vec<(String, String)>)
    ensures
        r@ == v@,
{
    let mut r: Vec<(String, String)> = Vec::new();
    let mut i: usize = 0;
    while i < v.len()
        invariant
            0 <= i <= v@.len(),
            r@ == v@.take(i as int),
        decreases v@.len() - i,
    {
        r.push((v[i].0.clone(), v[i].1.clone()));
        assert(r@ =~= v@.take(i + 1));
        i = i + 1;
    }
    assert(v@.take(v@.len() as int) =~= v@);
    r
}

/// `u` is the update that corrects `rec` for `node` and `probe`: same
/// identity, same configuration, metadata, access rules, sharing and nodes,
/// and the corrected usage.
pub open spec fn is_update_of(
    rec: InstanceRecord,
    node: Seq<char>,
    probe: Seq<String>,
    u: InstanceUpdate,
) -> bool {
    &&& u.name == rec.name
    &&& u.namespace == rec.namespace
    &&& u.instance.configuration_name == rec.spec.configuration_name
    &&& u.instance.metadata@ == rec.spec.metadata@
    &&& u.instance.rbac == rec.spec.rbac
    &&& u.instance.shared == rec.spec.shared
    &&& u.instance.nodes@ == rec.spec.nodes@
    &&& is_corrected(rec.spec.device_usage@, node, probe, u.instance.device_usage@)
}

/// The update one instance needs, or `None` when its record already agrees
/// with what runs on `node_name`.
pub fn plan_instance_update(
    record: &InstanceRecord,
    node_name: &String,
    node_slot_usage: &Vec<String>,
) -> (r: Option<InstanceUpdate>)
    ensures
        r.is_some() == needs_correction(record.spec.device_usage@, node_name@, node_slot_usage@),
        r matches Some(u) ==> is_update_of(*record, node_name@, node_slot_usage@, u),
{
    let usage = &record.spec.device_usage;
    let missing = slots_missing_this_node(usage, node_name, node_slot_usage);
    let to_clean = slots_to_clean(usage, node_name, node_slot_usage);
    if missing.len() == 0 && to_clean.len() == 0 {
        return None;
    }
    let instance = Instance {
        configuration_name: record.spec.configuration_name.clone(),
        metadata: copy_pairs(&record.spec.metadata),
        rbac: record.spec.rbac.clone(),
        shared: record.spec.shared,
        nodes: copy_strings(&record.spec.nodes),
        device_usage: modified_device_usage(usage, node_name, node_slot_usage),
    };
    Some(InstanceUpdate { instance, name: record.name.clone(), namespace: record.namespace.clone() })
}

/// `us` holds, in order, one correcting update for each record of `recs`
/// that needs one, and nothing else.
pub open spec fn updates_for(
    recs: Seq<InstanceRecord>,
    node: Seq<char>,
    probe: Seq<String>,
    us: Seq<InstanceUpdate>,
) -> bool
    decreases recs.len(),
{
    if recs.len() == 0 {
        us.len() == 0
    } else if needs_correction(recs.last().spec.device_usage@, node, probe) {
        &&& us.len() > 0
        &&& is_update_of(recs.last(), node, probe, us.last())
        &&& updates_for(recs.drop_last(), node, probe, us.drop_last())
    } else {
        updates_for(recs.drop_last(), node, probe, us)
    }
}

/// The updates a list of instances needs, in list order, one for each
/// instance whose record disagrees with what runs on `node_name`.
pub fn plan_updates(
    instances: &Vec<InstanceRecord>,
    node_name: &String,
    node_slot_usage: &Vec<String>,
) -> (r: Vec<InstanceUpdate>)
    ensures
        updates_for(instances@, node_name@, node_slot_usage@, r@),
{
    let mut r: Vec<InstanceUpdate> = Vec::new();
    let mut i: usize = 0;
    while i < instances.len()
        invariant
            0 <= i <= instances@.len(),
            updates_for(instances@.take(i as int), node_name@, node_slot_usage@, r@),
        decreases instances@.len() - i,
    {
        assert(instances@.take(i + 1).drop_last() =~= instances@.take(i as int));
        match plan_instance_update(&instances[i], node_name, node_slot_usage) {
            Some(u) => {
                let ghost before = r@;
                r.push(u);
                assert(r@.drop_last() =~= before);
            },
            None => {},
        }
        i = i + 1;
    }
    assert(instances@.take(instances@.len() as int) =~= instances@);
    r
}

} // verus!
