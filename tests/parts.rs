use slot_reconciler::{
    any_unready_pods, container_slot_usage, modified_device_usage, plan_instance_update,
    probe_contains, slots_missing_this_node, slots_to_clean, triggers_reconcile,
    DevicePluginReconciler, Instance, InstanceRecord, PodCondition, PodEvent, PodRecord,
};

fn s(v: &str) -> String {
    v.to_string()
}

fn usage() -> Vec<(String, String)> {
    vec![
        (s("slot-0"), s("node-b")),
        (s("slot-1"), s("node-a")),
        (s("slot-2"), s("")),
        (s("slot-3"), s("node-a")),
    ]
}

fn pod_on(node: Option<&str>) -> PodRecord {
    PodRecord { name: s("p"), node_name: node.map(s), conditions: vec![] }
}

#[test]
fn missing_slots_are_used_here_but_credited_elsewhere() {
    let probe = vec![s("slot-0"), s("slot-2"), s("slot-3"), s("slot-9")];
    assert_eq!(slots_missing_this_node(&usage(), &s("node-a"), &probe), vec![s("slot-0"), s("slot-2")]);
}

#[test]
fn slots_to_clean_are_credited_here_but_unused() {
    let probe = vec![s("slot-3")];
    assert_eq!(slots_to_clean(&usage(), &s("node-a"), &probe), vec![s("slot-1")]);
}

#[test]
fn missing_and_clean_never_share_a_slot() {
    let probe = vec![s("slot-0"), s("slot-1")];
    let missing = slots_missing_this_node(&usage(), &s("node-a"), &probe);
    let clean = slots_to_clean(&usage(), &s("node-a"), &probe);
    assert_eq!(missing, vec![s("slot-0")]);
    assert_eq!(clean, vec![s("slot-3")]);
    assert!(missing.iter().all(|m| !clean.contains(m)));
}

#[test]
fn modified_usage_corrects_each_entry() {
    let probe = vec![s("slot-0"), s("slot-1")];
    let r = modified_device_usage(&usage(), &s("node-a"), &probe);
    assert_eq!(
        r,
        vec![
            (s("slot-0"), s("node-a")),
            (s("slot-1"), s("node-a")),
            (s("slot-2"), s("")),
            (s("slot-3"), s("")),
        ]
    );
}

#[test]
fn plan_is_none_when_record_agrees() {
    let rec = InstanceRecord {
        name: s("i"),
        namespace: s("ns"),
        spec: Instance {
            configuration_name: s("c"),
            metadata: vec![],
            rbac: s(""),
            shared: false,
            nodes: vec![s("node-a")],
            device_usage: usage(),
        },
    };
    assert!(plan_instance_update(&rec, &s("node-a"), &vec![s("slot-1"), s("slot-3")]).is_none());
    let u = plan_instance_update(&rec, &s("node-a"), &vec![s("slot-1")]).unwrap();
    assert_eq!(u.instance.device_usage[3], (s("slot-3"), s("")));
    assert_eq!(u.name, "i");
    assert_eq!(u.namespace, "ns");
}

#[test]
fn probe_contains_compares_exactly() {
    let probe = vec![s("slot-1")];
    assert!(probe_contains(&probe, &s("slot-1")));
    assert!(!probe_contains(&probe, &s("slot-10")));
    assert!(!probe_contains(&vec![], &s("slot-1")));
}

#[test]
fn unready_needs_containers_ready_not_true() {
    let cond = |t: &str, st: &str| PodCondition { type_: s(t), status: s(st) };
    let mut p = pod_on(Some("node-a"));
    p.conditions = vec![cond("Ready", "False"), cond("ContainersReady", "True")];
    assert!(!any_unready_pods(&vec![p]));
    let mut q = pod_on(Some("node-a"));
    q.conditions = vec![cond("ContainersReady", "Unknown")];
    assert!(any_unready_pods(&vec![pod_on(None), q]));
    assert!(!any_unready_pods(&vec![]));
}

#[test]
fn only_modified_or_deleted_pods_here_trigger() {
    let node = s("node-a");
    assert!(triggers_reconcile(&PodEvent::Modified(pod_on(Some("node-a"))), &node));
    assert!(triggers_reconcile(&PodEvent::Deleted(pod_on(Some("node-a"))), &node));
    assert!(!triggers_reconcile(&PodEvent::Added(pod_on(Some("node-a"))), &node));
    assert!(!triggers_reconcile(&PodEvent::Modified(pod_on(Some("node-b"))), &node));
    assert!(!triggers_reconcile(&PodEvent::Deleted(pod_on(None)), &node));
    assert!(!triggers_reconcile(&PodEvent::Error(s("gone")), &node));
}

#[test]
fn slot_annotations_collapse_and_match_exactly() {
    let containers = vec![
        vec![(s("akri.agent.slot"), s("config-a-359973-3")), (s("other"), s("x"))],
        vec![(s("akri.agent.slot"), s("config-a-359973-3"))],
        vec![(s("akri.agent.slot.extra"), s("config-a-359973-4"))],
        vec![],
        vec![(s("akri.agent.slot"), s("config-a-359973-5"))],
    ];
    assert_eq!(container_slot_usage(&containers), vec![s("config-a-359973-3"), s("config-a-359973-5")]);
    assert!(container_slot_usage(&vec![]).is_empty());
}

#[test]
fn slot_map_add_overwrites_and_remove_forgets() {
    let mut r = DevicePluginReconciler::new();
    assert_eq!(r.slot_pod(&s("slot-1")), None);
    r.add_or_update_slot(s("slot-1"));
    r.add_or_update_slot(s("slot-2"));
    r.add_or_update_slot(s("slot-1"));
    assert_eq!(r.slot_pod(&s("slot-1")), Some(s("")));
    r.remove_slot(s("slot-1"));
    assert_eq!(r.slot_pod(&s("slot-1")), None);
    assert_eq!(r.slot_pod(&s("slot-2")), Some(s("")));
    r.remove_slot(s("slot-9"));
    assert_eq!(r.slot_pod(&s("slot-2")), Some(s("")));
}
