//! Node-local reconciliation of device usage slots.
//!
//! The cluster records, per device instance, which node each usage slot is
//! credited to. Workloads that end leave their slots credited, and now and
//! then a live workload's slot is missing from the record. This crate decides
//! how those records are corrected from what the container runtime on this
//! node reports, and in which order one reconcile pass talks to the cluster
//! and to the runtime; the caller performs each step it asks for.

mod events;
mod laws;
mod pass;
mod pods;
mod reconciler;
mod slots;
mod usage;

pub use events::{calls_for_reconcile, on_node, triggers_reconcile, PodEvent};
pub use laws::{
    lemma_convergence, lemma_missing_and_clean_disjoint, lemma_second_pass_changes_nothing,
    lemma_update_keeps_slots, slot_set, unique_slots,
};
pub use pass::{pod_selector, PassAction, PassEvent, PassPhase, ReconcilePass};
pub use pods::{
    any_unready_pods, condition_unready, containers_ready_type, pod_unready, some_pod_unready,
    true_status, PodCondition, PodRecord,
};
pub use reconciler::{pairs_map, DevicePluginReconciler};
pub use slots::{annotated_slot, container_slot_usage, distinct_slots, slot_annotation_at, slot_annotation_name};
pub use usage::{
    clean_slots, corrected_owner, in_probe, is_corrected, is_update_of, missing_slots,
    modified_device_usage, needs_correction, plan_instance_update, plan_updates, probe_contains,
    slot_missing, slot_to_clean, slots_missing_this_node, slots_to_clean, strs, updates_for,
    Instance, InstanceRecord, InstanceUpdate, UsageEntry,
};
