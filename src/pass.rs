use vstd::prelude::*;
use crate::pods::{any_unready_pods, some_pod_unready, PodRecord};
use crate::usage::{plan_updates, updates_for, InstanceRecord, InstanceUpdate};

verus! {

/// Where one reconcile pass stands.
pub enum PassPhase {
    /// Waiting for the workloads scheduled to this node.
    ListingPods,
    /// Waiting for the runtime probe.
    Probing,
    /// Waiting for the instance records.
    ListingInstances,
    /// The pass is over; nothing more is asked.
    Done,
}

/// What came back from the last action; an error carries its message.
pub enum PassEvent {
    PodsListed(Result<Vec<PodRecord>, String>),
    SlotsProbed(Result<Vec<String>, String>),
    InstancesListed(Result<Vec<InstanceRecord>, String>),
}

/// What the driver has to do next.
pub enum PassAction {
    /// List the workloads that match this field selector.
    FindPods(String),
    /// Ask the container runtime which slots its live containers hold.
    ProbeSlots,
    /// List all instance records.
    GetInstances,
    /// Send these updates, one after the other; a rejected one is skipped.
    UpdateInstances(Vec<InstanceUpdate>),
    /// End the pass without touching the cluster.
    Stop,
}

/// One reconcile pass for one node, driven by the events its actions bring.
pub struct ReconcilePass {
    pub node_name: String,
    pub phase: PassPhase,
    /// The slots the probe reported, once it has.
    pub node_slot_usage: Vec<String>,
}

/// The field selector for the workloads scheduled to `node`.
pub open spec fn pod_selector(node: Seq<char>) -> Seq<char> {
    "spec.nodeName="@ + node
}

impl ReconcilePass {
    /// Starts a pass for `node_name`: it first lists the node's workloads.
    pub fn start(node_name: String) -> (r: (ReconcilePass, PassAction))
        ensures
            r.0.node_name == node_name,
            r.0.phase is ListingPods,
            r.1 matches PassAction::FindPods(sel) && sel@ == pod_selector(node_name@),
    {
        let mut selector = String::from_str("spec.nodeName=");
        selector.append(node_name.as_str());
        (ReconcilePass { node_name, phase: PassPhase::ListingPods, node_slot_usage: Vec::new() }, PassAction::FindPods(selector))
    }

    /// Takes what the last action brought and says what to do next.
    ///
    /// A failed listing or probe ends the pass. So does a workload with
    /// containers not ready, before the runtime is probed. An event the
    /// current phase does not wait for ends the pass too. Only the instance
    /// listing, after a successful probe, leads to updates.
    pub fn step(&mut self, event: PassEvent) -> (action: PassAction)
        ensures
            final(self).node_name == old(self).node_name,
            match (old(self).phase, event) {
                (PassPhase::ListingPods, PassEvent::PodsListed(Ok(pods))) => if some_pod_unready(pods@) {
                    final(self).phase is Done && action is Stop
                } else {
                    final(self).phase is Probing && action is ProbeSlots
                },
                (PassPhase::Probing, PassEvent::SlotsProbed(Ok(slots))) => {
                    &&& final(self).phase is ListingInstances
                    &&& final(self).node_slot_usage == slots
                    &&& action is GetInstances
                },
                (PassPhase::ListingInstances, PassEvent::InstancesListed(Ok(instances))) => {
                    &&& final(self).phase is Done
                    &&& action matches PassAction::UpdateInstances(us)
                        && updates_for(instances@, old(self).node_name@, old(self).node_slot_usage@, us@)
                },
                _ => final(self).phase is Done && action is Stop,
            },
    {
        let listing_pods = matches!(self.phase, PassPhase::ListingPods);
        let probing = matches!(self.phase, PassPhase::Probing);
        let listing_instances = matches!(self.phase, PassPhase::ListingInstances);
        self.phase = PassPhase::Done;
        match event {
            PassEvent::PodsListed(Ok(pods)) => {
                if listing_pods && !any_unready_pods(&pods) {
                    self.phase = PassPhase::Probing;
                    PassAction::ProbeSlots
                } else {
                    PassAction::Stop
                }
            },
            PassEvent::SlotsProbed(Ok(slots)) => {
                if probing {
                    self.node_slot_usage = slots;
                    self.phase = PassPhase::ListingInstances;
                    PassAction::GetInstances
                } else {
                    PassAction::Stop
                }
            },
            PassEvent::InstancesListed(Ok(instances)) => {
                if listing_instances {
                    PassAction::UpdateInstances(plan_updates(&instances, &self.node_name, &self.node_slot_usage))
                } else {
                    PassAction::Stop
                }
            },
            _ => PassAction::Stop,
        }
    }
}

} // verus!
