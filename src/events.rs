use vstd::prelude::*;
use crate::pods::PodRecord;

verus! {

/// A change to a workload, as the watch on workloads reports it.
pub enum PodEvent {
    Added(PodRecord),
    Modified(PodRecord),
    Deleted(PodRecord),
    /// The watch reported an error; it carries the message.
    Error(String),
}

/// The workload is scheduled to `node`.
pub open spec fn on_node(p: PodRecord, node: Seq<char>) -> bool {
    p.node_name matches Some(n) && n@ == node
}

/// A modified or deleted workload on `node` calls for a reconcile pass;
/// additions, errors and workloads elsewhere or not yet scheduled do not.
pub open spec fn calls_for_reconcile(e: PodEvent, node: Seq<char>) -> bool {
    match e {
        PodEvent::Modified(p) => on_node(p, node),
        PodEvent::Deleted(p) => on_node(p, node),
        _ => false,
    }
}

/// Whether `event` should start a reconcile pass on `node_name`.
pub fn triggers_reconcile(event: &PodEvent, node_name: &String) -> (r: bool)
    ensures
        r == calls_for_reconcile(*event, node_name@),
{
    match event {
        PodEvent::Modified(p) | PodEvent::Deleted(p) => match &p.node_name {
            Some(n) => *n == *node_name,
            None => false,
        },
        _ => false,
    }
}

} // verus!
