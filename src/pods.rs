use vstd::prelude::*;

verus! {

/// One entry of a workload's status conditions.
pub struct PodCondition {
    pub type_: String,
    pub status: String,
}

/// A workload record as the reconciler reads it.
pub struct PodRecord {
    pub name: String,
    /// The node the workload is scheduled to, if any.
    pub node_name: Option<String>,
    pub conditions: Vec<PodCondition>,
}

/// The condition type that tells whether all containers of a workload run.
pub open spec fn containers_ready_type() -> Seq<char> {
    "ContainersReady"@
}

pub open spec fn true_status() -> Seq<char> {
    "True"@
}

/// A condition that says the workload's containers are not ready yet.
pub open spec fn condition_unready(c: PodCondition) -> bool {
    c.type_@ == containers_ready_type() && c.status@ != true_status()
}

pub open spec fn pod_unready(p: PodRecord) -> bool {
    exists|j: int| 0 <= j < p.conditions@.len() && condition_unready(#[trigger] p.conditions@[j])
}

/// Some workload in `pods` still brings up its containers.
pub open spec fn some_pod_unready(pods: Seq<PodRecord>) -> bool {
    exists|i: int| 0 <= i < pods.len() && pod_unready(#[trigger] pods[i])
}

fn condition_is_unready(c: &PodCondition) -> (r: bool)
    ensures
        r == condition_unready(*c),
{
    let ready_type = String::from_str("ContainersReady");
    let true_word = String::from_str("True");
    c.type_ == ready_type && !(c.status == true_word)
}

/// Whether any workload has a `ContainersReady` condition whose status is not
/// `True`; a reconcile pass must not look at the runtime while one has.
pub fn any_unready_pods(pods: &Vec<PodRecord>) -> (r: bool)
    ensures
        r == some_pod_unready(pods@),
{
    let mut i: usize = 0;
    while i < pods.len()
        invariant
            0 <= i <= pods@.len(),
            forall|k: int| 0 <= k < i ==> !pod_unready(#[trigger] pods@[k]),
        decreases pods@.len() - i,
    {
        let pod = &pods[i];
        let mut j: usize = 0;
        while j < pod.conditions.len()
            invariant
                0 <= j <= pod.conditions@.len(),
                i < pods@.len(),
                *pod == pods@[i as int],
                forall|k: int| 0 <= k < j ==> !condition_unready(#[trigger] pod.conditions@[k]),
            decreases pod.conditions@.len() - j,
        {
            if condition_is_unready(&pod.conditions[j]) {
                assert(condition_unready(pod.conditions@[j as int]));
                assert(pod_unready(pods@[i as int]));
                return true;
            }
            j = j + 1;
        }
        i = i + 1;
    }
    false
}

} // verus!
