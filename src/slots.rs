use vstd::prelude::*;
use crate::usage::{in_probe, probe_contains};

verus! {

/// The annotation key under which a container carries the slot it was
/// allocated.
pub open spec fn slot_annotation_name() -> Seq<char> {
    "akri.agent.slot"@
}

/// Annotation `a` of container `c` is the slot annotation, with value `v`.
pub open spec fn slot_annotation_at(containers: Seq<Vec<(String, String)>>, c: int, a: int, v: Seq<char>) -> bool {
    &&& 0 <= c < containers.len()
    &&& 0 <= a < containers[c]@.len()
    &&& containers[c]@[a].0@ == slot_annotation_name()
    &&& containers[c]@[a].1@ == v
}

/// Some container carries `v` as its slot.
pub open spec fn annotated_slot(containers: Seq<Vec<(String, String)>>, v: Seq<char>) -> bool {
    exists|c: int, a: int| slot_annotation_at(containers, c, a, v)
}

/// No slot occurs twice in `r`.
pub open spec fn distinct_slots(r: Seq<String>) -> bool {
    forall|k1: int, k2: int| 0 <= k1 < k2 < r.len() ==> (#[trigger] r[k1])@ != (#[trigger] r[k2])@
}

/// The slots that the given containers hold, read from their annotations
/// (one list of key/value pairs per container). Keys are compared exactly;
/// a slot held twice is listed once.
pub fn container_slot_usage(containers: &Vec<Vec<(String, String)>>) -> (r: Vec<String>)
    ensures
        distinct_slots(r@),
        forall|v: Seq<char>| in_probe(r@, v) <==> annotated_slot(containers@, v),
{
    let key = String::from_str("akri.agent.slot");
    let mut r: Vec<String> = Vec::new();
    let mut i: usize = 0;
    let ghost mut wit: Seq<(int, int)> = Seq::empty();
    while i < containers.len()
        invariant
            0 <= i <= containers@.len(),
            key@ == slot_annotation_name(),
            distinct_slots(r@),
            wit.len() == r@.len(),
            // each listed slot was read from an annotation already visited
            forall|k: int| #![trigger r@[k]] #![trigger wit[k]] 0 <= k < r@.len() ==> wit[k].0 < i
                && slot_annotation_at(containers@, wit[k].0, wit[k].1, r@[k]@),
            forall|c: int, a: int, v: Seq<char>| c < i && #[trigger] slot_annotation_at(containers@, c, a, v) ==> in_probe(r@, v),
        decreases containers@.len() - i,
    {
        let annotations = &containers[i];
        let mut j: usize = 0;
        while j < annotations.len()
            invariant
                0 <= i < containers@.len(),
                0 <= j <= annotations@.len(),
                *annotations == containers@[i as int],
                key@ == slot_annotation_name(),
                distinct_slots(r@),
                wit.len() == r@.len(),
                forall|k: int| #![trigger r@[k]] #![trigger wit[k]] 0 <= k < r@.len() ==> wit[k].0 <= i
                    && slot_annotation_at(containers@, wit[k].0, wit[k].1, r@[k]@),
                forall|c: int, a: int, v: Seq<char>| (c < i || (c == i && a < j)) && #[trigger] slot_annotation_at(containers@, c, a, v) ==> in_probe(r@, v),
            decreases annotations@.len() - j,
        {
            let entry = &annotations[j];
            assert(slot_annotation_at(containers@, i as int, j as int, entry.1@) == (entry.0@ == slot_annotation_name()));
            if entry.0 == key && !probe_contains(&r, &entry.1) {
                let ghost before = r@;
                r.push(entry.1.clone());
                assert(r@[before.len() as int] == entry.1);
                proof {
                    wit = wit.push((i as int, j as int));
                }
                assert forall|k: int| #![trigger r@[k]] 0 <= k < r@.len() implies wit[k].0 <= i
                    && slot_annotation_at(containers@, wit[k].0, wit[k].1, r@[k]@) by {
                    if k < before.len() {
                        assert(r@[k] == before[k]);
                    }
                };
                assert forall|c: int, a: int, v: Seq<char>| (c < i || (c == i && a < j + 1)) && #[trigger] slot_annotation_at(containers@, c, a, v) implies in_probe(r@, v) by {
                    if c == i && a == j {
                        assert(r@[before.len() as int]@ == v);
                    } else {
                        let k = choose|k: int| 0 <= k < before.len() && (#[trigger] before[k])@ == v;
                        assert(r@[k] == before[k]);
                    }
                };
            }
            j = j + 1;
        }
        i = i + 1;
    }
    proof {
        assert forall|v: Seq<char>| annotated_slot(containers@, v) implies in_probe(r@, v) by {
            let (c, a) = choose|c: int, a: int| slot_annotation_at(containers@, c, a, v);
        };
        assert forall|v: Seq<char>| in_probe(r@, v) implies annotated_slot(containers@, v) by {
            let k = choose|k: int| 0 <= k < r@.len() && (#[trigger] r@[k])@ == v;
            assert(slot_annotation_at(containers@, wit[k].0, wit[k].1, r@[k]@));
        };
    }
    r
}

} // verus!
