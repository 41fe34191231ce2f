//! Looking GPUs and identifiers up by name, first match wins.

use vstd::prelude::*;
use crate::types::{Gpu, GpuView, fleet_view, ids_of};

verus! {

/// Index of the first GPU at or after `i` whose id is `id`, or -1 when there is none.
pub open spec fn first_index_from(fleet: Seq<GpuView>, id: Seq<char>, i: int) -> int
    decreases fleet.len() - i,
{
    if i < 0 || i >= fleet.len() {
        -1
    } else if fleet[i].id == id {
        i
    } else {
        first_index_from(fleet, id, i + 1)
    }
}

/// Index of the first GPU whose id is `id`, or -1 when there is none.
pub open spec fn first_index(fleet: Seq<GpuView>, id: Seq<char>) -> int {
    first_index_from(fleet, id, 0)
}

/// `first_index` names the first position that holds `id`, or none holds it.
pub proof fn lemma_first_index_from(fleet: Seq<GpuView>, id: Seq<char>, i: int)
    requires
        0 <= i <= fleet.len(),
    ensures
        first_index_from(fleet, id, i) == -1 ==> forall|j: int| i <= j < fleet.len() ==> fleet[j].id != id,
        first_index_from(fleet, id, i) != -1 ==> {
            let r = first_index_from(fleet, id, i);
            &&& i <= r < fleet.len()
            &&& fleet[r].id == id
            &&& forall|j: int| i <= j < r ==> fleet[j].id != id
        },
    decreases fleet.len() - i,
{
    if i < fleet.len() && fleet[i].id != id {
        lemma_first_index_from(fleet, id, i + 1);
    }
}

/// Fleets whose ids agree position by position have the same first match for every id.
pub proof fn lemma_first_index_same_ids(a: Seq<GpuView>, b: Seq<GpuView>, id: Seq<char>, i: int)
    requires
        a.len() == b.len(),
        forall|j: int| 0 <= j < a.len() ==> #[trigger] a[j].id == b[j].id,
    ensures
        first_index_from(a, id, i) == first_index_from(b, id, i),
    decreases a.len() - i,
{
    if 0 <= i < a.len() && a[i].id != id {
        lemma_first_index_same_ids(a, b, id, i + 1);
    }
}

proof fn lemma_first_index_skip(fleet: Seq<GpuView>, id: Seq<char>, a: int, b: int)
    requires
        0 <= a <= b <= fleet.len(),
        forall|j: int| a <= j < b ==> fleet[j].id != id,
    ensures
        first_index_from(fleet, id, a) == first_index_from(fleet, id, b),
    decreases b - a,
{
    if a < b {
        lemma_first_index_skip(fleet, id, a + 1, b);
    }
}

/// Position of the first GPU of the fleet whose id is `id`.
pub fn find_gpu(fleet: &Vec<Gpu>, id: &String) -> (r: Option<usize>)
    ensures
        match r {
            Some(k) => k as int == first_index(fleet_view(fleet@), id@) && k < fleet@.len(),
            None => first_index(fleet_view(fleet@), id@) == -1,
        },
{
    let ghost fv = fleet_view(fleet@);
    let mut i: usize = 0;
    while i < fleet.len()
        invariant
            i <= fleet@.len(),
            fv == fleet_view(fleet@),
            forall|j: int| 0 <= j < i ==> fv[j].id != id@,
        decreases fleet@.len() - i,
    {
        if fleet[i].id == *id {
            proof {
                lemma_first_index_skip(fv, id@, 0, i as int);
            }
            return Some(i);
        }
        i = i + 1;
    }
    proof {
        lemma_first_index_skip(fv, id@, 0, i as int);
    }
    None
}

/// Whether `id` occurs in `ids`.
pub fn contains_id(ids: &Vec<String>, id: &String) -> (b: bool)
    ensures
        b == ids_of(ids@).contains(id@),
{
    let mut i: usize = 0;
    while i < ids.len()
        invariant
            i <= ids@.len(),
            forall|j: int| 0 <= j < i ==> ids@[j]@ != id@,
        decreases ids@.len() - i,
    {
        if ids[i] == *id {
            assert(ids_of(ids@)[i as int] == id@);
            return true;
        }
        i = i + 1;
    }
    proof {
        if ids_of(ids@).contains(id@) {
            let k = choose|k: int| 0 <= k < ids_of(ids@).len() && ids_of(ids@)[k] == id@;
            assert(ids@[k]@ == id@);
        }
    }
    false
}

} // verus!

verus! {

/// Index of the first key at or after `i` equal to `id`, or -1.
pub open spec fn key_index_from(keys: Seq<Seq<char>>, id: Seq<char>, i: int) -> int
    decreases keys.len() - i,
{
    if i < 0 || i >= keys.len() {
        -1
    } else if keys[i] == id {
        i
    } else {
        key_index_from(keys, id, i + 1)
    }
}

/// Index of the first key equal to `id`, or -1.
pub open spec fn key_index(keys: Seq<Seq<char>>, id: Seq<char>) -> int {
    key_index_from(keys, id, 0)
}

pub proof fn lemma_key_index_from(keys: Seq<Seq<char>>, id: Seq<char>, i: int)
    requires
        0 <= i <= keys.len(),
    ensures
        key_index_from(keys, id, i) == -1 ==> forall|j: int| i <= j < keys.len() ==> keys[j] != id,
        key_index_from(keys, id, i) != -1 ==> {
            let r = key_index_from(keys, id, i);
            &&& i <= r < keys.len()
            &&& keys[r] == id
            &&& forall|j: int| i <= j < r ==> keys[j] != id
        },
    decreases keys.len() - i,
{
    if i < keys.len() && keys[i] != id {
        lemma_key_index_from(keys, id, i + 1);
    }
}

pub proof fn lemma_key_index_skip(keys: Seq<Seq<char>>, id: Seq<char>, a: int, b: int)
    requires
        0 <= a <= b <= keys.len(),
        forall|j: int| a <= j < b ==> keys[j] != id,
    ensures
        key_index_from(keys, id, a) == key_index_from(keys, id, b),
    decreases b - a,
{
    if a < b {
        lemma_key_index_skip(keys, id, a + 1, b);
    }
}

} // verus!
