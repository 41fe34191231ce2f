//! The GPU listing of the control API: GPUs filtered by status and node (ASCII case ignored),
//! those needing attention first, then by id, and at most a page of them when unfiltered.

use vstd::prelude::*;
use vstd::string::StrSliceExecFns;
use crate::types::{Gpu, GpuView, GpuStatus, fleet_view, status_name};

verus! {

/// How many GPUs an unfiltered listing shows at most.
pub const LISTING_PAGE: usize = 100;

// ---------------------------------------------------------------------------
// Text comparisons

/// The code of `c` with ASCII upper-case letters lowered.
pub open spec fn lower_code(c: char) -> int {
    let v = c as int;
    if 65 <= v <= 90 { v + 32 } else { v }
}

/// `a` and `b` are equal once ASCII letters are lowered (`str::eq_ignore_ascii_case`).
pub open spec fn same_ignoring_ascii_case(a: Seq<char>, b: Seq<char>) -> bool {
    &&& a.len() == b.len()
    &&& forall|i: int| 0 <= i < a.len() ==> #[trigger] lower_code(a[i]) == lower_code(b[i])
}

/// `a` sorts strictly before `b` (lexicographic order on code points, which is the byte
/// order of their UTF-8 encodings).
pub open spec fn text_less(a: Seq<char>, b: Seq<char>) -> bool
    decreases a.len(),
{
    if a.len() == 0 {
        b.len() > 0
    } else if b.len() == 0 {
        false
    } else if a[0] != b[0] {
        (a[0] as int) < (b[0] as int)
    } else {
        text_less(a.drop_first(), b.drop_first())
    }
}

proof fn lemma_text_less_irreflexive(a: Seq<char>)
    ensures
        !text_less(a, a),
    decreases a.len(),
{
    if a.len() > 0 {
        lemma_text_less_irreflexive(a.drop_first());
    }
}

proof fn lemma_text_less_total(a: Seq<char>, b: Seq<char>)
    ensures
        a != b ==> text_less(a, b) || text_less(b, a),
        !(text_less(a, b) && text_less(b, a)),
    decreases a.len(),
{
    if a.len() > 0 && b.len() > 0 && a[0] == b[0] {
        lemma_text_less_total(a.drop_first(), b.drop_first());
        if a != b {
            assert(a.drop_first() != b.drop_first()) by {
                if a.drop_first() == b.drop_first() {
                    assert(a =~= seq![a[0]] + a.drop_first());
                    assert(b =~= seq![b[0]] + b.drop_first());
                }
            }
        }
    } else if a.len() == 0 && b.len() == 0 {
        assert(a =~= b);
    }
}

proof fn lemma_text_less_transitive(a: Seq<char>, b: Seq<char>, c: Seq<char>)
    requires
        text_less(a, b),
        text_less(b, c),
    ensures
        text_less(a, c),
    decreases a.len(),
{
    if a.len() > 0 && b.len() > 0 && c.len() > 0 && a[0] == b[0] && b[0] == c[0] {
        lemma_text_less_transitive(a.drop_first(), b.drop_first(), c.drop_first());
    }
}

/// Compares two texts for [`text_less`].
fn text_less_exec(a: &str, b: &str) -> (r: bool)
    ensures
        r == text_less(a@, b@),
{
    let la = a.unicode_len();
    let lb = b.unicode_len();
    let mut i: usize = 0;
    assert(a@.skip(0) =~= a@ && b@.skip(0) =~= b@);
    while i < la && i < lb
        invariant
            la == a@.len(),
            lb == b@.len(),
            i <= la,
            i <= lb,
            text_less(a@, b@) == text_less(a@.skip(i as int), b@.skip(i as int)),
        decreases la - i,
    {
        let ca = a.get_char(i);
        let cb = b.get_char(i);
        let ghost sa = a@.skip(i as int);
        let ghost sb = b@.skip(i as int);
        assert(sa[0] == ca && sb[0] == cb);
        if ca != cb {
            return (ca as u32) < (cb as u32);
        }
        assert(sa.drop_first() =~= a@.skip(i + 1));
        assert(sb.drop_first() =~= b@.skip(i + 1));
        i = i + 1;
    }
    i == la && i < lb
}

/// Compares two texts for [`same_ignoring_ascii_case`].
fn same_ignoring_ascii_case_exec(a: &str, b: &str) -> (r: bool)
    ensures
        r == same_ignoring_ascii_case(a@, b@),
{
    let la = a.unicode_len();
    let lb = b.unicode_len();
    if la != lb {
        return false;
    }
    let mut i: usize = 0;
    while i < la
        invariant
            la == a@.len(),
            lb == b@.len(),
            la == lb,
            i <= la,
            forall|k: int| 0 <= k < i ==> #[trigger] lower_code(a@[k]) == lower_code(b@[k]),
        decreases la - i,
    {
        let ca = a.get_char(i) as u32;
        let cb = b.get_char(i) as u32;
        let la_code: u32 = if 65 <= ca && ca <= 90 { ca + 32 } else { ca };
        let lb_code: u32 = if 65 <= cb && cb <= 90 { cb + 32 } else { cb };
        if la_code != lb_code {
            assert(lower_code(a@[i as int]) != lower_code(b@[i as int]));
            return false;
        }
        i = i + 1;
    }
    true
}

// ---------------------------------------------------------------------------
// The listing

/// The text of an optional filter.
pub open spec fn text_of(o: Option<&str>) -> Option<Seq<char>> {
    match o {
        Some(s) => Some(s@),
        None => None,
    }
}

/// The listing's filters: a status name and a node id, each optional.
pub open spec fn listed(g: GpuView, status: Option<Seq<char>>, node: Option<Seq<char>>) -> bool {
    &&& (status matches Some(s) ==> same_ignoring_ascii_case(status_name(g.status), s))
    &&& (node matches Some(n) ==> same_ignoring_ascii_case(g.node_id, n))
}

/// A GPU needs no attention: healthy and running no chaos scenario.
pub open spec fn calm(g: GpuView) -> bool {
    g.status == GpuStatus::Healthy && g.active_chaos_scenario is None
}

/// The listing order on fleet positions: GPUs needing attention first, then by id, then by
/// position.
pub open spec fn listed_before(f: Seq<GpuView>, p: int, q: int) -> bool {
    ||| !calm(f[p]) && calm(f[q])
    ||| calm(f[p]) == calm(f[q]) && text_less(f[p].id, f[q].id)
    ||| calm(f[p]) == calm(f[q]) && f[p].id == f[q].id && p < q
}

proof fn lemma_listed_before_order(f: Seq<GpuView>, p: int, q: int, r: int)
    ensures
        !listed_before(f, p, p),
        p != q ==> listed_before(f, p, q) || listed_before(f, q, p),
        !(listed_before(f, p, q) && listed_before(f, q, p)),
        listed_before(f, p, q) && listed_before(f, q, r) ==> listed_before(f, p, r),
{
    lemma_text_less_irreflexive(f[p].id);
    lemma_text_less_total(f[p].id, f[q].id);
    lemma_text_less_total(f[q].id, f[r].id);
    lemma_text_less_total(f[p].id, f[r].id);
    if text_less(f[p].id, f[q].id) && text_less(f[q].id, f[r].id) {
        lemma_text_less_transitive(f[p].id, f[q].id, f[r].id);
    }
}

fn is_calm(g: &Gpu) -> (b: bool)
    ensures
        b == calm(g@),
{
    match g.status {
        GpuStatus::Healthy => g.active_chaos_scenario.is_none(),
        _ => false,
    }
}

fn listed_before_exec(fleet: &Vec<Gpu>, p: usize, q: usize) -> (b: bool)
    requires
        p < fleet@.len(),
        q < fleet@.len(),
    ensures
        b == listed_before(fleet_view(fleet@), p as int, q as int),
{
    let ghost f = fleet_view(fleet@);
    assert(f[p as int] == fleet@[p as int]@ && f[q as int] == fleet@[q as int]@);
    let cp = is_calm(&fleet[p]);
    let cq = is_calm(&fleet[q]);
    if cp != cq {
        return !cp;
    }
    if text_less_exec(fleet[p].id.as_str(), fleet[q].id.as_str()) {
        return true;
    }
    fleet[p].id == fleet[q].id && p < q
}

fn is_listed(g: &Gpu, status: Option<&str>, node: Option<&str>) -> (b: bool)
    ensures
        b == listed(g@, text_of(status), text_of(node)),
{
    let status_ok = match status {
        Some(s) => same_ignoring_ascii_case_exec(g.status.display_name(), s),
        None => true,
    };
    let node_ok = match node {
        Some(n) => same_ignoring_ascii_case_exec(g.node_id.as_str(), n),
        None => true,
    };
    status_ok && node_ok
}

/// The positions of the listed GPUs, in listing order. Without filters at most
/// [`LISTING_PAGE`] are shown: the first ones in that order.
pub fn list_gpus(fleet: &Vec<Gpu>, status: Option<&str>, node: Option<&str>) -> (r: Vec<usize>)
    ensures
        forall|k: int| 0 <= k < r@.len() ==> #[trigger] r@[k] < fleet@.len()
            && listed(fleet_view(fleet@)[r@[k] as int], text_of(status), text_of(node)),
        forall|i: int, j: int| 0 <= i < j < r@.len() ==> listed_before(fleet_view(fleet@), #[trigger] r@[i] as int,
            #[trigger] r@[j] as int),
        status is None && node is None ==> r@.len() <= LISTING_PAGE,
        forall|p: int| 0 <= p < fleet@.len()
            && #[trigger] listed(fleet_view(fleet@)[p], text_of(status), text_of(node))
            && !r@.contains(p as usize) ==> {
                &&& status is None && node is None
                &&& r@.len() == LISTING_PAGE
                &&& forall|k: int| 0 <= k < r@.len() ==> listed_before(fleet_view(fleet@), #[trigger] r@[k] as int, p)
            },
{
    let ghost f = fleet_view(fleet@);
    let ghost sf = text_of(status);
    let ghost nf = text_of(node);
    let mut out: Vec<usize> = Vec::new();
    let mut p: usize = 0;
    while p < fleet.len()
        invariant
            p <= fleet@.len(),
            f == fleet_view(fleet@),
            sf == text_of(status),
            nf == text_of(node),
            forall|k: int| 0 <= k < out@.len() ==> #[trigger] out@[k] < p && listed(f[out@[k] as int], sf, nf),
            forall|i: int, j: int| 0 <= i < j < out@.len() ==> listed_before(f, #[trigger] out@[i] as int,
                #[trigger] out@[j] as int),
            forall|q: int| 0 <= q < p && #[trigger] listed(f[q], sf, nf) ==> out@.contains(q as usize),
        decreases fleet@.len() - p,
    {
        assert(f[p as int] == fleet@[p as int]@);
        if is_listed(&fleet[p], status, node) {
            let mut j: usize = 0;
            while j < out.len() && !listed_before_exec(fleet, p, out[j])
                invariant
                    j <= out@.len(),
                    p < fleet@.len(),
                    f == fleet_view(fleet@),
                    forall|k: int| 0 <= k < out@.len() ==> #[trigger] out@[k] < p,
                    forall|k: int| 0 <= k < j ==> !listed_before(f, p as int, #[trigger] out@[k] as int),
                decreases out@.len() - j,
            {
                j = j + 1;
            }
            let ghost before = out@;
            proof {
                assert forall|k: int| j <= k < before.len() implies listed_before(f, p as int, #[trigger] before[k] as int) by {
                    if k > j {
                        lemma_listed_before_order(f, p as int, before[j as int] as int, before[k] as int);
                    }
                }
                assert forall|k: int| 0 <= k < j implies listed_before(f, #[trigger] before[k] as int, p as int) by {
                    lemma_listed_before_order(f, p as int, before[k] as int, p as int);
                }
            }
            out.insert(j, p);
            proof {
                assert forall|a: int, b: int| 0 <= a < b < out@.len() implies listed_before(f, #[trigger] out@[a] as int,
                    #[trigger] out@[b] as int) by {
                    if b < j {
                        assert(out@[a] == before[a] && out@[b] == before[b]);
                    } else if b == j {
                        assert(out@[a] == before[a]);
                    } else if a == j {
                        assert(out@[b] == before[b - 1]);
                    } else if a < j {
                        assert(out@[a] == before[a] && out@[b] == before[b - 1]);
                    } else {
                        assert(out@[a] == before[a - 1] && out@[b] == before[b - 1]);
                    }
                }
                assert forall|q: int| 0 <= q < p + 1 && #[trigger] listed(f[q], sf, nf) implies out@.contains(q as usize) by {
                    if q < p {
                        let k = choose|k: int| 0 <= k < before.len() && before[k] == q as usize;
                        if k < j {
                            assert(out@[k] == q as usize);
                        } else {
                            assert(out@[k + 1] == q as usize);
                        }
                    } else {
                        assert(out@[j as int] == p);
                    }
                }
                assert forall|k: int| 0 <= k < out@.len() implies #[trigger] out@[k] < p + 1 && listed(f[out@[k] as int], sf, nf) by {
                    if k < j {
                        assert(out@[k] == before[k]);
                    } else if k > j {
                        assert(out@[k] == before[k - 1]);
                    }
                }
            }
        }
        p = p + 1;
    }
    let ghost full = out@;
    if status.is_none() && node.is_none() && out.len() > LISTING_PAGE {
        out.truncate(LISTING_PAGE);
        proof {
            assert forall|q: int| 0 <= q < f.len() && #[trigger] listed(f[q], sf, nf) && !out@.contains(q as usize)
                implies forall|k: int| 0 <= k < out@.len() ==> listed_before(f, #[trigger] out@[k] as int, q) by {
                let m = choose|m: int| 0 <= m < full.len() && full[m] == q as usize;
                if m < LISTING_PAGE {
                    assert(out@[m] == q as usize);
                }
                assert forall|k: int| 0 <= k < out@.len() implies listed_before(f, #[trigger] out@[k] as int, q) by {
                    assert(out@[k] == full[k]);
                }
            }
        }
    }
    out
}


/// Only a healthy GPU without a chaos scenario is calm; so in the listing order every GPU that
/// is not healthy, or runs a chaos scenario, comes before every healthy GPU without one.
pub proof fn law_attention_first(f: Seq<GpuView>, p: int, q: int)
    ensures
        calm(f[p]) ==> f[p].status == GpuStatus::Healthy && f[p].active_chaos_scenario is None,
        (f[p].status != GpuStatus::Healthy || f[p].active_chaos_scenario is Some)
            && f[q].status == GpuStatus::Healthy && f[q].active_chaos_scenario is None
            ==> listed_before(f, p, q) && !listed_before(f, q, p),
{
}

} // verus!
