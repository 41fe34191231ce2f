//! The tree walker of the failure predictor: per tree, the leaf that a feature vector
//! reaches.
//!
//! Thresholds, feature values and leaf values are floating-point and stay with the
//! predictor outside this crate. It hands in, for every node, which branch the feature
//! vector takes there (the outcome of `value <= threshold`, or `Missing` for a NaN or
//! absent feature), and sums the values of the leaves this module reports.

use vstd::prelude::*;
use std::collections::HashMap;

verus! {

broadcast use vstd::std_specs::hash::group_hash_axioms;

/// A tree node's structure: its id, split feature, whether it has a threshold, its children
/// by id, and whether it is a leaf (has a leaf value).
#[derive(Clone, Copy, Debug)]
pub struct NodeLinks {
    pub id: usize,
    pub split_feature: Option<usize>,
    pub has_threshold: bool,
    pub yes: Option<usize>,
    pub no: Option<usize>,
    pub missing: Option<usize>,
    pub is_leaf: bool,
}

/// Which way a feature vector goes at a split node.
#[derive(Clone, Copy, Debug, PartialEq, Eq, Structural)]
pub enum Branch {
    /// The feature is absent or NaN.
    Missing,
    /// value <= threshold
    Yes,
    /// value > threshold
    No,
}

/// A tree: its nodes in artifact order, and the position of each id (the last node with that id).
pub struct TreeIndex {
    pub nodes: Vec<NodeLinks>,
    pub index: HashMap<usize, usize>,
}

/// The walker's trees.
pub struct XgbEvaluator {
    pub trees: Vec<TreeIndex>,
}

/// Node id → position of the last node with that id.
pub open spec fn index_of(nodes: Seq<NodeLinks>) -> Map<usize, usize>
    decreases nodes.len(),
{
    if nodes.len() == 0 {
        Map::empty()
    } else {
        index_of(nodes.drop_last()).insert(nodes.last().id, (nodes.len() - 1) as usize)
    }
}

/// One step of the walk from node `cur`.
pub enum WalkStep {
    /// A leaf, at this position, was reached.
    Leaf(usize),
    /// The walk stops without a leaf (unknown node, or a split node without a feature,
    /// threshold or child to follow).
    Stop,
    /// The walk continues at this node id.
    Next(usize),
}

pub open spec fn walk_step(nodes: Seq<NodeLinks>, index: Map<usize, usize>, br: Seq<Branch>, cur: usize) -> WalkStep {
    if !index.contains_key(cur) {
        WalkStep::Stop
    } else {
        let p = index[cur];
        let n = nodes[p as int];
        if n.is_leaf {
            WalkStep::Leaf(p)
        } else if n.split_feature is None || !n.has_threshold {
            WalkStep::Stop
        } else {
            match br[p as int] {
                Branch::Missing => WalkStep::Next(match n.missing {
                    Some(m) => m,
                    None => match n.yes { Some(y) => y, None => 0 },
                }),
                Branch::Yes => match n.yes { Some(y) => WalkStep::Next(y), None => WalkStep::Stop },
                Branch::No => match n.no { Some(x) => WalkStep::Next(x), None => WalkStep::Stop },
            }
        }
    }
}

/// The walk from `cur` with at most `fuel` steps: `None` when the fuel runs out, otherwise the
/// leaf reached (or `None` inside when the walk stopped without one).
pub open spec fn walk_from(nodes: Seq<NodeLinks>, index: Map<usize, usize>, br: Seq<Branch>, cur: usize, fuel: nat)
    -> Option<Option<usize>>
    decreases fuel,
{
    if fuel == 0 {
        None
    } else {
        match walk_step(nodes, index, br, cur) {
            WalkStep::Leaf(p) => Some(Some(p)),
            WalkStep::Stop => Some(None),
            WalkStep::Next(c) => walk_from(nodes, index, br, c, (fuel - 1) as nat),
        }
    }
}

/// The walk from the root (id 0) comes to an end.
pub open spec fn walk_ends(nodes: Seq<NodeLinks>, index: Map<usize, usize>, br: Seq<Branch>) -> bool {
    exists|f: nat| #[trigger] walk_from(nodes, index, br, 0, f) is Some
}

/// Where the walk from the root ends, when it does.
pub open spec fn walk_outcome(nodes: Seq<NodeLinks>, index: Map<usize, usize>, br: Seq<Branch>) -> Option<usize> {
    walk_from(nodes, index, br, 0, choose|f: nat| #[trigger] walk_from(nodes, index, br, 0, f) is Some)->0
}

pub proof fn lemma_walk_fuel_monotone(nodes: Seq<NodeLinks>, index: Map<usize, usize>, br: Seq<Branch>, cur: usize,
    f: nat, g: nat)
    requires
        f <= g,
        walk_from(nodes, index, br, cur, f) is Some,
    ensures
        walk_from(nodes, index, br, cur, g) == walk_from(nodes, index, br, cur, f),
    decreases f,
{
    match walk_step(nodes, index, br, cur) {
        WalkStep::Next(c) => {
            lemma_walk_fuel_monotone(nodes, index, br, c, (f - 1) as nat, (g - 1) as nat);
        },
        _ => {},
    }
}

proof fn lemma_index_of(nodes: Seq<NodeLinks>)
    requires
        nodes.len() <= usize::MAX,
    ensures
        forall|id: usize| #[trigger] index_of(nodes).contains_key(id) ==> {
            let p = index_of(nodes)[id];
            &&& 0 <= p < nodes.len()
            &&& nodes[p as int].id == id
        },
    decreases nodes.len(),
{
    if nodes.len() > 0 {
        let pre = nodes.drop_last();
        lemma_index_of(pre);
        assert forall|id: usize| #[trigger] index_of(nodes).contains_key(id) implies {
            let p = index_of(nodes)[id];
            &&& 0 <= p < nodes.len()
            &&& nodes[p as int].id == id
        } by {
            if id != nodes.last().id {
                assert(index_of(pre).contains_key(id));
                let p = index_of(pre)[id];
                assert(nodes[p as int] == pre[p as int]);
            }
        }
    }
}

/// If the walk comes back to where it was `p > 0` steps earlier after `s0` steps from the root,
/// with no leaf or stop on the way, it never ends.
proof fn lemma_cycle_never_ends(nodes: Seq<NodeLinks>, index: Map<usize, usize>, br: Seq<Branch>, s0: nat, s: nat, big: nat)
    requires
        s0 < s,
        forall|k: nat| k <= s ==> #[trigger] walk_from(nodes, index, br, 0, k) is None,
        forall|g: nat| #[trigger] walk_from(nodes, index, br, 0, s0 + g) == walk_from(nodes, index, br, 0, s + g),
    ensures
        walk_from(nodes, index, br, 0, big) is None,
    decreases big,
{
    if big > s {
        let g = (big - s) as nat;
        assert(walk_from(nodes, index, br, 0, s0 + g) == walk_from(nodes, index, br, 0, s + g));
        assert(s + g == big);
        lemma_cycle_never_ends(nodes, index, br, s0, s, (s0 + g) as nat);
    } else {
        assert(walk_from(nodes, index, br, 0, big) is None);
    }
}

/// How many entries are set.
pub open spec fn trues(v: Seq<bool>) -> nat
    decreases v.len(),
{
    if v.len() == 0 { 0 } else { trues(v.drop_last()) + if v.last() { 1nat } else { 0nat } }
}

proof fn lemma_trues_set(v: Seq<bool>, p: int)
    requires
        0 <= p < v.len(),
        !v[p],
    ensures
        trues(v.update(p, true)) == trues(v) + 1,
        trues(v) < v.len(),
    decreases v.len(),
{
    if p == v.len() - 1 {
        assert(v.update(p, true).drop_last() =~= v.drop_last());
        lemma_trues_le(v.drop_last());
    } else {
        assert(v.update(p, true).drop_last() =~= v.drop_last().update(p, true));
        lemma_trues_set(v.drop_last(), p);
    }
}

proof fn lemma_trues_le(v: Seq<bool>)
    ensures
        trues(v) <= v.len(),
    decreases v.len(),
{
    if v.len() > 0 {
        lemma_trues_le(v.drop_last());
    }
}

impl TreeIndex {
    /// Indexes a tree's nodes by id; a later node replaces an earlier one with the same id.
    pub fn new(nodes: &Vec<NodeLinks>) -> (t: Self)
        ensures
            t.nodes@ == nodes@,
            t.index@ == index_of(nodes@),
    {
        let mut index: HashMap<usize, usize> = HashMap::new();
        let mut copy: Vec<NodeLinks> = Vec::new();
        let mut i: usize = 0;
        while i < nodes.len()
            invariant
                i <= nodes@.len(),
                index@ == index_of(nodes@.take(i as int)),
                copy@ == nodes@.take(i as int),
            decreases nodes@.len() - i,
        {
            proof {
                assert(nodes@.take((i + 1) as int).drop_last() =~= nodes@.take(i as int));
            }
            let node = nodes[i];
            index.insert(node.id, i);
            copy.push(node);
            assert(copy@ =~= nodes@.take((i + 1) as int));
            i = i + 1;
        }
        assert(nodes@.take(nodes@.len() as int) =~= nodes@);
        TreeIndex { nodes: copy, index }
    }

    /// Walks the tree from the root (id 0). Returns `None` when the walk would never end (it
    /// comes back to a node it has visited), otherwise the position of the leaf reached, or
    /// `None` inside when it stops without one.
    pub fn walk(&self, branches: &Vec<Branch>) -> (r: Option<Option<usize>>)
        requires
            branches@.len() == self.nodes@.len(),
            self.index@ == index_of(self.nodes@),
        ensures
            r is Some <==> walk_ends(self.nodes@, self.index@, branches@),
            r matches Some(o) ==> o == walk_outcome(self.nodes@, self.index@, branches@),
    {
        let ghost nodes = self.nodes@;
        let ghost index = self.index@;
        let ghost br = branches@;
        proof {
            assert(nodes.len() == self.nodes.len());
            lemma_index_of(nodes);
        }
        let n = self.nodes.len();
        let mut visited: Vec<bool> = Vec::new();
        let mut i: usize = 0;
        while i < n
            invariant
                i <= n,
                visited@.len() == i,
                forall|j: int| 0 <= j < i ==> !visited@[j],
                trues(visited@) == 0,
            decreases n - i,
        {
            assert(visited@.push(false).drop_last() =~= visited@);
            visited.push(false);
            i = i + 1;
        }
        let mut cur: usize = 0;
        let mut seen: usize = 0;
        let ghost mut s: nat = 0;
        let ghost mut first_seen: Map<usize, nat> = Map::empty();
        loop
            invariant
                n == nodes.len(),
                nodes == self.nodes@,
                index == self.index@,
                br == branches@,
                br.len() == n,
                index == index_of(nodes),
                forall|id: usize| #[trigger] index.contains_key(id) ==> {
                    let p = index[id];
                    &&& 0 <= p < nodes.len()
                    &&& nodes[p as int].id == id
                },
                visited@.len() == n,
                seen <= n,
                forall|p: usize| #[trigger] first_seen.contains_key(p) <==> (p < n && visited@[p as int]),
                forall|p: usize| #[trigger] first_seen.contains_key(p) ==> first_seen[p] < s,
                forall|p: usize, g: nat| #[trigger] first_seen.contains_key(p) ==>
                    #[trigger] walk_from(nodes, index, br, 0, first_seen[p] + g) == walk_from(nodes, index, br, nodes[p as int].id, g),
                forall|g: nat| #[trigger] walk_from(nodes, index, br, 0, s + g) == walk_from(nodes, index, br, cur, g),
                forall|k: nat| k <= s ==> #[trigger] walk_from(nodes, index, br, 0, k) is None,
                seen == trues(visited@),
            decreases n - seen,
        {
            let p = match self.index.get(&cur) {
                Some(p) => *p,
                None => {
                    proof {
                        assert(walk_from(nodes, index, br, 0, s + 1) == walk_from(nodes, index, br, cur, 1));
                        assert(walk_from(nodes, index, br, 0, s + 1) == Some(None::<usize>));
                        let f = (s + 1) as nat;
                        assert(walk_from(nodes, index, br, 0, f) is Some);
                        let c = choose|f: nat| #[trigger] walk_from(nodes, index, br, 0, f) is Some;
                        if c <= f { lemma_walk_fuel_monotone(nodes, index, br, 0, c, f); }
                        else { lemma_walk_fuel_monotone(nodes, index, br, 0, f, c); }
                    }
                    return Some(None);
                },
            };
            proof {
                assert(index.contains_key(cur));
                assert(index[cur] == p);
                assert(nodes[p as int].id == cur);
            }
            if visited[p] {
                proof {
                    assert(first_seen.contains_key(p));
                    let s0 = first_seen[p];
                    assert(s0 < s);
                    assert forall|g: nat| #[trigger] walk_from(nodes, index, br, 0, s0 + g) == walk_from(nodes, index, br, 0, s + g) by {
                        assert(walk_from(nodes, index, br, 0, first_seen[p] + g) == walk_from(nodes, index, br, nodes[p as int].id, g));
                        assert(walk_from(nodes, index, br, 0, s + g) == walk_from(nodes, index, br, cur, g));
                    }
                    assert forall|f: nat| !(#[trigger] walk_from(nodes, index, br, 0, f) is Some) by {
                        lemma_cycle_never_ends(nodes, index, br, s0, s, f);
                    }
                }
                return None;
            }
            proof {
                assert(!first_seen.contains_key(p));
                first_seen = first_seen.insert(p, s);
                lemma_trues_set(visited@, p as int);
            }
            visited.set(p, true);
            seen = seen + 1;
            let node = self.nodes[p];
            if node.is_leaf {
                proof {
                    assert(walk_from(nodes, index, br, 0, s + 1) == walk_from(nodes, index, br, cur, 1));
                    let f = (s + 1) as nat;
                    let c = choose|f: nat| #[trigger] walk_from(nodes, index, br, 0, f) is Some;
                    if c <= f { lemma_walk_fuel_monotone(nodes, index, br, 0, c, f); }
                    else { lemma_walk_fuel_monotone(nodes, index, br, 0, f, c); }
                }
                return Some(Some(p));
            }
            let next: Option<usize> = if node.split_feature.is_none() || !node.has_threshold {
                None
            } else {
                match branches[p] {
                    Branch::Missing => Some(match node.missing {
                        Some(m) => m,
                        None => match node.yes { Some(y) => y, None => 0 },
                    }),
                    Branch::Yes => node.yes,
                    Branch::No => node.no,
                }
            };
            match next {
                None => {
                    proof {
                        assert(walk_from(nodes, index, br, 0, s + 1) == walk_from(nodes, index, br, cur, 1));
                        let f = (s + 1) as nat;
                        let c = choose|f: nat| #[trigger] walk_from(nodes, index, br, 0, f) is Some;
                        if c <= f { lemma_walk_fuel_monotone(nodes, index, br, 0, c, f); }
                        else { lemma_walk_fuel_monotone(nodes, index, br, 0, f, c); }
                    }
                    return Some(None);
                },
                Some(c) => {
                    proof {
                        assert forall|g: nat| #[trigger] walk_from(nodes, index, br, 0, (s + 1) + g) == walk_from(nodes, index, br, c, g) by {
                            assert(walk_from(nodes, index, br, 0, s + (g + 1)) == walk_from(nodes, index, br, cur, (g + 1) as nat));
                        }
                        assert(walk_from(nodes, index, br, 0, s + 1) == walk_from(nodes, index, br, cur, 1));
                        assert forall|k: nat| k <= s + 1 implies #[trigger] walk_from(nodes, index, br, 0, k) is None by {
                            if k == s + 1 {
                                assert(walk_from(nodes, index, br, c, 0) is None);
                                assert(walk_from(nodes, index, br, 0, s + 1) == walk_from(nodes, index, br, c, 0)) by {
                                    assert(walk_from(nodes, index, br, 0, (s + 1) + 0) == walk_from(nodes, index, br, c, 0));
                                }
                            }
                        }
                        s = s + 1;
                    }
                    cur = c;
                },
            }
        }
    }
}

impl XgbEvaluator {
    /// Indexes every tree of the model.
    pub fn from_artifact(trees: &Vec<Vec<NodeLinks>>) -> (e: Self)
        ensures
            e.trees@.len() == trees@.len(),
            forall|t: int| 0 <= t < trees@.len() ==> (#[trigger] e.trees@[t]).nodes@ == trees@[t]@
                && e.trees@[t].index@ == index_of(trees@[t]@),
    {
        let mut out: Vec<TreeIndex> = Vec::new();
        let mut t: usize = 0;
        while t < trees.len()
            invariant
                t <= trees@.len(),
                out@.len() == t,
                forall|k: int| 0 <= k < t ==> (#[trigger] out@[k]).nodes@ == trees@[k]@
                    && out@[k].index@ == index_of(trees@[k]@),
            decreases trees@.len() - t,
        {
            let idx = TreeIndex::new(&trees[t]);
            out.push(idx);
            t = t + 1;
        }
        XgbEvaluator { trees: out }
    }
}

/// The walk of tree `t` under `br` ends, at `o`.
pub open spec fn reached(t: TreeIndex, br: Seq<Branch>, o: Option<usize>) -> bool {
    walk_ends(t.nodes@, t.index@, br) && o == walk_outcome(t.nodes@, t.index@, br)
}

impl XgbEvaluator {
    /// Every tree's index is the index of its nodes.
    pub open spec fn well_formed(&self) -> bool {
        forall|t: int| 0 <= t < self.trees@.len() ==> (#[trigger] self.trees@[t]).index@ == index_of(self.trees@[t].nodes@)
    }

    /// The leaf each tree's walk reaches, tree by tree (`None` inside for a walk that stops
    /// without a leaf); `None` when some tree's walk would never end.
    pub fn leaves_reached(&self, branches: &Vec<Vec<Branch>>) -> (r: Option<Vec<Option<usize>>>)
        requires
            self.well_formed(),
            branches@.len() == self.trees@.len(),
            forall|t: int| 0 <= t < branches@.len() ==> (#[trigger] branches@[t])@.len() == self.trees@[t].nodes@.len(),
        ensures
            match r {
                Some(v) => v@.len() == self.trees@.len() && forall|t: int| 0 <= t < v@.len() ==>
                    #[trigger] reached(self.trees@[t], branches@[t]@, v@[t]),
                None => exists|t: int| 0 <= t < self.trees@.len()
                    && !walk_ends(self.trees@[t].nodes@, self.trees@[t].index@, #[trigger] branches@[t]@),
            },
    {
        let mut out: Vec<Option<usize>> = Vec::new();
        let mut t: usize = 0;
        while t < self.trees.len()
            invariant
                t <= self.trees@.len(),
                self.well_formed(),
                branches@.len() == self.trees@.len(),
                forall|k: int| 0 <= k < branches@.len() ==> (#[trigger] branches@[k])@.len() == self.trees@[k].nodes@.len(),
                out@.len() == t,
                forall|k: int| 0 <= k < t ==> #[trigger] reached(self.trees@[k], branches@[k]@, out@[k]),
            decreases self.trees@.len() - t,
        {
            assert(self.trees@[t as int].index@ == index_of(self.trees@[t as int].nodes@));
            assert(branches@[t as int]@.len() == self.trees@[t as int].nodes@.len());
            let walked = self.trees[t].walk(&branches[t]);
            match walked {
                Some(o) => {
                    let ghost before = out@;
                    out.push(o);
                    assert(reached(self.trees@[t as int], branches@[t as int]@, out@[t as int]));
                    assert forall|k: int| 0 <= k < t + 1 implies #[trigger] reached(self.trees@[k], branches@[k]@, out@[k]) by {
                        if k < t {
                            assert(out@[k] == before[k]);
                        }
                    }
                },
                None => {
                    return None;
                },
            }
            t = t + 1;
        }
        Some(out)
    }
}


/// A split node with a feature and a threshold sends the walk down the branch taken: `Yes` to
/// its `yes` child, `No` to its `no` child, and `Missing` (the feature absent) to its
/// `missing` child, or to its `yes` child (0 without one) when it has no `missing` link. A
/// leaf ends the walk there; an unknown node ends it without a leaf.
pub proof fn law_walk_follows_branches(nodes: Seq<NodeLinks>, index: Map<usize, usize>, br: Seq<Branch>, cur: usize)
    ensures
        !index.contains_key(cur) ==> walk_step(nodes, index, br, cur) == WalkStep::Stop,
        index.contains_key(cur) ==> ({
            let p = index[cur];
            let n = nodes[p as int];
            &&& n.is_leaf ==> walk_step(nodes, index, br, cur) == WalkStep::Leaf(p)
            &&& !n.is_leaf && n.split_feature is Some && n.has_threshold ==> {
                &&& (br[p as int] == Branch::Missing && n.missing is Some)
                    ==> walk_step(nodes, index, br, cur) == WalkStep::Next(n.missing->0)
                &&& (br[p as int] == Branch::Missing && n.missing is None && n.yes is Some)
                    ==> walk_step(nodes, index, br, cur) == WalkStep::Next(n.yes->0)
                &&& (br[p as int] == Branch::Yes && n.yes is Some)
                    ==> walk_step(nodes, index, br, cur) == WalkStep::Next(n.yes->0)
                &&& (br[p as int] == Branch::No && n.no is Some)
                    ==> walk_step(nodes, index, br, cur) == WalkStep::Next(n.no->0)
            }
        }),
{
}

} // verus!
