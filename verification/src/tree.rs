//! The tree in which the dashboard offers its stations, and the list that
//! is made of it.
//!
//! Directories hold further nodes and leaves are stations. The stations are
//! worked on in the order of their names, so that every run meets them in
//! the same order, however the tree was laid out.

use crate::model::Station;
use crate::text::lemma_text_le_antisymmetric;
use crate::text::lemma_text_le_reflexive;
use crate::text::lemma_text_le_total;
use crate::text::lemma_text_le_transitive;
use crate::text::str_le;
use crate::text::text_le;
use vstd::prelude::*;
use vstd::seq_lib::group_to_multiset_ensures;

verus! {

/// A node of the selection tree.
#[derive(Debug)]
pub enum TreeNode {
    /// A directory and what is in it, in the order shown.
    Directory(Vec<TreeNode>),
    /// A station that can be selected.
    Leaf(Station),
}

/// The stations below a node, from first to last as the tree shows them.
pub open spec fn leaves(node: TreeNode) -> Seq<Station>
    decreases node,
{
    match node {
        TreeNode::Leaf(station) => seq![station],
        TreeNode::Directory(children) => leaves_of(children@, children@.len()),
    }
}

/// The stations below the first `n` of `children`.
pub open spec fn leaves_of(children: Seq<TreeNode>, n: nat) -> Seq<Station>
    decreases children, n,
{
    if n == 0 || n > children.len() {
        Seq::empty()
    } else {
        leaves_of(children, (n - 1) as nat) + leaves(children[n - 1])
    }
}

/// The names never go down from one station to the next.
pub open spec fn sorted_by_name(stations: Seq<Station>) -> bool {
    forall|i: int, j: int|
        0 <= i <= j < stations.len() ==> text_le(
            #[trigger] stations[i].name@,
            #[trigger] stations[j].name@,
        )
}

/// How many stations at the head of `list` have a name that does not come
/// after that of `station`.
pub open spec fn rank(list: Seq<Station>, station: Station) -> nat
    decreases list.len(),
{
    if list.len() == 0 || !text_le(list[0].name@, station.name@) {
        0
    } else {
        1 + rank(list.drop_first(), station)
    }
}

/// `list` with `station` put in behind the stations counted by `rank`.
pub open spec fn placed(list: Seq<Station>, station: Station) -> Seq<Station> {
    list.insert(rank(list, station) as int, station)
}

/// The stations in the order of their names. Stations of one name keep the
/// order they came in.
pub open spec fn name_sorted(stations: Seq<Station>) -> Seq<Station>
    decreases stations.len(),
{
    if stations.len() == 0 {
        Seq::empty()
    } else {
        placed(name_sorted(stations.drop_last()), stations.last())
    }
}

/// The names of stations, in the same order.
pub open spec fn names(stations: Seq<Station>) -> Seq<Seq<char>> {
    stations.map_values(|s: Station| s.name@)
}

proof fn lemma_rank_is_first_later(list: Seq<Station>, station: Station, at: int)
    requires
        0 <= at <= list.len(),
        forall|k: int| 0 <= k < at ==> text_le(#[trigger] list[k].name@, station.name@),
        at == list.len() || !text_le(list[at].name@, station.name@),
    ensures
        rank(list, station) == at,
    decreases at,
{
    if at > 0 {
        assert(text_le(list[0].name@, station.name@));
        let rest = list.drop_first();
        assert forall|k: int| 0 <= k < at - 1 implies text_le(
            #[trigger] rest[k].name@,
            station.name@,
        ) by {
            assert(rest[k] == list[k + 1]);
        }
        lemma_rank_is_first_later(rest, station, at - 1);
    }
}

proof fn lemma_rank_bounds(list: Seq<Station>, station: Station)
    ensures
        rank(list, station) <= list.len(),
        forall|k: int|
            0 <= k < rank(list, station) ==> text_le(#[trigger] list[k].name@, station.name@),
        rank(list, station) < list.len() ==> !text_le(
            list[rank(list, station) as int].name@,
            station.name@,
        ),
    decreases list.len(),
{
    if list.len() > 0 && text_le(list[0].name@, station.name@) {
        let rest = list.drop_first();
        lemma_rank_bounds(rest, station);
        assert forall|k: int| 0 <= k < rank(list, station) implies text_le(
            #[trigger] list[k].name@,
            station.name@,
        ) by {
            if k > 0 {
                assert(list[k] == rest[k - 1]);
            }
        }
        if rank(list, station) < list.len() {
            assert(list[rank(list, station) as int] == rest[rank(rest, station) as int]);
        }
    }
}

/// Putting a station into a sorted list in its place leaves the list
/// sorted and adds that station and nothing else.
pub proof fn lemma_placed(list: Seq<Station>, station: Station)
    requires
        sorted_by_name(list),
    ensures
        sorted_by_name(placed(list, station)),
        placed(list, station).to_multiset() == list.to_multiset().insert(station),
        placed(list, station).len() == list.len() + 1,
{
    broadcast use group_to_multiset_ensures;

    lemma_rank_bounds(list, station);
    let at = rank(list, station) as int;
    let after = placed(list, station);
    assert(after.remove(at) =~= list);
    assert(after[at] == station);
    assert(after.contains(station));
    assert(after.to_multiset() =~= list.to_multiset().insert(station));
    assert forall|i: int, j: int| 0 <= i <= j < after.len() implies text_le(
        #[trigger] after[i].name@,
        #[trigger] after[j].name@,
    ) by {
        if j < at {
            assert(after[i] == list[i] && after[j] == list[j]);
        } else if j == at {
            if i < at {
                assert(after[i] == list[i]);
            } else {
                lemma_text_le_reflexive(station.name@);
            }
        } else {
            assert(after[j] == list[j - 1]);
            if i < at {
                assert(after[i] == list[i]);
            } else if i == at {
                lemma_text_le_total(list[at].name@, station.name@);
                assert(text_le(list[at].name@, list[j - 1].name@));
                lemma_text_le_transitive(station.name@, list[at].name@, list[j - 1].name@);
            } else {
                assert(after[i] == list[i - 1]);
            }
        }
    }
}

/// The sorted list holds the stations it was made of, each as often as
/// before, and its names never go down.
pub proof fn lemma_name_sorted(stations: Seq<Station>)
    ensures
        sorted_by_name(name_sorted(stations)),
        name_sorted(stations).to_multiset() == stations.to_multiset(),
        name_sorted(stations).len() == stations.len(),
    decreases stations.len(),
{
    broadcast use group_to_multiset_ensures;

    if stations.len() > 0 {
        lemma_name_sorted(stations.drop_last());
        lemma_placed(name_sorted(stations.drop_last()), stations.last());
        assert(stations =~= stations.drop_last().push(stations.last()));
    }
}

proof fn lemma_sorted_without(list: Seq<Station>, at: int)
    requires
        sorted_by_name(list),
        0 <= at < list.len(),
    ensures
        sorted_by_name(list.remove(at)),
{
    let rest = list.remove(at);
    assert forall|i: int, j: int| 0 <= i <= j < rest.len() implies text_le(
        #[trigger] rest[i].name@,
        #[trigger] rest[j].name@,
    ) by {
        let p = if i < at {
            i
        } else {
            i + 1
        };
        let q = if j < at {
            j
        } else {
            j + 1
        };
        assert(rest[i] == list[p] && rest[j] == list[q]);
    }
}

/// Two sorted lists of the same stations show the same names in the same
/// order.
pub proof fn lemma_sorted_names_agree(a: Seq<Station>, b: Seq<Station>)
    requires
        sorted_by_name(a),
        sorted_by_name(b),
        a.to_multiset() == b.to_multiset(),
    ensures
        names(a) == names(b),
    decreases a.len(),
{
    broadcast use group_to_multiset_ensures;

    a.to_multiset_ensures();
    b.to_multiset_ensures();
    assert(a.len() == b.len());
    if a.len() == 0 {
        assert(names(a) =~= names(b));
    } else {
        let x = a[0];
        let y = b[0];
        assert(a.contains(x));
        assert(b.to_multiset().count(x) > 0);
        assert(b.contains(x));
        let k = choose|k: int| 0 <= k < b.len() && b[k] == x;
        assert(b.contains(y));
        assert(a.to_multiset().count(y) > 0);
        assert(a.contains(y));
        let m = choose|m: int| 0 <= m < a.len() && a[m] == y;
        assert(text_le(b[0].name@, b[k].name@));
        assert(text_le(a[0].name@, a[m].name@));
        lemma_text_le_antisymmetric(x.name@, y.name@);
        let a1 = a.remove(0);
        let b1 = b.remove(k);
        lemma_sorted_without(a, 0);
        lemma_sorted_without(b, k);
        lemma_sorted_names_agree(a1, b1);
        assert forall|j: int| 0 <= j < a.len() implies names(a)[j] == names(b)[j] by {
            if j > 0 {
                assert(a[j] == a1[j - 1]);
                assert(names(a1)[j - 1] == names(b1)[j - 1]);
                if j - 1 < k {
                    assert(b1[j - 1] == b[j - 1]);
                    assert(text_le(b[0].name@, b[j - 1].name@));
                    assert(text_le(b[j - 1].name@, b[k].name@));
                    lemma_text_le_antisymmetric(b[j - 1].name@, x.name@);
                    assert(text_le(b[0].name@, b[j].name@));
                    assert(text_le(b[j].name@, b[k].name@));
                    lemma_text_le_antisymmetric(b[j].name@, x.name@);
                } else {
                    assert(b1[j - 1] == b[j]);
                }
            }
        }
        assert(names(a) =~= names(b));
    }
}

/// Trees with the same leaves give the same names in the same order,
/// however deep the leaves stand and in whatever order their directories
/// show them.
pub proof fn lemma_flatten_ignores_layout(x: TreeNode, y: TreeNode)
    requires
        leaves(x).to_multiset() == leaves(y).to_multiset(),
    ensures
        names(name_sorted(leaves(x))) == names(name_sorted(leaves(y))),
{
    lemma_name_sorted(leaves(x));
    lemma_name_sorted(leaves(y));
    lemma_sorted_names_agree(name_sorted(leaves(x)), name_sorted(leaves(y)));
}

proof fn lemma_child_is_smaller(node: TreeNode, i: int)
    requires
        node is Directory,
        0 <= i < node->Directory_0.len(),
    ensures
        decreases_to!(node => node->Directory_0[i]),
{
    match node {
        TreeNode::Directory(children) => {
            assert(decreases_to!(node => children));
            assert(decreases_to!(children => children[i]));
        },
        TreeNode::Leaf(_) => {},
    }
}

fn collect_leaves(node: &TreeNode, out: &mut Vec<Station>)
    ensures
        final(out)@ == old(out)@ + leaves(*node),
    decreases node,
{
    match node {
        TreeNode::Leaf(station) => {
            out.push(station.clone());
            proof {
                assert(out@ =~= old(out)@ + leaves(*node));
            }
        },
        TreeNode::Directory(children) => {
            let mut i: usize = 0;
            proof {
                assert(out@ =~= old(out)@ + leaves_of(children@, 0));
            }
            while i < children.len()
                invariant
                    i <= children.len(),
                    *node == TreeNode::Directory(*children),
                    out@ == old(out)@ + leaves_of(children@, i as nat),
                decreases children.len() - i,
            {
                proof {
                    lemma_child_is_smaller(*node, i as int);
                }
                collect_leaves(&children[i], out);
                proof {
                    assert(out@ =~= old(out)@ + leaves_of(children@, (i + 1) as nat));
                }
                i += 1;
            }
        },
    }
}

fn insert_by_name(out: &mut Vec<Station>, station: Station)
    ensures
        final(out)@ == placed(old(out)@, station),
{
    let mut at: usize = 0;
    while at < out.len() && str_le(out[at].name.as_str(), station.name.as_str())
        invariant
            at <= out.len(),
            out@ == old(out)@,
            forall|k: int| 0 <= k < at ==> text_le(#[trigger] out@[k].name@, station.name@),
        decreases out.len() - at,
    {
        at += 1;
    }
    proof {
        lemma_rank_is_first_later(out@, station, at as int);
    }
    out.insert(at, station);
}

/// Sorts stations by name. Stations of one name keep their order.
///
/// The result holds the same stations, each as often as before, and its
/// names never go down.
pub fn sort_by_name(stations: &Vec<Station>) -> (r: Vec<Station>)
    ensures
        r@ == name_sorted(stations@),
        sorted_by_name(r@),
        r@.to_multiset() == stations@.to_multiset(),
{
    let mut out: Vec<Station> = Vec::new();
    let mut i: usize = 0;
    proof {
        assert(stations@.take(0) =~= Seq::empty());
    }
    while i < stations.len()
        invariant
            i <= stations.len(),
            out@ == name_sorted(stations@.take(i as int)),
        decreases stations.len() - i,
    {
        proof {
            let next = stations@.take(i + 1);
            assert(next.drop_last() =~= stations@.take(i as int));
            assert(next.last() == stations@[i as int]);
        }
        insert_by_name(&mut out, stations[i].clone());
        i += 1;
    }
    proof {
        assert(stations@.take(stations.len() as int) =~= stations@);
        lemma_name_sorted(stations@);
    }
    out
}

impl TreeNode {
    /// The stations of the tree as a list in the order of their names.
    ///
    /// Every leaf of the tree is in the list exactly as often as it is in
    /// the tree, at whatever depth it stands, and nothing else is. Leaves of
    /// one name keep the order in which the tree shows them.
    pub fn flatten(&self) -> (r: Vec<Station>)
        ensures
            r@ == name_sorted(leaves(*self)),
            sorted_by_name(r@),
            r@.to_multiset() == leaves(*self).to_multiset(),
    {
        let mut found: Vec<Station> = Vec::new();
        collect_leaves(self, &mut found);
        proof {
            assert(found@ =~= leaves(*self));
        }
        sort_by_name(&found)
    }
}

} // verus!
