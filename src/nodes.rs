use vstd::prelude::*;

use crate::element::{Element, touches};
use crate::error::SolveError;

verus! {

/// Every node that some element of `es` is attached to.
pub open spec fn node_set<V>(es: Seq<Element<V>>) -> Set<usize> {
    Set::new(|n: usize| exists|i: int| 0 <= i < es.len() && touches(#[trigger] es[i], n))
}

/// Each identifier is below the next one: sorted, without repeats.
pub open spec fn strictly_increasing(s: Seq<usize>) -> bool {
    forall|i: int, j: int| 0 <= i < j < s.len() ==> s[i] < s[j]
}

/// The position of `n` in `s`, if it occurs there.
pub open spec fn slot(s: Seq<usize>, n: usize) -> Option<int> {
    if s.contains(n) {
        Some(choose|i: int| 0 <= i < s.len() && s[i] == n)
    } else {
        None
    }
}

/// A position in a sequence, seen as a mathematical integer.
pub open spec fn as_slot(p: Option<usize>) -> Option<int> {
    match p {
        Some(i) => Some(i as int),
        None => None,
    }
}

/// In a strictly increasing sequence an identifier sits at one place only.
pub proof fn lemma_slot_unique(s: Seq<usize>, i: int)
    requires
        strictly_increasing(s),
        0 <= i < s.len(),
    ensures
        slot(s, s[i]) == Some(i),
{
    assert(s.contains(s[i]));
    let j = choose|j: int| 0 <= j < s.len() && s[j] == s[i];
    assert(j == i) by {
        if j < i {
            assert(s[j] < s[i]);
        } else if i < j {
            assert(s[i] < s[j]);
        }
    }
}

/// Two strictly increasing sequences that hold the same identifiers are equal.
pub proof fn lemma_increasing_unique(s: Seq<usize>, t: Seq<usize>)
    requires
        strictly_increasing(s),
        strictly_increasing(t),
        forall|n: usize| s.contains(n) <==> t.contains(n),
    ensures
        s == t,
    decreases s.len() + t.len(),
{
    if s.len() == 0 {
        if t.len() > 0 {
            assert(t.contains(t[0]));
        }
        assert(s =~= t);
    } else if t.len() == 0 {
        assert(s.contains(s[0]));
    } else {
        assert(s.contains(s[0]));
        assert(t.contains(t[0]));
        let i = choose|i: int| 0 <= i < t.len() && t[i] == s[0];
        let j = choose|j: int| 0 <= j < s.len() && s[j] == t[0];
        if i > 0 {
            assert(t[0] < t[i]);
            if j > 0 {
                assert(s[0] < s[j]);
            }
        }
        if j > 0 {
            assert(s[0] < s[j]);
        }
        assert(s[0] == t[0]);
        let s1 = s.drop_first();
        let t1 = t.drop_first();
        assert forall|n: usize| s1.contains(n) <==> t1.contains(n) by {
            if s1.contains(n) {
                let k = choose|k: int| 0 <= k < s1.len() && s1[k] == n;
                assert(s[0] < s[k + 1]);
                assert(s.contains(n));
                let m = choose|m: int| 0 <= m < t.len() && t[m] == n;
                assert(m != 0);
                assert(t1[m - 1] == n);
            }
            if t1.contains(n) {
                let k = choose|k: int| 0 <= k < t1.len() && t1[k] == n;
                assert(t[0] < t[k + 1]);
                assert(t.contains(n));
                let m = choose|m: int| 0 <= m < s.len() && s[m] == n;
                assert(m != 0);
                assert(s1[m - 1] == n);
            }
        }
        lemma_increasing_unique(s1, t1);
        assert(s =~= seq![s[0]] + s1);
        assert(t =~= seq![t[0]] + t1);
    }
}

/// Puts `n` into the strictly increasing `v`, unless it is there already.
fn insert_node(v: &mut Vec<usize>, n: usize)
    requires
        strictly_increasing(old(v)@),
    ensures
        strictly_increasing(final(v)@),
        forall|m: usize| final(v)@.contains(m) <==> (old(v)@.contains(m) || m == n),
{
    let mut i: usize = 0;
    while i < v.len() && v[i] < n
        invariant
            0 <= i <= v.len(),
            forall|k: int| 0 <= k < i ==> v@[k] < n,
        decreases v.len() - i,
    {
        i = i + 1;
    }
    if i < v.len() && v[i] == n {
        assert(v@.contains(n));
        return;
    }
    let ghost before = v@;
    v.insert(i, n);
    assert(v@ == before.insert(i as int, n));
    assert forall|m: usize| v@.contains(m) <==> (old(v)@.contains(m) || m == n) by {
        if v@.contains(m) {
            let k = choose|k: int| 0 <= k < v@.len() && v@[k] == m;
            if k < i {
                assert(before[k] == m);
                assert(before.contains(m));
            } else if k > i {
                assert(before[k - 1] == m);
                assert(before.contains(m));
            }
        }
        if before.contains(m) {
            let k = choose|k: int| 0 <= k < before.len() && before[k] == m;
            if k < i {
                assert(v@[k] == m);
            } else {
                assert(v@[k + 1] == m);
            }
            assert(v@.contains(m));
        }
        if m == n {
            assert(v@[i as int] == n);
            assert(v@.contains(m));
        }
    }
}

/// The node identifiers that the elements mention, ascending, each once.
pub fn create_nodes_set<V>(elements: &[Element<V>]) -> (r: Vec<usize>)
    ensures
        strictly_increasing(r@),
        forall|n: usize| r@.contains(n) <==> node_set(elements@).contains(n),
{
    let mut nodes: Vec<usize> = Vec::new();
    let mut i: usize = 0;
    while i < elements.len()
        invariant
            0 <= i <= elements.len(),
            strictly_increasing(nodes@),
            forall|n: usize|
                nodes@.contains(n) <==> node_set(elements@.subrange(0, i as int)).contains(n),
        decreases elements.len() - i,
    {
        let (a, b) = elements[i].terminals();
        insert_node(&mut nodes, a);
        insert_node(&mut nodes, b);
        proof {
            let pre = elements@.subrange(0, i as int);
            let post = elements@.subrange(0, i + 1);
            assert forall|n: usize|
                node_set(post).contains(n) <==> (node_set(pre).contains(n) || n == a || n == b) by {
                if node_set(post).contains(n) {
                    let k = choose|k: int| 0 <= k < post.len() && touches(#[trigger] post[k], n);
                    if k < i {
                        assert(pre[k] == post[k]);
                    }
                }
                if node_set(pre).contains(n) {
                    let k = choose|k: int| 0 <= k < pre.len() && touches(#[trigger] pre[k], n);
                    assert(post[k] == pre[k]);
                }
                if n == a || n == b {
                    assert(touches(post[i as int], n));
                }
            }
        }
        i = i + 1;
    }
    assert(elements@.subrange(0, elements.len() as int) =~= elements@);
    nodes
}

/// Where each node's voltage sits in the unknown vector: the reference node
/// has no place, the others take places 0, 1, ... in ascending order.
#[derive(Debug, Clone)]
pub struct NodeIndex {
    pub reference: usize,
    pub nodes: Vec<usize>,
}

impl NodeIndex {
    /// `self` is the layout of the network `es`: the reference is the least
    /// node, the others are listed ascending.
    pub open spec fn indexes<V>(&self, es: Seq<Element<V>>) -> bool {
        &&& node_set(es).contains(self.reference)
        &&& forall|n: usize| #[trigger] node_set(es).contains(n) ==> self.reference <= n
        &&& strictly_increasing(self.nodes@)
        &&& forall|n: usize|
            #[trigger] self.nodes@.contains(n) <==> (node_set(es).contains(n) && n != self.reference)
    }

    /// Lays out the network: fails only when no element is given.
    pub fn from_elements<V>(elements: &[Element<V>]) -> (r: Result<NodeIndex, SolveError>)
        ensures
            r is Err <==> elements@.len() == 0,
            r is Err ==> r->Err_0 == SolveError::EmptyNetwork,
            r is Ok ==> r->Ok_0.indexes(elements@),
            r is Ok ==> r->Ok_0.nodes@.len() + 1 == node_set(elements@).len(),
    {
        let mut nodes = create_nodes_set(elements);
        if nodes.len() == 0 {
            proof {
                if elements@.len() > 0 {
                    assert(touches(elements@[0], crate::element::first_node(elements@[0])));
                    assert(node_set(elements@).contains(crate::element::first_node(elements@[0])));
                    assert(nodes@.contains(crate::element::first_node(elements@[0])));
                }
            }
            return Err(SolveError::EmptyNetwork);
        }
        let ghost all = nodes@;
        proof {
            assert(all.contains(all[0]));
            all.unique_seq_to_set();
            assert(all.to_set() =~= node_set(elements@));
            assert(elements@.len() > 0) by {
                let n = all[0];
                assert(node_set(elements@).contains(n));
            }
        }
        let reference = nodes.remove(0);
        proof {
            assert(nodes@ =~= all.drop_first());
            assert forall|n: usize| #[trigger] node_set(elements@).contains(n) implies reference <= n by {
                assert(all.contains(n));
                let k = choose|k: int| 0 <= k < all.len() && all[k] == n;
                if k > 0 {
                    assert(all[0] < all[k]);
                }
            }
            assert forall|n: usize|
                #[trigger] nodes@.contains(n) <==> (node_set(elements@).contains(n) && n != reference) by {
                if nodes@.contains(n) {
                    let k = choose|k: int| 0 <= k < nodes@.len() && nodes@[k] == n;
                    assert(all[k + 1] == n);
                    assert(all[0] < all[k + 1]);
                    assert(all.contains(n));
                }
                if node_set(elements@).contains(n) && n != reference {
                    assert(all.contains(n));
                    let k = choose|k: int| 0 <= k < all.len() && all[k] == n;
                    assert(nodes@[k - 1] == n);
                }
            }
        }
        Ok(NodeIndex { reference, nodes })
    }

    /// The place of node `n` in the unknown vector; `None` for the reference
    /// node and for a node the network does not have.
    pub fn position(&self, n: usize) -> (r: Option<usize>)
        requires
            strictly_increasing(self.nodes@),
        ensures
            as_slot(r) == slot(self.nodes@, n),
    {
        let mut i: usize = 0;
        while i < self.nodes.len()
            invariant
                0 <= i <= self.nodes@.len(),
                strictly_increasing(self.nodes@),
                forall|k: int| 0 <= k < i ==> self.nodes@[k] != n,
            decreases self.nodes@.len() - i,
        {
            if self.nodes[i] == n {
                proof {
                    lemma_slot_unique(self.nodes@, i as int);
                }
                return Some(i);
            }
            i = i + 1;
        }
        None
    }
}

/// Two layouts of one network agree: the least node is the reference, and
/// the other nodes take their places in ascending order, so the layout
/// depends on the node set alone.
pub proof fn lemma_layout_determined<V>(a: NodeIndex, b: NodeIndex, es: Seq<Element<V>>)
    requires
        a.indexes(es),
        b.indexes(es),
    ensures
        a.reference == b.reference,
        a.nodes@ == b.nodes@,
{
    assert(a.reference <= b.reference);
    assert(b.reference <= a.reference);
    lemma_increasing_unique(a.nodes@, b.nodes@);
}

} // verus!
