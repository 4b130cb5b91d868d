use vstd::prelude::*;

use crate::dc::{apply_dc_equivalences, dc_equivalent, dc_equivalents};
use crate::element::{Element, touches};
use crate::error::SolveError;
use crate::nodes::{NodeIndex, node_set};
use crate::system::{MnaSystem, assemble, has_zero_resistor, is_zero_resistor};

verus! {

/// A network made ready for the linear solve: its node layout and its
/// modified nodal system at DC.
#[derive(Debug, Clone)]
pub struct DcSystem<V> {
    pub layout: NodeIndex,
    pub system: MnaSystem<V>,
}

/// The DC stand-ins keep every element's terminals, so the node set stays.
pub proof fn lemma_dc_keeps_nodes<V>(es: Seq<Element<V>>, zero: V)
    ensures
        node_set(dc_equivalents(es, zero)) == node_set(es),
{
    let eq = dc_equivalents(es, zero);
    assert forall|n: usize| node_set(eq).contains(n) <==> node_set(es).contains(n) by {
        if node_set(eq).contains(n) {
            let i = choose|i: int| 0 <= i < eq.len() && touches(#[trigger] eq[i], n);
            assert(eq[i] == dc_equivalent(es[i], zero));
            assert(touches(es[i], n));
        }
        if node_set(es).contains(n) {
            let i = choose|i: int| 0 <= i < es.len() && touches(#[trigger] es[i], n);
            assert(eq[i] == dc_equivalent(es[i], zero));
            assert(touches(eq[i], n));
        }
    }
    assert(node_set(eq) =~= node_set(es));
}

/// The DC stand-ins add no resistor and change none.
pub proof fn lemma_dc_keeps_resistors<V>(es: Seq<Element<V>>, zero: V)
    ensures
        has_zero_resistor(dc_equivalents(es, zero)) == has_zero_resistor(es),
{
    let eq = dc_equivalents(es, zero);
    if has_zero_resistor(eq) {
        let i = choose|i: int| 0 <= i < eq.len() && is_zero_resistor(#[trigger] eq[i]);
        assert(eq[i] == dc_equivalent(es[i], zero));
        assert(is_zero_resistor(es[i]));
    }
    if has_zero_resistor(es) {
        let i = choose|i: int| 0 <= i < es.len() && is_zero_resistor(#[trigger] es[i]);
        assert(eq[i] == dc_equivalent(es[i], zero));
        assert(is_zero_resistor(eq[i]));
    }
}

/// Lays out the network, puts its reactive elements at their DC stand-ins
/// (with value `zero`) and assembles the modified nodal system.  An empty
/// network is refused first, then a resistor of zero ohms.
pub fn dc_system<V: Copy>(elements: &[Element<V>], zero: V) -> (r: Result<DcSystem<V>, SolveError>)
    ensures
        r is Err <==> (elements@.len() == 0 || has_zero_resistor(elements@)),
        r is Err ==> r->Err_0 == (if elements@.len() == 0 {
            SolveError::EmptyNetwork
        } else {
            SolveError::InvalidElement
        }),
        r is Ok ==> r->Ok_0.layout.indexes(elements@),
        r is Ok ==> r->Ok_0.system.models(r->Ok_0.layout.nodes@, dc_equivalents(elements@, zero)),
        r is Ok ==> r->Ok_0.system.node_count + 1 == node_set(elements@).len(),
{
    let layout = match NodeIndex::from_elements(elements) {
        Ok(layout) => layout,
        Err(e) => {
            return Err(e);
        },
    };
    let equivalent = apply_dc_equivalences(elements, zero);
    proof {
        lemma_dc_keeps_resistors(elements@, zero);
    }
    match assemble(equivalent.as_slice(), &layout) {
        Ok(system) => Ok(DcSystem { layout, system }),
        Err(e) => Err(e),
    }
}

/// The node voltages out of a solution of the system: its first
/// `node_count` entries, one per non-reference node in ascending order; the
/// branch currents that follow are dropped.
pub fn node_voltages<V: Copy>(solution: &[V], node_count: usize) -> (r: Vec<V>)
    requires
        node_count <= solution@.len(),
    ensures
        r@ == solution@.subrange(0, node_count as int),
{
    let mut out: Vec<V> = Vec::new();
    let mut i: usize = 0;
    while i < node_count
        invariant
            0 <= i <= node_count <= solution@.len(),
            out@ == solution@.subrange(0, i as int),
        decreases node_count - i,
    {
        out.push(solution[i]);
        assert(out@ =~= solution@.subrange(0, i + 1));
        i = i + 1;
    }
    out
}

} // verus!
