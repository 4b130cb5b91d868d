use vstd::prelude::*;
use vstd::seq_lib::{lemma_multiset_commutative, to_multiset_contains, to_multiset_remove, to_multiset_len};

use crate::dc::{dc_equivalents, dc_equivalent};
use crate::element::{Element, Capacitor, Inductor, ISource, VSource, touches};
use crate::analysis::lemma_dc_keeps_resistors;
use crate::nodes::{NodeIndex, node_set};
use crate::system::{
    has_zero_resistor,     all_conductances, all_incidences, all_injections, isource_stamps, resistor_stamps,
    source_count, source_values,
};

verus! {

/// A network reports one voltage for each of its nodes but the reference:
/// the layout holds one node fewer than the network has.
pub proof fn lemma_voltage_count<V>(layout: NodeIndex, es: Seq<Element<V>>)
    requires
        layout.indexes(es),
    ensures
        node_set(es).finite(),
        layout.nodes@.len() + 1 == node_set(es).len(),
{
    let s = layout.nodes@;
    assert(s.no_duplicates()) by {
        assert forall|i: int, j: int| 0 <= i < s.len() && 0 <= j < s.len() && i != j implies s[i]
            != s[j] by {
            if i < j {
                assert(s[i] < s[j]);
            } else {
                assert(s[j] < s[i]);
            }
        }
    }
    s.unique_seq_to_set();
    assert(!s.to_set().contains(layout.reference));
    assert(node_set(es) =~= s.to_set().insert(layout.reference));
}

/// The reference node is the least node of the network, and no voltage is
/// reported for it.
pub proof fn lemma_reference_is_least<V>(layout: NodeIndex, es: Seq<Element<V>>)
    requires
        layout.indexes(es),
    ensures
        node_set(es).contains(layout.reference),
        forall|n: usize| #[trigger] node_set(es).contains(n) ==> layout.reference <= n,
        !layout.nodes@.contains(layout.reference),
{
}

/// The terms of all of `es` under `f`, element after element.
spec fn gather<V, T>(es: Seq<Element<V>>, f: spec_fn(Element<V>) -> Seq<T>) -> Seq<T>
    decreases es.len(),
{
    if es.len() == 0 {
        seq![]
    } else {
        gather(es.drop_last(), f) + f(es.last())
    }
}

proof fn lemma_conductances_gather<V>(s: Seq<usize>, es: Seq<Element<V>>)
    ensures
        all_conductances(s, es) == gather(es, |e: Element<V>| resistor_stamps(s, e)),
    decreases es.len(),
{
    if es.len() > 0 {
        lemma_conductances_gather(s, es.drop_last());
    }
}

proof fn lemma_injections_gather<V>(s: Seq<usize>, es: Seq<Element<V>>)
    ensures
        all_injections(s, es) == gather(es, |e: Element<V>| isource_stamps(s, e)),
    decreases es.len(),
{
    if es.len() > 0 {
        lemma_injections_gather(s, es.drop_last());
    }
}

/// Taking one element out of the list takes its terms out of the gathered
/// multiset.
proof fn lemma_gather_remove<V, T>(es: Seq<Element<V>>, f: spec_fn(Element<V>) -> Seq<T>, j: int)
    requires
        0 <= j < es.len(),
    ensures
        gather(es, f).to_multiset() == gather(es.remove(j), f).to_multiset().add(
            f(es[j]).to_multiset(),
        ),
    decreases es.len(),
{
    broadcast use vstd::multiset::group_multiset_axioms;

    lemma_multiset_commutative(gather(es.drop_last(), f), f(es.last()));
    if j == es.len() - 1 {
        assert(es.remove(j) =~= es.drop_last());
    } else {
        let rest = es.remove(j);
        assert(rest.drop_last() =~= es.drop_last().remove(j));
        assert(rest.last() == es.last());
        lemma_gather_remove(es.drop_last(), f, j);
        lemma_multiset_commutative(gather(rest.drop_last(), f), f(rest.last()));
        assert(gather(es, f).to_multiset() =~= gather(es.remove(j), f).to_multiset().add(
            f(es[j]).to_multiset(),
        ));
    }
}

/// Lists that hold the same elements, in any order, gather the same terms.
proof fn lemma_gather_permutation<V, T>(
    a: Seq<Element<V>>,
    b: Seq<Element<V>>,
    f: spec_fn(Element<V>) -> Seq<T>,
)
    requires
        a.to_multiset() == b.to_multiset(),
    ensures
        gather(a, f).to_multiset() == gather(b, f).to_multiset(),
    decreases a.len(),
{
    broadcast use vstd::multiset::group_multiset_axioms;

    to_multiset_len(a);
    to_multiset_len(b);
    if a.len() == 0 {
        assert(b.len() == 0);
        assert(gather(a, f) =~= gather(b, f));
    } else {
        let x = a.last();
        assert(a.contains(x)) by {
            assert(a[a.len() - 1] == x);
        }
        to_multiset_contains(a, x);
        to_multiset_contains(b, x);
        let j = choose|j: int| 0 <= j < b.len() && b[j] == x;
        to_multiset_remove(b, j);
        to_multiset_remove(a, a.len() - 1);
        assert(a.remove(a.len() - 1) =~= a.drop_last());
        lemma_gather_permutation(a.drop_last(), b.remove(j), f);
        lemma_gather_remove(b, f, j);
        lemma_multiset_commutative(gather(a.drop_last(), f), f(x));
    }
}

/// The voltage sources of a list, in the order they occur.
pub open spec fn voltage_sources<V>(es: Seq<Element<V>>) -> Seq<Element<V>>
    decreases es.len(),
{
    if es.len() == 0 {
        seq![]
    } else if es.last() is VSource {
        voltage_sources(es.drop_last()).push(es.last())
    } else {
        voltage_sources(es.drop_last())
    }
}

/// Branch numbers, incidence entries and source values come from the
/// voltage sources alone.
proof fn lemma_sources_decide_branches<V>(s: Seq<usize>, es: Seq<Element<V>>)
    ensures
        all_incidences(s, es) == all_incidences(s, voltage_sources(es)),
        source_values(es) == source_values(voltage_sources(es)),
        source_count(es) == source_count(voltage_sources(es)),
    decreases es.len(),
{
    if es.len() > 0 {
        let vs = voltage_sources(es);
        let prev = voltage_sources(es.drop_last());
        lemma_sources_decide_branches(s, es.drop_last());
        if es.last() is VSource {
            assert(vs == prev.push(es.last()));
            assert(vs.drop_last() =~= prev);
            assert(vs.last() == es.last());
        } else {
            assert(vs == prev);
            assert(all_incidences(s, es) =~= all_incidences(s, es.drop_last()));
            assert(source_values(es) =~= source_values(es.drop_last()));
        }
    }
}

/// The order of the elements does not matter: two lists that hold the same
/// elements, with their voltage sources in the same order among themselves,
/// have the same nodes, the same G terms and injections (up to order, so
/// the same sums), and the same incidence entries and source values.
pub proof fn lemma_order_independent<V>(s: Seq<usize>, a: Seq<Element<V>>, b: Seq<Element<V>>)
    requires
        a.to_multiset() == b.to_multiset(),
        voltage_sources(a) == voltage_sources(b),
    ensures
        node_set(a) == node_set(b),
        all_conductances(s, a).to_multiset() == all_conductances(s, b).to_multiset(),
        all_injections(s, a).to_multiset() == all_injections(s, b).to_multiset(),
        all_incidences(s, a) == all_incidences(s, b),
        source_values(a) == source_values(b),
        source_count(a) == source_count(b),
{
    assert forall|n: usize| node_set(a).contains(n) <==> node_set(b).contains(n) by {
        if node_set(a).contains(n) {
            let i = choose|i: int| 0 <= i < a.len() && touches(#[trigger] a[i], n);
            to_multiset_contains(a, a[i]);
            to_multiset_contains(b, a[i]);
            let j = choose|j: int| 0 <= j < b.len() && b[j] == a[i];
            assert(touches(b[j], n));
        }
        if node_set(b).contains(n) {
            let i = choose|i: int| 0 <= i < b.len() && touches(#[trigger] b[i], n);
            to_multiset_contains(b, b[i]);
            to_multiset_contains(a, b[i]);
            let j = choose|j: int| 0 <= j < a.len() && a[j] == b[i];
            assert(touches(a[j], n));
        }
    }
    assert(node_set(a) =~= node_set(b));
    lemma_conductances_gather(s, a);
    lemma_conductances_gather(s, b);
    lemma_gather_permutation(a, b, |e: Element<V>| resistor_stamps(s, e));
    lemma_injections_gather(s, a);
    lemma_injections_gather(s, b);
    lemma_gather_permutation(a, b, |e: Element<V>| isource_stamps(s, e));
    lemma_sources_decide_branches(s, a);
    lemma_sources_decide_branches(s, b);
}

/// Two elements on the same terminals that have the same DC stand-in may
/// replace one another: the network keeps its nodes, its DC elements and
/// its errors.
proof fn lemma_same_stand_in<V>(es: Seq<Element<V>>, i: int, x: Element<V>, y: Element<V>, zero: V)
    requires
        0 <= i < es.len(),
        forall|n: usize| touches(x, n) <==> touches(y, n),
        dc_equivalent(x, zero) == dc_equivalent(y, zero),
    ensures
        node_set(es.update(i, x)) == node_set(es.update(i, y)),
        dc_equivalents(es.update(i, x), zero) == dc_equivalents(es.update(i, y), zero),
        has_zero_resistor(es.update(i, x)) == has_zero_resistor(es.update(i, y)),
{
    let a = es.update(i, x);
    let b = es.update(i, y);
    assert forall|n: usize| node_set(a).contains(n) <==> node_set(b).contains(n) by {
        if node_set(a).contains(n) {
            let k = choose|k: int| 0 <= k < a.len() && touches(#[trigger] a[k], n);
            assert(touches(b[k], n));
        }
        if node_set(b).contains(n) {
            let k = choose|k: int| 0 <= k < b.len() && touches(#[trigger] b[k], n);
            assert(touches(a[k], n));
        }
    }
    assert(node_set(a) =~= node_set(b));
    assert(dc_equivalents(a, zero) =~= dc_equivalents(b, zero));
    lemma_dc_keeps_resistors(a, zero);
    lemma_dc_keeps_resistors(b, zero);
}

/// Under DC a capacitor, whatever its capacitance, is a current source of
/// zero between the same nodes: the network keeps its nodes, its DC
/// elements and its errors, so it gets the same system and voltages.
pub proof fn lemma_capacitor_is_open_circuit<V>(
    es: Seq<Element<V>>,
    i: int,
    n1: usize,
    n2: usize,
    c: V,
    zero: V,
)
    requires
        0 <= i < es.len(),
    ensures
        ({
            let with_capacitor = es.update(i, Element::Capacitor(Capacitor { n1, n2, c }));
            let with_source = es.update(i, Element::ISource(ISource(n1, n2, zero)));
            &&& node_set(with_capacitor) == node_set(with_source)
            &&& dc_equivalents(with_capacitor, zero) == dc_equivalents(with_source, zero)
            &&& has_zero_resistor(with_capacitor) == has_zero_resistor(with_source)
        }),
{
    lemma_same_stand_in(
        es,
        i,
        Element::Capacitor(Capacitor { n1, n2, c }),
        Element::ISource(ISource(n1, n2, zero)),
        zero,
    );
}

/// Under DC an inductor, whatever its inductance, is a voltage source of
/// zero between the same nodes: the network keeps its nodes, its DC
/// elements and its errors, so it gets the same system and voltages.
pub proof fn lemma_inductor_is_short_circuit<V>(
    es: Seq<Element<V>>,
    i: int,
    n1: usize,
    n2: usize,
    l: V,
    zero: V,
)
    requires
        0 <= i < es.len(),
    ensures
        ({
            let with_inductor = es.update(i, Element::Inductor(Inductor { n1, n2, l }));
            let with_source = es.update(i, Element::VSource(VSource(n1, n2, zero)));
            &&& node_set(with_inductor) == node_set(with_source)
            &&& dc_equivalents(with_inductor, zero) == dc_equivalents(with_source, zero)
            &&& has_zero_resistor(with_inductor) == has_zero_resistor(with_source)
        }),
{
    lemma_same_stand_in(
        es,
        i,
        Element::Inductor(Inductor { n1, n2, l }),
        Element::VSource(VSource(n1, n2, zero)),
        zero,
    );
}

} // verus!
