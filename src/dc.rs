use vstd::prelude::*;

use crate::element::{Element, ISource, VSource, is_primitive};

verus! {

/// The DC stand-in for an element: a capacitor is an open circuit (a current
/// source of `zero`), an inductor a short circuit (a voltage source of
/// `zero`); the other elements stand for themselves.
pub open spec fn dc_equivalent<V>(e: Element<V>, zero: V) -> Element<V> {
    match e {
        Element::Capacitor(c) => Element::ISource(ISource(c.n1, c.n2, zero)),
        Element::Inductor(l) => Element::VSource(VSource(l.n1, l.n2, zero)),
        _ => e,
    }
}

/// The DC stand-ins of a whole element list, in the same order.
pub open spec fn dc_equivalents<V>(es: Seq<Element<V>>, zero: V) -> Seq<Element<V>> {
    es.map_values(|e: Element<V>| dc_equivalent(e, zero))
}

/// Replaces every capacitor and inductor by its DC stand-in; `zero` is the
/// value given to those stand-ins.
pub fn apply_dc_equivalences<V: Copy>(elements: &[Element<V>], zero: V) -> (r: Vec<Element<V>>)
    ensures
        r@ == dc_equivalents(elements@, zero),
        forall|i: int| 0 <= i < r@.len() ==> is_primitive(#[trigger] r@[i]),
{
    let mut out: Vec<Element<V>> = Vec::new();
    let mut i: usize = 0;
    while i < elements.len()
        invariant
            0 <= i <= elements.len(),
            out@ == dc_equivalents(elements@.subrange(0, i as int), zero),
        decreases elements.len() - i,
    {
        let e = match &elements[i] {
            Element::Capacitor(capacitor) => Element::ISource(ISource(capacitor.n1, capacitor.n2, zero)),
            Element::Inductor(inductor) => Element::VSource(VSource(inductor.n1, inductor.n2, zero)),
            Element::Resistor(resistor) => Element::Resistor(*resistor),
            Element::VSource(vsource) => Element::VSource(*vsource),
            Element::ISource(isource) => Element::ISource(*isource),
        };
        out.push(e);
        proof {
            assert(dc_equivalents(elements@.subrange(0, i + 1), zero) =~= dc_equivalents(
                elements@.subrange(0, i as int),
                zero,
            ).push(dc_equivalent(elements@[i as int], zero)));
        }
        i = i + 1;
    }
    assert(elements@.subrange(0, elements.len() as int) =~= elements@);
    out
}

} // verus!
