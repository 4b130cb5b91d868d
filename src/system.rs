use vstd::prelude::*;

use crate::element::{Element, Resistor, VSource, ISource, is_primitive};
use crate::error::SolveError;
use crate::nodes::{NodeIndex, slot, as_slot, strictly_increasing};

verus! {

/// A term of the conductance block G: entry (`row`, `col`) gains
/// `1 / resistance`, or loses it when `negative`.
#[derive(Debug, Clone, Copy, PartialEq, Eq, Structural)]
pub struct ConductanceStamp {
    pub row: usize,
    pub col: usize,
    pub resistance: u32,
    pub negative: bool,
}

/// An entry of the incidence block B and of its transpose C: entry
/// (`row`, `branch`) of B, and (`branch`, `row`) of C, is set to +1 when
/// `positive`, else to -1.  Entries are set in the order given, so a later
/// entry for the same place wins.
#[derive(Debug, Clone, Copy, PartialEq, Eq, Structural)]
pub struct IncidenceStamp {
    pub row: usize,
    pub branch: usize,
    pub positive: bool,
}

/// A term of the node rows of the right-hand side: entry `row` gains
/// `value`, or loses it when `negative`.
#[derive(Debug, Clone, Copy)]
pub struct InjectionStamp<V> {
    pub row: usize,
    pub value: V,
    pub negative: bool,
}

/// A modified nodal system in stamp form.  Its matrix is
/// `[[G, B], [C, D]]` of dimension `node_count + source_count`, with `D`
/// zero; its right-hand side holds the summed injections in the node rows
/// and `source_values[k]` in row `node_count + k`.
#[derive(Debug, Clone)]
pub struct MnaSystem<V> {
    pub node_count: usize,
    pub source_count: usize,
    pub conductances: Vec<ConductanceStamp>,
    pub incidences: Vec<IncidenceStamp>,
    pub injections: Vec<InjectionStamp<V>>,
    pub source_values: Vec<V>,
}

/// The diagonal term that a resistor adds at a terminal's place, if the
/// terminal has one.
pub open spec fn diagonal_term(p: Option<int>, resistance: u32) -> Seq<ConductanceStamp> {
    match p {
        Some(i) => seq![ConductanceStamp { row: i as usize, col: i as usize, resistance, negative: false }],
        None => seq![],
    }
}

/// What a resistor adds to G, given the ascending non-reference nodes `s`:
/// its conductance on the diagonal at each terminal that has a place, and
/// taken off both crossing entries when both terminals have one.
pub open spec fn resistor_terms(s: Seq<usize>, r: Resistor) -> Seq<ConductanceStamp> {
    diagonal_term(slot(s, r.0), r.2) + diagonal_term(slot(s, r.1), r.2) + match (
        slot(s, r.0),
        slot(s, r.1),
    ) {
        (Some(i), Some(j)) => seq![
            ConductanceStamp { row: i as usize, col: j as usize, resistance: r.2, negative: true },
            ConductanceStamp { row: j as usize, col: i as usize, resistance: r.2, negative: true },
        ],
        _ => seq![],
    }
}

/// What one element adds to G.
pub open spec fn resistor_stamps<V>(s: Seq<usize>, e: Element<V>) -> Seq<ConductanceStamp> {
    match e {
        Element::Resistor(r) => resistor_terms(s, r),
        _ => seq![],
    }
}

/// The incidence entry of a source terminal, if the terminal has a place.
pub open spec fn incidence_term(p: Option<int>, branch: nat, positive: bool) -> Seq<IncidenceStamp> {
    match p {
        Some(i) => seq![IncidenceStamp { row: i as usize, branch: branch as usize, positive }],
        None => seq![],
    }
}

/// What a voltage source, as branch `k`, sets in B and C: -1 at its
/// negative terminal, then +1 at its positive terminal.
pub open spec fn vsource_terms<V>(s: Seq<usize>, v: VSource<V>, k: nat) -> Seq<IncidenceStamp> {
    incidence_term(slot(s, v.0), k, false) + incidence_term(slot(s, v.1), k, true)
}

/// What one element, taken as branch `k`, sets in B and C.
pub open spec fn vsource_stamps<V>(s: Seq<usize>, e: Element<V>, k: nat) -> Seq<IncidenceStamp> {
    match e {
        Element::VSource(v) => vsource_terms(s, v, k),
        _ => seq![],
    }
}

/// The injection term of a current-source terminal, if it has a place.
pub open spec fn injection_term<V>(p: Option<int>, value: V, negative: bool) -> Seq<InjectionStamp<V>> {
    match p {
        Some(i) => seq![InjectionStamp { row: i as usize, value, negative }],
        None => seq![],
    }
}

/// What a current source adds to the right-hand side: its current taken
/// from its negative terminal and given to its positive terminal.
pub open spec fn isource_terms<V>(s: Seq<usize>, c: ISource<V>) -> Seq<InjectionStamp<V>> {
    injection_term(slot(s, c.0), c.2, true) + injection_term(slot(s, c.1), c.2, false)
}

/// What one element adds to the node rows of the right-hand side.
pub open spec fn isource_stamps<V>(s: Seq<usize>, e: Element<V>) -> Seq<InjectionStamp<V>> {
    match e {
        Element::ISource(c) => isource_terms(s, c),
        _ => seq![],
    }
}

/// The number of voltage sources in `es`.
pub open spec fn source_count<V>(es: Seq<Element<V>>) -> nat
    decreases es.len(),
{
    if es.len() == 0 {
        0
    } else {
        source_count(es.drop_last()) + if es.last() is VSource { 1nat } else { 0nat }
    }
}

/// The values of the voltage sources of `es`, in the order they occur.
pub open spec fn source_values<V>(es: Seq<Element<V>>) -> Seq<V>
    decreases es.len(),
{
    if es.len() == 0 {
        seq![]
    } else {
        source_values(es.drop_last()) + match es.last() {
            Element::VSource(v) => seq![v.2],
            _ => seq![],
        }
    }
}

/// The G terms of all of `es`, element after element.
pub open spec fn all_conductances<V>(s: Seq<usize>, es: Seq<Element<V>>) -> Seq<ConductanceStamp>
    decreases es.len(),
{
    if es.len() == 0 {
        seq![]
    } else {
        all_conductances(s, es.drop_last()) + resistor_stamps(s, es.last())
    }
}

/// The B and C entries of all of `es`; voltage sources are numbered as
/// branches 0, 1, ... in the order they occur.
pub open spec fn all_incidences<V>(s: Seq<usize>, es: Seq<Element<V>>) -> Seq<IncidenceStamp>
    decreases es.len(),
{
    if es.len() == 0 {
        seq![]
    } else {
        all_incidences(s, es.drop_last()) + vsource_stamps(s, es.last(), source_count(es.drop_last()))
    }
}

/// The injection terms of all of `es`, element after element.
pub open spec fn all_injections<V>(s: Seq<usize>, es: Seq<Element<V>>) -> Seq<InjectionStamp<V>>
    decreases es.len(),
{
    if es.len() == 0 {
        seq![]
    } else {
        all_injections(s, es.drop_last()) + isource_stamps(s, es.last())
    }
}

/// `e` is a resistor of zero ohms.
pub open spec fn is_zero_resistor<V>(e: Element<V>) -> bool {
    match e {
        Element::Resistor(r) => r.2 == 0,
        _ => false,
    }
}

/// Some resistor of `es` has zero resistance.
pub open spec fn has_zero_resistor<V>(es: Seq<Element<V>>) -> bool {
    exists|i: int| 0 <= i < es.len() && is_zero_resistor(#[trigger] es[i])
}

impl<V> MnaSystem<V> {
    /// `self` is the system of the elements `es` over the ascending
    /// non-reference nodes `s`.
    pub open spec fn models(&self, s: Seq<usize>, es: Seq<Element<V>>) -> bool {
        &&& self.node_count == s.len()
        &&& self.source_count == source_count(es)
        &&& self.conductances@ == all_conductances(s, es)
        &&& self.incidences@ == all_incidences(s, es)
        &&& self.injections@ == all_injections(s, es)
        &&& self.source_values@ == source_values(es)
    }
}

/// Looks for a resistor of zero ohms.
fn find_zero_resistor<V>(elements: &[Element<V>]) -> (r: bool)
    ensures
        r == has_zero_resistor(elements@),
{
    let mut i: usize = 0;
    while i < elements.len()
        invariant
            0 <= i <= elements.len(),
            forall|k: int| 0 <= k < i ==> !is_zero_resistor(#[trigger] elements@[k]),
        decreases elements.len() - i,
    {
        if let Element::Resistor(resistor) = &elements[i] {
            if resistor.2 == 0 {
                return true;
            }
        }
        i = i + 1;
    }
    false
}

fn stamp_resistor(index: &NodeIndex, resistor: &Resistor, out: &mut Vec<ConductanceStamp>)
    requires
        strictly_increasing(index.nodes@),
    ensures
        final(out)@ == old(out)@ + resistor_terms(index.nodes@, *resistor),
{
    let Resistor(n1, n2, r) = *resistor;
    let p1 = index.position(n1);
    let p2 = index.position(n2);
    if let Some(i) = p1 {
        out.push(ConductanceStamp { row: i, col: i, resistance: r, negative: false });
    }
    if let Some(j) = p2 {
        out.push(ConductanceStamp { row: j, col: j, resistance: r, negative: false });
    }
    if let Some(i) = p1 {
        if let Some(j) = p2 {
            out.push(ConductanceStamp { row: i, col: j, resistance: r, negative: true });
            out.push(ConductanceStamp { row: j, col: i, resistance: r, negative: true });
        }
    }
    assert(out@ =~= old(out)@ + resistor_terms(index.nodes@, *resistor));
}

fn stamp_vsource<V: Copy>(
    index: &NodeIndex,
    vsource: &VSource<V>,
    branch: usize,
    out: &mut Vec<IncidenceStamp>,
)
    requires
        strictly_increasing(index.nodes@),
    ensures
        final(out)@ == old(out)@ + vsource_terms(index.nodes@, *vsource, branch as nat),
{
    if let Some(i) = index.position(vsource.0) {
        out.push(IncidenceStamp { row: i, branch, positive: false });
    }
    if let Some(j) = index.position(vsource.1) {
        out.push(IncidenceStamp { row: j, branch, positive: true });
    }
    assert(out@ =~= old(out)@ + vsource_terms(index.nodes@, *vsource, branch as nat));
}

fn stamp_isource<V: Copy>(index: &NodeIndex, isource: &ISource<V>, out: &mut Vec<InjectionStamp<V>>)
    requires
        strictly_increasing(index.nodes@),
    ensures
        final(out)@ == old(out)@ + isource_terms(index.nodes@, *isource),
{
    if let Some(i) = index.position(isource.0) {
        out.push(InjectionStamp { row: i, value: isource.2, negative: true });
    }
    if let Some(j) = index.position(isource.1) {
        out.push(InjectionStamp { row: j, value: isource.2, negative: false });
    }
    assert(out@ =~= old(out)@ + isource_terms(index.nodes@, *isource));
}

/// Builds the modified nodal system of DC-ready elements over the layout
/// `index`, in one pass; a resistor of zero ohms is refused first.
pub fn assemble<V: Copy>(elements: &[Element<V>], index: &NodeIndex) -> (r: Result<
    MnaSystem<V>,
    SolveError,
>)
    requires
        strictly_increasing(index.nodes@),
        forall|i: int| 0 <= i < elements@.len() ==> is_primitive(#[trigger] elements@[i]),
    ensures
        r is Err <==> has_zero_resistor(elements@),
        r is Err ==> r->Err_0 == SolveError::InvalidElement,
        r is Ok ==> r->Ok_0.models(index.nodes@, elements@),
{
    if find_zero_resistor(elements) {
        return Err(SolveError::InvalidElement);
    }
    let ghost s = index.nodes@;
    let mut conductances: Vec<ConductanceStamp> = Vec::new();
    let mut incidences: Vec<IncidenceStamp> = Vec::new();
    let mut injections: Vec<InjectionStamp<V>> = Vec::new();
    let mut values: Vec<V> = Vec::new();
    let mut k: usize = 0;
    let mut i: usize = 0;
    while i < elements.len()
        invariant
            0 <= i <= elements.len(),
            k <= i,
            s == index.nodes@,
            strictly_increasing(s),
            forall|j: int| 0 <= j < elements@.len() ==> is_primitive(#[trigger] elements@[j]),
            k == source_count(elements@.subrange(0, i as int)),
            conductances@ == all_conductances(s, elements@.subrange(0, i as int)),
            incidences@ == all_incidences(s, elements@.subrange(0, i as int)),
            injections@ == all_injections(s, elements@.subrange(0, i as int)),
            values@ == source_values(elements@.subrange(0, i as int)),
        decreases elements.len() - i,
    {
        proof {
            let next = elements@.subrange(0, i + 1);
            assert(next.drop_last() =~= elements@.subrange(0, i as int));
            assert(next.last() == elements@[i as int]);
        }
        match &elements[i] {
            Element::Resistor(resistor) => {
                stamp_resistor(index, resistor, &mut conductances);
                assert(injections@ =~= injections@ + isource_stamps(s, elements@[i as int]));
                assert(incidences@ =~= incidences@ + vsource_stamps(s, elements@[i as int], k as nat));
                assert(values@ =~= values@ + seq![]);
            },
            Element::VSource(vsource) => {
                stamp_vsource(index, vsource, k, &mut incidences);
                values.push(vsource.2);
                k = k + 1;
                assert(conductances@ =~= conductances@ + resistor_stamps(s, elements@[i as int]));
                assert(injections@ =~= injections@ + isource_stamps(s, elements@[i as int]));
            },
            Element::ISource(isource) => {
                stamp_isource(index, isource, &mut injections);
                assert(conductances@ =~= conductances@ + resistor_stamps(s, elements@[i as int]));
                assert(incidences@ =~= incidences@ + vsource_stamps(s, elements@[i as int], k as nat));
                assert(values@ =~= values@ + seq![]);
            },
            _ => {
                assert(is_primitive(elements@[i as int]));
            },
        }
        i = i + 1;
    }
    proof {
        assert(elements@.subrange(0, elements.len() as int) =~= elements@);
    }
    Ok(MnaSystem {
        node_count: index.nodes.len(),
        source_count: k,
        conductances,
        incidences,
        injections,
        source_values: values,
    })
}

} // verus!
