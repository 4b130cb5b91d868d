use vstd::prelude::*;

verus! {

/// A resistor between two nodes, with its resistance in ohms.
#[derive(Debug, Clone, Copy)]
pub struct Resistor(pub usize, pub usize, pub u32);

/// An ideal voltage source from its negative node to its positive node.
#[derive(Debug, Clone, Copy)]
pub struct VSource<V>(pub usize, pub usize, pub V);

/// An ideal current source; the current flows from the negative node to the
/// positive node outside the source.
#[derive(Debug, Clone, Copy)]
pub struct ISource<V>(pub usize, pub usize, pub V);

/// A capacitor between two nodes.
#[derive(Debug, Clone, Copy)]
pub struct Capacitor<V> {
    pub n1: usize,
    pub n2: usize,
    pub c: V,
}

impl<V> Capacitor<V> {
    pub fn new(n1: usize, n2: usize, c: V) -> (r: Self)
        ensures
            r.n1 == n1,
            r.n2 == n2,
            r.c == c,
    {
        Capacitor { n1, n2, c }
    }
}

/// An inductor between two nodes.
#[derive(Debug, Clone, Copy)]
pub struct Inductor<V> {
    pub n1: usize,
    pub n2: usize,
    pub l: V,
}

impl<V> Inductor<V> {
    pub fn new(n1: usize, n2: usize, l: V) -> (r: Self)
        ensures
            r.n1 == n1,
            r.n2 == n2,
            r.l == l,
    {
        Inductor { n1, n2, l }
    }
}

/// A two-terminal element of a network.
#[derive(Debug, Clone, Copy)]
pub enum Element<V> {
    Resistor(Resistor),
    VSource(VSource<V>),
    ISource(ISource<V>),
    Capacitor(Capacitor<V>),
    Inductor(Inductor<V>),
}

/// The first terminal of an element (the negative one of a source).
pub open spec fn first_node<V>(e: Element<V>) -> usize {
    match e {
        Element::Resistor(r) => r.0,
        Element::VSource(s) => s.0,
        Element::ISource(s) => s.0,
        Element::Capacitor(c) => c.n1,
        Element::Inductor(l) => l.n1,
    }
}

/// The second terminal of an element (the positive one of a source).
pub open spec fn second_node<V>(e: Element<V>) -> usize {
    match e {
        Element::Resistor(r) => r.1,
        Element::VSource(s) => s.1,
        Element::ISource(s) => s.1,
        Element::Capacitor(c) => c.n2,
        Element::Inductor(l) => l.n2,
    }
}

/// Whether `n` is one of the two terminals of `e`.
pub open spec fn touches<V>(e: Element<V>, n: usize) -> bool {
    first_node(e) == n || second_node(e) == n
}

/// An element that the stamping rules know directly.
pub open spec fn is_primitive<V>(e: Element<V>) -> bool {
    e is Resistor || e is VSource || e is ISource
}

impl<V> Element<V> {
    /// The two terminals of the element, first then second.
    pub fn get_nodes(&self) -> (r: Vec<usize>)
        ensures
            r@ == seq![first_node(*self), second_node(*self)],
    {
        match self {
            Element::Resistor(resistor) => vec![resistor.0, resistor.1],
            Element::VSource(vsource) => vec![vsource.0, vsource.1],
            Element::ISource(isource) => vec![isource.0, isource.1],
            Element::Capacitor(capacitor) => vec![capacitor.n1, capacitor.n2],
            Element::Inductor(inductor) => vec![inductor.n1, inductor.n2],
        }
    }

    /// The two terminals of the element as a pair.
    pub fn terminals(&self) -> (r: (usize, usize))
        ensures
            r == (first_node(*self), second_node(*self)),
    {
        match self {
            Element::Resistor(resistor) => (resistor.0, resistor.1),
            Element::VSource(vsource) => (vsource.0, vsource.1),
            Element::ISource(isource) => (isource.0, isource.1),
            Element::Capacitor(capacitor) => (capacitor.n1, capacitor.n2),
            Element::Inductor(inductor) => (inductor.n1, inductor.n2),
        }
    }
}

impl<V> From<Resistor> for Element<V> {
    fn from(value: Resistor) -> (r: Self) {
        Element::Resistor(value)
    }
}

impl<V> vstd::std_specs::convert::FromSpecImpl<Resistor> for Element<V> {
    open spec fn obeys_from_spec() -> bool {
        true
    }

    open spec fn from_spec(value: Resistor) -> Self {
        Element::Resistor(value)
    }
}

impl<V> From<VSource<V>> for Element<V> {
    fn from(value: VSource<V>) -> (r: Self) {
        Element::VSource(value)
    }
}

impl<V> vstd::std_specs::convert::FromSpecImpl<VSource<V>> for Element<V> {
    open spec fn obeys_from_spec() -> bool {
        true
    }

    open spec fn from_spec(value: VSource<V>) -> Self {
        Element::VSource(value)
    }
}

impl<V> From<ISource<V>> for Element<V> {
    fn from(value: ISource<V>) -> (r: Self) {
        Element::ISource(value)
    }
}

impl<V> vstd::std_specs::convert::FromSpecImpl<ISource<V>> for Element<V> {
    open spec fn obeys_from_spec() -> bool {
        true
    }

    open spec fn from_spec(value: ISource<V>) -> Self {
        Element::ISource(value)
    }
}

impl<V> From<Capacitor<V>> for Element<V> {
    fn from(value: Capacitor<V>) -> (r: Self) {
        Element::Capacitor(value)
    }
}

impl<V> vstd::std_specs::convert::FromSpecImpl<Capacitor<V>> for Element<V> {
    open spec fn obeys_from_spec() -> bool {
        true
    }

    open spec fn from_spec(value: Capacitor<V>) -> Self {
        Element::Capacitor(value)
    }
}

impl<V> From<Inductor<V>> for Element<V> {
    fn from(value: Inductor<V>) -> (r: Self) {
        Element::Inductor(value)
    }
}

impl<V> vstd::std_specs::convert::FromSpecImpl<Inductor<V>> for Element<V> {
    open spec fn obeys_from_spec() -> bool {
        true
    }

    open spec fn from_spec(value: Inductor<V>) -> Self {
        Element::Inductor(value)
    }
}

} // verus!
