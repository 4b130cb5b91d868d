use dc_mna::analysis::{dc_system, node_voltages, DcSystem};
use dc_mna::dc::apply_dc_equivalences;
use dc_mna::element::{Capacitor, Element, ISource, Inductor, Resistor, VSource};
use dc_mna::error::SolveError;
use dc_mna::nodes::{create_nodes_set, NodeIndex};
use dc_mna::system::{assemble, ConductanceStamp, IncidenceStamp};
use nalgebra::{DMatrix, DVector};

fn r(a: usize, b: usize, ohms: u32) -> Element<f64> {
    Element::Resistor(Resistor(a, b, ohms))
}

fn v(neg: usize, pos: usize, volts: f64) -> Element<f64> {
    Element::VSource(VSource(neg, pos, volts))
}

fn i(neg: usize, pos: usize, amps: f64) -> Element<f64> {
    Element::ISource(ISource(neg, pos, amps))
}

/// Sums the stamps into the dense system and solves it.
fn solve(elements: &[Element<f64>]) -> Result<Vec<f64>, SolveError> {
    let DcSystem { layout: _, system } = dc_system(elements, 0.0)?;
    let n = system.node_count;
    let m = system.source_count;
    let mut a = DMatrix::<f64>::zeros(n + m, n + m);
    let mut z = DVector::<f64>::zeros(n + m);
    for st in &system.conductances {
        let g = 1.0 / f64::from(st.resistance);
        if st.negative {
            a[(st.row, st.col)] -= g;
        } else {
            a[(st.row, st.col)] += g;
        }
    }
    for st in &system.incidences {
        let s = if st.positive { 1.0 } else { -1.0 };
        a[(st.row, n + st.branch)] = s;
        a[(n + st.branch, st.row)] = s;
    }
    for st in &system.injections {
        if st.negative {
            z[st.row] -= st.value;
        } else {
            z[st.row] += st.value;
        }
    }
    for (k, value) in system.source_values.iter().enumerate() {
        z[n + k] = *value;
    }
    let x = a.lu().solve(&z).ok_or(SolveError::SingularMatrix)?;
    Ok(node_voltages(x.as_slice(), n))
}

fn close(a: &[f64], b: &[f64]) -> bool {
    a.len() == b.len() && a.iter().zip(b).all(|(x, y)| (x - y).abs() < 1e-9)
}

#[test]
fn scenario_a_pinned_voltages() {
    let elts = vec![r(1, 2, 5), r(2, 0, 3), r(3, 0, 10), v(0, 1, 5.0), v(2, 3, 10.0), i(1, 2, 2.0)];
    let out = solve(&elts).unwrap();
    assert!(close(&out, &[5.0, 60.0 / 19.0, 250.0 / 19.0]), "{:?}", out);
}

#[test]
fn scenario_b_source_across_resistor() {
    let out = solve(&[r(0, 1, 10), v(0, 1, 5.0)]).unwrap();
    assert_eq!(out, vec![5.0]);
}

#[test]
fn scenario_c_node_only_behind_current_source_is_singular() {
    let out = solve(&[r(0, 1, 10), v(0, 1, 5.0), i(1, 2, 0.0)]);
    assert_eq!(out, Err(SolveError::SingularMatrix));
}

#[test]
fn scenario_d_empty_network() {
    let out = dc_system::<f64>(&[], 0.0);
    assert_eq!(out.unwrap_err(), SolveError::EmptyNetwork);
    assert_eq!(solve(&[]), Err(SolveError::EmptyNetwork));
}

#[test]
fn scenario_e_zero_resistance() {
    let out = dc_system(&[v(0, 1, 5.0), r(1, 0, 0)], 0.0);
    assert_eq!(out.unwrap_err(), SolveError::InvalidElement);
}

#[test]
fn voltage_count_is_nodes_minus_one() {
    let elts = vec![r(7, 3, 5), r(3, 11, 3), v(11, 7, 1.0), r(20, 3, 4)];
    let sys = dc_system(&elts, 0.0).unwrap();
    assert_eq!(sys.system.node_count, 3);
    assert_eq!(solve(&elts).unwrap().len(), 3);
}

#[test]
fn reference_is_least_node() {
    let elts = vec![r(9, 4, 5), r(4, 6, 3), v(6, 9, 1.0)];
    let layout = NodeIndex::from_elements(&elts).unwrap();
    assert_eq!(layout.reference, 4);
    assert_eq!(layout.nodes, vec![6, 9]);
    assert_eq!(layout.position(9), Some(1));
    assert_eq!(layout.position(4), None);
    assert_eq!(layout.position(5), None);
}

#[test]
fn nodes_are_sorted_and_unique() {
    let elts = vec![r(5, 2, 1), r(2, 5, 1), i(8, 0, 1.0), v(5, 5, 1.0)];
    assert_eq!(create_nodes_set(&elts), vec![0, 2, 5, 8]);
    assert_eq!(create_nodes_set::<f64>(&[]), Vec::<usize>::new());
}

#[test]
fn get_nodes_lists_both_terminals() {
    let c: Element<f64> = Element::Capacitor(Capacitor::new(3, 4, 1e-6));
    assert_eq!(c.get_nodes(), vec![3, 4]);
    let l: Element<f64> = Element::Inductor(Inductor::new(6, 1, 0.5));
    assert_eq!(l.get_nodes(), vec![6, 1]);
    assert_eq!(v(2, 9, 1.0).get_nodes(), vec![2, 9]);
}

#[test]
fn reordering_elements_keeps_voltages() {
    let a = vec![r(1, 2, 5), r(2, 0, 3), r(3, 0, 10), v(0, 1, 5.0), v(2, 3, 10.0), i(1, 2, 2.0)];
    let b = vec![i(1, 2, 2.0), r(3, 0, 10), v(0, 1, 5.0), r(1, 2, 5), v(2, 3, 10.0), r(2, 0, 3)];
    assert!(close(&solve(&a).unwrap(), &solve(&b).unwrap()));
}

#[test]
fn capacitor_acts_as_zero_current_source() {
    let with_c = vec![v(0, 1, 5.0), r(1, 2, 10), Element::Capacitor(Capacitor::new(2, 3, 1e-5)), r(3, 0, 10), r(2, 0, 10)];
    let with_i = vec![v(0, 1, 5.0), r(1, 2, 10), i(2, 3, 0.0), r(3, 0, 10), r(2, 0, 10)];
    assert_eq!(solve(&with_c).unwrap(), solve(&with_i).unwrap());
    assert!(close(&solve(&with_c).unwrap(), &[5.0, 2.5, 0.0]));
}

#[test]
fn inductor_acts_as_zero_voltage_source() {
    let with_l = vec![v(0, 1, 5.0), r(1, 2, 10), Element::Inductor(Inductor::new(2, 3, 1.0)), r(3, 0, 10)];
    let with_v = vec![v(0, 1, 5.0), r(1, 2, 10), v(2, 3, 0.0), r(3, 0, 10)];
    assert_eq!(solve(&with_l).unwrap(), solve(&with_v).unwrap());
    assert!(close(&solve(&with_l).unwrap(), &[5.0, 2.5, 2.5]));
}

#[test]
fn demo_network_voltages() {
    let elts = vec![
        v(0, 1, 5.0),
        r(1, 2, 10),
        Element::Capacitor(Capacitor::new(2, 3, 0.00001)),
        r(3, 0, 10),
        r(2, 4, 10),
        Element::Inductor(Inductor::new(4, 5, 1.0)),
        r(5, 3, 10),
    ];
    assert!(close(&solve(&elts).unwrap(), &[5.0, 3.75, 1.25, 2.5, 2.5]));
}

#[test]
fn dc_equivalences_replace_reactive_elements() {
    let elts = vec![
        Element::Capacitor(Capacitor::new(1, 2, 3.0)),
        r(2, 0, 4),
        Element::Inductor(Inductor::new(2, 3, 7.0)),
    ];
    let eq = apply_dc_equivalences(&elts, 0.0);
    assert_eq!(eq.len(), 3);
    assert!(matches!(eq[0], Element::ISource(ISource(1, 2, x)) if x == 0.0));
    assert!(matches!(eq[1], Element::Resistor(Resistor(2, 0, 4))));
    assert!(matches!(eq[2], Element::VSource(VSource(2, 3, x)) if x == 0.0));
}

#[test]
fn resistor_stamps_follow_the_rules() {
    let elts = vec![r(1, 2, 5), r(2, 0, 3)];
    let layout = NodeIndex::from_elements(&elts).unwrap();
    let sys = assemble(&elts, &layout).unwrap();
    let cs = |row, col, resistance, negative| ConductanceStamp { row, col, resistance, negative };
    assert_eq!(
        sys.conductances,
        vec![cs(0, 0, 5, false), cs(1, 1, 5, false), cs(0, 1, 5, true), cs(1, 0, 5, true), cs(1, 1, 3, false)]
    );
    assert_eq!(sys.source_count, 0);
}

#[test]
fn voltage_sources_take_branches_in_order() {
    let elts = vec![v(0, 2, 1.5), r(1, 2, 1), v(1, 0, 2.5), r(1, 0, 1)];
    let layout = NodeIndex::from_elements(&elts).unwrap();
    let sys = assemble(&elts, &layout).unwrap();
    let is = |row, branch, positive| IncidenceStamp { row, branch, positive };
    assert_eq!(sys.incidences, vec![is(1, 0, true), is(0, 1, false)]);
    assert_eq!(sys.source_values, vec![1.5, 2.5]);
    assert_eq!(sys.source_count, 2);
    assert_eq!(sys.node_count, 2);
}

#[test]
fn current_sources_inject_with_sign() {
    let elts = vec![i(1, 2, 0.75), r(1, 0, 1), r(2, 0, 1)];
    let layout = NodeIndex::from_elements(&elts).unwrap();
    let sys = assemble(&elts, &layout).unwrap();
    assert_eq!(sys.injections.len(), 2);
    assert_eq!((sys.injections[0].row, sys.injections[0].value, sys.injections[0].negative), (0, 0.75, true));
    assert_eq!((sys.injections[1].row, sys.injections[1].value, sys.injections[1].negative), (1, 0.75, false));
    assert!(close(&solve(&elts).unwrap(), &[-0.75, 0.75]));
}

#[test]
fn node_voltages_drop_branch_currents() {
    assert_eq!(node_voltages(&[1.0, 2.0, 3.0, 4.0], 2), vec![1.0, 2.0]);
    assert_eq!(node_voltages(&[1.0], 0), Vec::<f64>::new());
}

#[test]
fn into_wraps_each_kind() {
    let e: Element<f64> = Resistor(1, 2, 3).into();
    assert!(matches!(e, Element::Resistor(Resistor(1, 2, 3))));
    let e: Element<f64> = VSource(4, 5, 1.5).into();
    assert!(matches!(e, Element::VSource(VSource(4, 5, x)) if x == 1.5));
    let e: Element<f64> = ISource(6, 7, 2.5).into();
    assert!(matches!(e, Element::ISource(ISource(6, 7, x)) if x == 2.5));
    let e: Element<f64> = Capacitor::new(8, 9, 1e-6).into();
    assert!(matches!(e, Element::Capacitor(Capacitor { n1: 8, n2: 9, .. })));
    let e: Element<f64> = Inductor::new(1, 0, 2.0).into();
    assert!(matches!(e, Element::Inductor(Inductor { n1: 1, n2: 0, .. })));
}
