use evo_core::bond::{AngleGusset, Bond};
use evo_core::sortable_graph::SortableGraph;

type Graph = SortableGraph<u32, Bond<f64>, AngleGusset<f64>>;

#[test]
fn new_bond_has_empty_energy_slots() {
    let mut graph: Graph = Graph::new();
    let h1 = graph.add_node(1);
    let h2 = graph.add_node(2);
    let bond: Bond<f64> = Bond::new(h1, h2);
    assert_eq!(bond.node1_handle(), h1);
    assert_eq!(bond.node2_handle(), h2);
    assert_eq!(bond.energy_for_cell1(), None);
    assert_eq!(bond.energy_for_cell2(), None);
}

#[test]
fn deposited_energy_waits_for_the_opposite_endpoint() {
    let mut graph: Graph = Graph::new();
    let h1 = graph.add_node(1);
    let h2 = graph.add_node(2);
    let mut bond: Bond<f64> = Bond::new(h1, h2);

    bond.set_energy_from_cell(h1, 2.0);
    assert_eq!(bond.energy_for_cell2(), Some(2.0));
    assert_eq!(bond.energy_for_cell1(), None);

    bond.set_energy_from_cell(h2, 3.0);
    assert_eq!(bond.energy_for_cell1(), Some(3.0));
    assert_eq!(bond.energy_for_cell2(), Some(2.0));
}

#[test]
fn claiming_returns_and_empties_the_slot() {
    let mut graph: Graph = Graph::new();
    let h1 = graph.add_node(1);
    let h2 = graph.add_node(2);
    let mut bond: Bond<f64> = Bond::new(h1, h2);
    bond.set_energy_from_cell(h1, 2.0);
    bond.set_energy_from_cell(h2, 3.0);

    assert_eq!(bond.claim_energy_for_cell(h1), Some(3.0));
    assert_eq!(bond.energy_for_cell1(), None);
    assert_eq!(bond.energy_for_cell2(), Some(2.0));

    assert_eq!(bond.claim_energy_for_cell(h2), Some(2.0));
    assert_eq!(bond.energy_for_cell2(), None);

    assert_eq!(bond.claim_energy_for_cell(h1), None);
    assert_eq!(bond.claim_energy_for_cell(h2), None);
}

#[test]
fn bonds_ride_in_the_graph() {
    let mut graph: Graph = Graph::new();
    let h1 = graph.add_node(1);
    let h2 = graph.add_node(2);
    let bond: Bond<f64> = Bond::new(h1, h2);
    let e = graph.add_edge(bond, h1, h2, 1, 0);

    let mut b = *graph.edge(e);
    b.set_energy_from_cell(h1, 1.5);
    *graph.edge_mut(e) = b;

    assert_eq!(graph.edge(e).energy_for_cell2(), Some(1.5));
    assert_eq!(graph.edge_slot(h1, 1), Some(e));
    assert_eq!(graph.edge_slot(h2, 0), Some(e));
}

#[test]
fn gusset_reports_its_bonds_and_angle() {
    let mut graph: Graph = Graph::new();
    let a = graph.add_node(1);
    let b = graph.add_node(2);
    let c = graph.add_node(3);
    let ab = graph.add_edge(Bond::new(a, b), a, b, 0, 0);
    let bc = graph.add_edge(Bond::new(b, c), b, c, 1, 0);
    let gusset: AngleGusset<f64> = AngleGusset::new(ab, bc, 3.14159);
    assert_eq!(gusset.edge1_handle(), ab);
    assert_eq!(gusset.edge2_handle(), bc);
    assert_eq!(gusset.angle(), 3.14159);
    graph.add_meta_edge(gusset, ab, bc);
    assert_eq!(graph.meta_edge_count(), 1);
}
