use evo_core::bond::Bond;
use evo_core::sortable_graph::SortableGraph;
use evo_core::world::{add_child_cell, update_cell_graph, NewChildData};

type Graph = SortableGraph<u32, Bond<f64>, u32>;

#[test]
fn child_joins_bonded_to_its_parent_with_the_donation_deposited() {
    let mut graph: Graph = Graph::new();
    let parent = graph.add_node(1);
    let (child, bond) = add_child_cell(&mut graph, parent, 2, 42, Some(5.0));

    assert_eq!(graph.node_count(), 2);
    assert_eq!(*graph.node(child), 42);
    assert_eq!(graph.edge_count(), 1);
    assert_eq!(graph.edge_node1(bond), parent);
    assert_eq!(graph.edge_node2(bond), child);
    assert_eq!(graph.edge_slot(parent, 2), Some(bond));
    assert_eq!(graph.edge_slot(child, 0), Some(bond));
    assert_eq!(graph.edge(bond).energy_for_cell1(), None);
    assert_eq!(graph.edge(bond).energy_for_cell2(), Some(5.0));
}

#[test]
fn structural_update_runs_children_then_bonds_then_deaths() {
    let mut graph: Graph = Graph::new();
    let a = graph.add_node(1);
    let b = graph.add_node(2);
    let c = graph.add_node(3);
    let ab = graph.add_edge(Bond::new(a, b), a, b, 0, 0);

    let children = vec![NewChildData {
        parent: a,
        bond_index_on_parent: 2,
        child: 9,
        donated_energy: Some(4.0),
    }];
    let child_handles = update_cell_graph(&mut graph, children, &vec![ab], &vec![c]);

    assert_eq!(child_handles.len(), 1);
    let child = child_handles[0];
    assert_eq!(graph.node_count(), 3);
    assert!(graph.is_valid_node_handle(a));
    assert!(graph.is_valid_node_handle(b));
    assert!(!graph.is_valid_node_handle(c));
    assert!(!graph.is_valid_edge_handle(ab));
    assert_eq!(graph.edge_count(), 1);
    assert_eq!(*graph.node(child), 9);
    let bond = graph.edge_slot(child, 0).unwrap();
    assert_eq!(graph.edge_node1(bond), a);
    assert_eq!(graph.edge_node2(bond), child);
    assert_eq!(graph.edge(bond).energy_for_cell2(), Some(4.0));
    assert_eq!(graph.edge_slot(a, 0), None);
    assert_eq!(graph.edge_slot(a, 2), Some(bond));
    assert_eq!(graph.edge_slot(b, 0), None);
}

#[test]
fn a_dead_parents_bud_outlives_it_without_the_bond() {
    let mut graph: Graph = Graph::new();
    let a = graph.add_node(1);
    let children = vec![NewChildData {
        parent: a,
        bond_index_on_parent: 0,
        child: 7,
        donated_energy: Some(1.0),
    }];
    let child_handles = update_cell_graph(&mut graph, children, &vec![], &vec![a]);

    let child = child_handles[0];
    assert_eq!(graph.node_count(), 1);
    assert!(!graph.is_valid_node_handle(a));
    assert!(graph.is_valid_node_handle(child));
    assert_eq!(*graph.node(child), 7);
    assert_eq!(graph.edge_count(), 0);
    assert_eq!(graph.edge_slot(child, 0), None);
}
