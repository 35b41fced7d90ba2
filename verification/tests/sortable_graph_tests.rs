use evo_core::sortable_graph::{SortableGraph, MAX_BONDS};

type Graph = SortableGraph<u32, u32, u32>;

#[test]
fn adds_and_looks_up_nodes() {
    let mut graph: Graph = Graph::new();
    let h1 = graph.add_node(10);
    let h2 = graph.add_node(20);
    assert_ne!(h1, h2);
    assert_eq!(graph.node_count(), 2);
    assert_eq!(*graph.node(h1), 10);
    assert_eq!(*graph.node(h2), 20);
    assert_eq!(*graph.node_at(0), 10);
    assert_eq!(*graph.node_at(1), 20);
    assert_eq!(graph.node_handle_at(0), h1);
    assert_eq!(graph.node_handle_at(1), h2);
    assert!(graph.is_valid_node_handle(h1));
    assert!(graph.is_valid_node_handle(h2));
}

#[test]
fn mutates_node_through_handle() {
    let mut graph: Graph = Graph::new();
    let h = graph.add_node(1);
    *graph.node_mut(h) = 5;
    assert_eq!(*graph.node(h), 5);
}

#[test]
fn new_node_has_empty_bond_slots() {
    let mut graph: Graph = Graph::new();
    let h = graph.add_node(0);
    for slot in 0..MAX_BONDS {
        assert!(!graph.has_edge(h, slot));
        assert_eq!(graph.edge_slot(h, slot), None);
    }
}

#[test]
fn add_edge_records_bond_slots() {
    let mut graph: Graph = Graph::new();
    let h1 = graph.add_node(1);
    let h2 = graph.add_node(2);
    let e = graph.add_edge(77, h1, h2, 1, 0);
    assert_eq!(graph.edge_count(), 1);
    assert_eq!(*graph.edge(e), 77);
    assert_eq!(graph.edge_node1(e), h1);
    assert_eq!(graph.edge_node2(e), h2);
    assert_eq!(graph.edge_slot(h1, 1), Some(e));
    assert_eq!(graph.edge_slot(h2, 0), Some(e));
    assert!(!graph.has_edge(h1, 0));
    assert!(!graph.has_edge(h2, 1));
}

#[test]
fn removing_a_node_cascades_to_edges_and_meta_edges() {
    let mut graph: Graph = Graph::new();
    let a = graph.add_node(1);
    let b = graph.add_node(2);
    let c = graph.add_node(3);
    let ab = graph.add_edge(12, a, b, 0, 0);
    let bc = graph.add_edge(23, b, c, 1, 0);
    graph.add_meta_edge(99, ab, bc);
    assert_eq!(graph.meta_edge_count(), 1);

    graph.remove_nodes(&vec![b]);

    assert_eq!(graph.node_count(), 2);
    assert_eq!(graph.edge_count(), 0);
    assert_eq!(graph.meta_edge_count(), 0);
    assert!(!graph.is_valid_node_handle(b));
    assert!(!graph.is_valid_edge_handle(ab));
    assert!(!graph.is_valid_edge_handle(bc));
    assert!(graph.is_valid_node_handle(a));
    assert!(graph.is_valid_node_handle(c));
    assert_eq!(*graph.node(a), 1);
    assert_eq!(*graph.node(c), 3);
    assert_eq!(graph.edge_slot(a, 0), None);
    assert_eq!(graph.edge_slot(c, 0), None);
}

#[test]
fn removing_an_edge_keeps_other_edges_and_drops_gussets() {
    let mut graph: Graph = Graph::new();
    let a = graph.add_node(1);
    let b = graph.add_node(2);
    let c = graph.add_node(3);
    let ab = graph.add_edge(12, a, b, 0, 0);
    let bc = graph.add_edge(23, b, c, 1, 0);
    graph.add_meta_edge(99, ab, bc);

    graph.remove_edges(&vec![ab]);

    assert_eq!(graph.edge_count(), 1);
    assert_eq!(graph.meta_edge_count(), 0);
    assert!(!graph.is_valid_edge_handle(ab));
    assert!(graph.is_valid_edge_handle(bc));
    assert_eq!(*graph.edge(bc), 23);
    assert_eq!(graph.edge_slot(a, 0), None);
    assert_eq!(graph.edge_slot(b, 0), None);
    assert_eq!(graph.edge_slot(b, 1), Some(bc));
    assert_eq!(graph.edge_slot(c, 0), Some(bc));
}

#[test]
fn surviving_nodes_keep_their_order() {
    let mut graph: Graph = Graph::new();
    let a = graph.add_node(1);
    let b = graph.add_node(2);
    let c = graph.add_node(3);
    let d = graph.add_node(4);

    graph.remove_nodes(&vec![b]);

    assert_eq!(graph.node_count(), 3);
    assert_eq!(*graph.node_at(0), 1);
    assert_eq!(*graph.node_at(1), 3);
    assert_eq!(*graph.node_at(2), 4);
    assert_eq!(graph.node_handle_at(0), a);
    assert_eq!(graph.node_handle_at(1), c);
    assert_eq!(graph.node_handle_at(2), d);
}

#[test]
fn stale_handles_stay_invalid_after_slot_reuse() {
    let mut graph: Graph = Graph::new();
    let a = graph.add_node(1);
    graph.remove_nodes(&vec![a]);
    assert!(!graph.is_valid_node_handle(a));

    let b = graph.add_node(2);
    assert!(graph.is_valid_node_handle(b));
    assert!(!graph.is_valid_node_handle(a));
    assert_ne!(a, b);
    assert_eq!(*graph.node(b), 2);
}

#[test]
fn edge_mutation_reaches_the_stored_edge() {
    let mut graph: Graph = Graph::new();
    let a = graph.add_node(1);
    let b = graph.add_node(2);
    let e = graph.add_edge(0, a, b, 0, 0);
    *graph.edge_mut(e) = 41;
    assert_eq!(*graph.edge(e), 41);
    assert_eq!(*graph.edge_at(0), 41);
    assert_eq!(graph.edge_handle_at(0), e);
    assert_eq!(graph.edge_nodes_at(0), (a, b));
}

#[test]
fn removing_one_corner_of_a_triangle_spares_the_far_edge() {
    let mut graph: Graph = Graph::new();
    let a = graph.add_node(1);
    let b = graph.add_node(2);
    let c = graph.add_node(3);
    let ab = graph.add_edge(12, a, b, 0, 0);
    let bc = graph.add_edge(23, b, c, 1, 0);
    let ca = graph.add_edge(31, c, a, 1, 1);

    graph.remove_nodes(&vec![b]);

    assert_eq!(graph.node_count(), 2);
    assert_eq!(graph.edge_count(), 1);
    assert!(!graph.is_valid_edge_handle(ab));
    assert!(!graph.is_valid_edge_handle(bc));
    assert!(graph.is_valid_edge_handle(ca));
    assert_eq!(graph.edge_node1(ca), c);
    assert_eq!(graph.edge_node2(ca), a);
    assert_eq!(graph.edge_slot(a, 0), None);
    assert_eq!(graph.edge_slot(a, 1), Some(ca));
    assert_eq!(graph.edge_slot(c, 0), None);
    assert_eq!(graph.edge_slot(c, 1), Some(ca));
}

#[test]
fn bulk_removal_takes_several_nodes_at_once() {
    let mut graph: Graph = Graph::new();
    let mut handles = vec![];
    for payload in 0..6 {
        handles.push(graph.add_node(payload));
    }
    graph.remove_nodes(&vec![handles[1], handles[3], handles[5]]);

    assert_eq!(graph.node_count(), 3);
    assert_eq!(*graph.node_at(0), 0);
    assert_eq!(*graph.node_at(1), 2);
    assert_eq!(*graph.node_at(2), 4);
    assert!(graph.is_valid_node_handle(handles[0]));
    assert!(!graph.is_valid_node_handle(handles[1]));
    assert!(graph.is_valid_node_handle(handles[2]));
}

#[test]
fn meta_edge_accessors_report_their_edges() {
    let mut graph: Graph = Graph::new();
    let a = graph.add_node(1);
    let b = graph.add_node(2);
    let c = graph.add_node(3);
    let ab = graph.add_edge(12, a, b, 0, 0);
    let bc = graph.add_edge(23, b, c, 1, 0);
    let g = graph.add_meta_edge(7, ab, bc);
    assert_eq!(*graph.meta_edge(g), 7);
    assert_eq!(*graph.meta_edge_at(0), 7);
    assert_eq!(graph.meta_edge_edges_at(0), (ab, bc));
}
