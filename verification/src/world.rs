//! Structural updates of the cell/bond graph at the end of a tick: each new
//! child bonds to its parent with the donated energy deposited for it, then
//! broken bonds go, then dead cells with everything attached to them. The
//! order matters: children first, so a fresh bond is never severed by a
//! stale handle.

use crate::bond::Bond;
use crate::sortable_graph::{EdgeHandle, NodeHandle, SortableGraph, MAX_BONDS};
use vstd::prelude::*;

verus! {

/// A child waiting to join the graph: who budded it, through which bond slot
/// of the parent, and what energy travels with it.
pub struct NewChildData<N, En> {
    pub parent: NodeHandle,
    pub bond_index_on_parent: usize,
    pub child: N,
    pub donated_energy: Option<En>,
}

/// Adds a budded child: a fresh node for it, a bond from the parent's named
/// bond slot to the child's slot 0, and the donated energy deposited in the
/// bond for the child to claim. Returns the child's and the bond's handles.
pub fn add_child_cell<N, En: Copy, M>(
    graph: &mut SortableGraph<N, Bond<En>, M>,
    parent: NodeHandle,
    bond_index_on_parent: usize,
    child: N,
    donated_energy: Option<En>,
) -> (handles: (NodeHandle, EdgeHandle))
    requires
        old(graph).wf(),
        old(graph).valid_node_handle(parent),
        bond_index_on_parent < MAX_BONDS,
    ensures
        final(graph).wf(),
        // the child sits after all existing nodes
        final(graph).node_count_spec() == old(graph).node_count_spec() + 1,
        final(graph).node_at_spec(old(graph).node_count_spec()) == child,
        final(graph).valid_node_handle(handles.0),
        !old(graph).valid_node_handle(handles.0),
        final(graph).node_index_of(handles.0) == old(graph).node_count_spec(),
        handles.0 != parent,
        // existing nodes keep payload, position and validity
        forall|h2: NodeHandle| #![trigger old(graph).valid_node_handle(h2)]
            old(graph).valid_node_handle(h2) ==> {
            &&& final(graph).valid_node_handle(h2)
            &&& final(graph).node_index_of(h2) == old(graph).node_index_of(h2)
            &&& final(graph).node_at_spec(final(graph).node_index_of(h2))
                == old(graph).node_at_spec(old(graph).node_index_of(h2))
        },
        forall|h2: NodeHandle| #![trigger final(graph).valid_node_handle(h2)]
            final(graph).valid_node_handle(h2) && h2 != handles.0
            ==> old(graph).valid_node_handle(h2),
        // the bond sits after all existing edges and joins parent and child
        final(graph).edge_count_spec() == old(graph).edge_count_spec() + 1,
        final(graph).valid_edge_handle(handles.1),
        !old(graph).valid_edge_handle(handles.1),
        final(graph).edge_index_of(handles.1) == old(graph).edge_count_spec(),
        final(graph).edge_nodes_at_spec(old(graph).edge_count_spec()) == (parent, handles.0),
        ({
            let b = final(graph).edge_at_spec(old(graph).edge_count_spec());
            &&& b.wf()
            &&& b.node1_spec() == parent
            &&& b.node2_spec() == handles.0
            &&& b.energy_for_cell1_spec() is None
            &&& b.energy_for_cell2_spec() == donated_energy
        }),
        // existing edges keep payload, endpoints, position and validity
        forall|eh: EdgeHandle| #![trigger old(graph).valid_edge_handle(eh)]
            old(graph).valid_edge_handle(eh) ==> {
            &&& final(graph).valid_edge_handle(eh)
            &&& final(graph).edge_index_of(eh) == old(graph).edge_index_of(eh)
            &&& final(graph).edge_at_spec(final(graph).edge_index_of(eh))
                == old(graph).edge_at_spec(old(graph).edge_index_of(eh))
            &&& final(graph).edge_nodes_at_spec(final(graph).edge_index_of(eh))
                == old(graph).edge_nodes_at_spec(old(graph).edge_index_of(eh))
        },
        forall|eh: EdgeHandle| #![trigger final(graph).valid_edge_handle(eh)]
            final(graph).valid_edge_handle(eh) && eh != handles.1
            ==> old(graph).valid_edge_handle(eh),
        // bond slots: the parent's named slot and the child's slot 0 hold the
        // new bond; every other slot is as it was, the child's others empty
        final(graph).edge_slot_spec(
            old(graph).node_index_of(parent),
            bond_index_on_parent as int,
        ) == Some(handles.1),
        final(graph).edge_slot_spec(old(graph).node_count_spec(), 0) == Some(handles.1),
        forall|j: int| 0 < j < MAX_BONDS
            ==> final(graph).edge_slot_spec(old(graph).node_count_spec(), j) is None,
        forall|i: int, j: int|
            0 <= i < old(graph).node_count_spec() && 0 <= j < MAX_BONDS
            && !(i == old(graph).node_index_of(parent) && j == bond_index_on_parent)
            ==> final(graph).edge_slot_spec(i, j) == old(graph).edge_slot_spec(i, j),
        // meta-edges are untouched
        forall|mh| #![trigger final(graph).valid_meta_edge_handle(mh)]
            final(graph).valid_meta_edge_handle(mh) == old(graph).valid_meta_edge_handle(mh),
        forall|mh| #![trigger final(graph).meta_edge_index_of(mh)]
            final(graph).meta_edge_index_of(mh) == old(graph).meta_edge_index_of(mh),
        forall|i: int| 0 <= i < final(graph).meta_edge_count_spec() ==> {
            &&& #[trigger] final(graph).meta_edge_at_spec(i) == old(graph).meta_edge_at_spec(i)
            &&& final(graph).meta_edge_edges_at_spec(i) == old(graph).meta_edge_edges_at_spec(i)
        },
        final(graph).meta_edge_count_spec() == old(graph).meta_edge_count_spec(),
{
    let ghost g0 = *old(graph);
    let child_handle = graph.add_node(child);
    let mut bond: Bond<En> = Bond::new(parent, child_handle);
    if let Some(energy) = donated_energy {
        bond.set_energy_from_cell(parent, energy);
    }
    let ghost g1 = *graph;
    let bond_handle = graph.add_edge(
        bond,
        parent,
        child_handle,
        bond_index_on_parent,
        0,
    );
    proof {
        SortableGraph::<N, Bond<En>, M>::lemma_observation_bounds(g0);
        SortableGraph::<N, Bond<En>, M>::lemma_observation_bounds(g1);
        SortableGraph::<N, Bond<En>, M>::lemma_observation_bounds(*graph);
        SortableGraph::<N, Bond<En>, M>::lemma_edges_unchanged_observations(g1, g0);
        SortableGraph::<N, Bond<En>, M>::lemma_meta_edges_unchanged_observations(g1, g0);
        SortableGraph::<N, Bond<En>, M>::lemma_meta_edges_unchanged_observations(*graph, g1);
        SortableGraph::<N, Bond<En>, M>::lemma_node_structure_unchanged_observations(*graph, g1);
        assert(g1.node_at_spec(g0.node_count_spec()) == child);
        assert(graph.node_count_spec() == g0.node_count_spec() + 1);
        assert(graph.node_at_spec(g0.node_count_spec()) == child);
        assert forall|j: int| 0 < j < MAX_BONDS implies
            graph.edge_slot_spec(g0.node_count_spec(), j) is None by {
            assert(g1.edge_slot_spec(g0.node_count_spec(), j) is None);
            assert(graph.edge_slot_spec(g0.node_count_spec(), j)
                == g1.edge_slot_spec(g0.node_count_spec(), j));
        }
        assert forall|h2: NodeHandle| #![trigger g0.valid_node_handle(h2)]
            g0.valid_node_handle(h2) implies {
            &&& graph.valid_node_handle(h2)
            &&& graph.node_index_of(h2) == g0.node_index_of(h2)
            &&& graph.node_at_spec(graph.node_index_of(h2))
                == g0.node_at_spec(g0.node_index_of(h2))
        } by {
            assert(g1.valid_node_handle(h2) && g1.node_index_of(h2) == g0.node_index_of(h2));
            assert(g1.node_at_spec(g0.node_index_of(h2)) == g0.node_at_spec(g0.node_index_of(h2)));
            assert(graph.valid_node_handle(h2));
            assert(graph.node_index_of(h2) == g1.node_index_of(h2));
            assert(graph.node_at_spec(graph.node_index_of(h2))
                == g1.node_at_spec(g1.node_index_of(h2)));
        }
        assert forall|eh: EdgeHandle| #![trigger g0.valid_edge_handle(eh)]
            g0.valid_edge_handle(eh) implies {
            &&& graph.valid_edge_handle(eh)
            &&& graph.edge_index_of(eh) == g0.edge_index_of(eh)
            &&& graph.edge_at_spec(graph.edge_index_of(eh))
                == g0.edge_at_spec(g0.edge_index_of(eh))
            &&& graph.edge_nodes_at_spec(graph.edge_index_of(eh))
                == g0.edge_nodes_at_spec(g0.edge_index_of(eh))
        } by {
            assert(g1.valid_edge_handle(eh));
            assert(g1.edge_index_of(eh) == g0.edge_index_of(eh));
            assert(g1.edge_at_spec(g0.edge_index_of(eh)) == g0.edge_at_spec(g0.edge_index_of(eh)));
            assert(graph.valid_edge_handle(eh));
            assert(graph.edge_index_of(eh) == g1.edge_index_of(eh));
            assert(graph.edge_at_spec(graph.edge_index_of(eh))
                == g1.edge_at_spec(g1.edge_index_of(eh)));
            assert(graph.edge_nodes_at_spec(graph.edge_index_of(eh))
                == g1.edge_nodes_at_spec(g1.edge_index_of(eh)));
        }
    }
    (child_handle, bond_handle)
}

/// The structural update at the end of a tick, in the spec's order: every
/// budded child joins the graph bonded to its parent with its donation
/// deposited, then the broken bonds are removed, then the dead cells with
/// every bond and gusset attached to them. Children come first so a fresh
/// bond is never severed by a stale handle. Returns the children's handles.
#[verifier::rlimit(50)]
pub fn update_cell_graph<N, En: Copy, M>(
    graph: &mut SortableGraph<N, Bond<En>, M>,
    new_children: Vec<NewChildData<N, En>>,
    broken_bond_handles: &Vec<EdgeHandle>,
    dead_cell_handles: &Vec<NodeHandle>,
) -> (child_handles: Vec<NodeHandle>)
    requires
        old(graph).wf(),
        forall|k: int| 0 <= k < new_children@.len() ==> {
            &&& old(graph).valid_node_handle((#[trigger] new_children@[k]).parent)
            &&& new_children@[k].bond_index_on_parent < MAX_BONDS
        },
        forall|k: int| 0 <= k < broken_bond_handles@.len()
            ==> old(graph).valid_edge_handle(#[trigger] broken_bond_handles@[k]),
        forall|k: int| 0 <= k < dead_cell_handles@.len()
            ==> old(graph).valid_node_handle(#[trigger] dead_cell_handles@[k]),
    ensures
        final(graph).wf(),
        // the dead cells and the broken bonds are gone
        forall|k: int| 0 <= k < dead_cell_handles@.len()
            ==> !final(graph).valid_node_handle(#[trigger] dead_cell_handles@[k]),
        forall|k: int| 0 <= k < broken_bond_handles@.len()
            ==> !final(graph).valid_edge_handle(#[trigger] broken_bond_handles@[k]),
        // no remaining cell is a dead one, and no remaining bond touches one
        forall|h2: NodeHandle| #![trigger final(graph).valid_node_handle(h2)]
            final(graph).valid_node_handle(h2) ==> !dead_cell_handles@.contains(h2),
        forall|eh: EdgeHandle| #![trigger final(graph).valid_edge_handle(eh)]
            final(graph).valid_edge_handle(eh) ==> {
            &&& !dead_cell_handles@.contains(final(graph).edge_node1_spec(eh))
            &&& !dead_cell_handles@.contains(final(graph).edge_node2_spec(eh))
        },
        // cells neither dead nor new keep their payload
        forall|h2: NodeHandle| #![trigger old(graph).valid_node_handle(h2)]
            old(graph).valid_node_handle(h2) && !dead_cell_handles@.contains(h2) ==> {
            &&& final(graph).valid_node_handle(h2)
            &&& final(graph).node_at_spec(final(graph).node_index_of(h2))
                == old(graph).node_at_spec(old(graph).node_index_of(h2))
        },
        // every child is in the graph, and buds of surviving parents hang on
        // a bond carrying the donation for the child
        child_handles@.len() == new_children@.len(),
        forall|k: int| 0 <= k < new_children@.len() ==> {
            &&& final(graph).valid_node_handle(#[trigger] child_handles@[k])
            &&& final(graph).node_at_spec(final(graph).node_index_of(child_handles@[k]))
                == new_children@[k].child
        },
        forall|k: int|
            0 <= k < new_children@.len()
            && !dead_cell_handles@.contains((#[trigger] new_children@[k]).parent) ==> {
            let sl = final(graph).edge_slot_spec(
                final(graph).node_index_of(child_handles@[k]),
                0,
            );
            &&& sl is Some
            &&& final(graph).valid_edge_handle(sl->0)
            &&& final(graph).edge_node1_spec(sl->0) == new_children@[k].parent
            &&& final(graph).edge_node2_spec(sl->0) == child_handles@[k]
            &&& final(graph).edge_at_spec(
                final(graph).edge_index_of(sl->0),
            ).energy_for_cell2_spec() == new_children@[k].donated_energy
        },
{
    let ghost g0 = *old(graph);
    let n = new_children.len();
    let mut remaining = new_children;
    let mut child_handles: Vec<NodeHandle> = Vec::new();
    let ghost mut bond_handles: Seq<EdgeHandle> = Seq::empty();
    let mut k: usize = 0;
    proof {
        assert(remaining@ =~= new_children@.subrange(0, n as int));
    }
    while k < n
        invariant
            graph.wf(),
            g0.wf(),
            n == new_children@.len(),
            k <= n,
            remaining@ == new_children@.subrange(k as int, n as int),
            forall|t: int| 0 <= t < new_children@.len() ==> {
                &&& g0.valid_node_handle((#[trigger] new_children@[t]).parent)
                &&& new_children@[t].bond_index_on_parent < MAX_BONDS
            },
            forall|t: int| 0 <= t < broken_bond_handles@.len()
                ==> g0.valid_edge_handle(#[trigger] broken_bond_handles@[t]),
            forall|t: int| 0 <= t < dead_cell_handles@.len()
                ==> g0.valid_node_handle(#[trigger] dead_cell_handles@[t]),
            // everything the graph held at entry is still there, unchanged
            forall|h2: NodeHandle| #![trigger g0.valid_node_handle(h2)]
                g0.valid_node_handle(h2) ==> {
                &&& graph.valid_node_handle(h2)
                &&& graph.node_at_spec(graph.node_index_of(h2))
                    == g0.node_at_spec(g0.node_index_of(h2))
            },
            forall|eh: EdgeHandle| #![trigger g0.valid_edge_handle(eh)]
                g0.valid_edge_handle(eh) ==> graph.valid_edge_handle(eh),
            // the children added so far, each bonded to its parent
            child_handles@.len() == k,
            bond_handles.len() == k,
            forall|t: int| 0 <= t < k ==> {
                &&& graph.valid_node_handle(#[trigger] child_handles@[t])
                &&& !g0.valid_node_handle(child_handles@[t])
                &&& graph.node_at_spec(graph.node_index_of(child_handles@[t]))
                    == new_children@[t].child
                &&& graph.valid_edge_handle(bond_handles[t])
                &&& !g0.valid_edge_handle(bond_handles[t])
                &&& graph.edge_slot_spec(graph.node_index_of(child_handles@[t]), 0)
                    == Some(bond_handles[t])
                &&& graph.edge_node1_spec(bond_handles[t]) == new_children@[t].parent
                &&& graph.edge_node2_spec(bond_handles[t]) == child_handles@[t]
                &&& graph.edge_at_spec(
                    graph.edge_index_of(bond_handles[t]),
                ).energy_for_cell2_spec() == new_children@[t].donated_energy
            },
        decreases n - k,
    {
        proof {
            assert(remaining@[0] == new_children@[k as int]);
        }
        let data = remaining.remove(0);
        let ghost pre = *graph;
        proof {
            assert(graph.valid_node_handle(data.parent));
        }
        let (ch, bh) = add_child_cell(
            graph,
            data.parent,
            data.bond_index_on_parent,
            data.child,
            data.donated_energy,
        );
        child_handles.push(ch);
        proof {
            bond_handles = bond_handles.push(bh);
            SortableGraph::<N, Bond<En>, M>::lemma_observation_bounds(pre);
            SortableGraph::<N, Bond<En>, M>::lemma_observation_bounds(*graph);
            assert(remaining@ =~= new_children@.subrange(k + 1, n as int));
            assert forall|t: int| 0 <= t < k + 1 implies {
                &&& graph.valid_node_handle(#[trigger] child_handles@[t])
                &&& !g0.valid_node_handle(child_handles@[t])
                &&& graph.node_at_spec(graph.node_index_of(child_handles@[t]))
                    == new_children@[t].child
                &&& graph.valid_edge_handle(bond_handles[t])
                &&& !g0.valid_edge_handle(bond_handles[t])
                &&& graph.edge_slot_spec(graph.node_index_of(child_handles@[t]), 0)
                    == Some(bond_handles[t])
                &&& graph.edge_node1_spec(bond_handles[t]) == new_children@[t].parent
                &&& graph.edge_node2_spec(bond_handles[t]) == child_handles@[t]
                &&& graph.edge_at_spec(
                    graph.edge_index_of(bond_handles[t]),
                ).energy_for_cell2_spec() == new_children@[t].donated_energy
            } by {
                if t < k {
                    assert(pre.valid_node_handle(child_handles@[t]));
                    assert(pre.valid_edge_handle(bond_handles[t]));
                    assert(graph.node_index_of(child_handles@[t])
                        == pre.node_index_of(child_handles@[t]));
                    assert(graph.edge_index_of(bond_handles[t])
                        == pre.edge_index_of(bond_handles[t]));
                    assert(pre.valid_node_handle(data.parent));
                    assert(child_handles@[t] != data.parent);
                    assert(pre.node_index_of(child_handles@[t])
                        != pre.node_index_of(data.parent));
                } else {
                    if g0.valid_node_handle(ch) {
                        assert(pre.valid_node_handle(ch));
                        assert(false);
                    }
                    if g0.valid_edge_handle(bh) {
                        assert(pre.valid_edge_handle(bh));
                        assert(false);
                    }
                }
            }
        }
        k = k + 1;
    }
    let ghost g1 = *graph;
    graph.remove_edges(broken_bond_handles);
    let ghost g2 = *graph;
    proof {
        SortableGraph::<N, Bond<En>, M>::lemma_node_structure_unchanged_observations(g2, g1);
        assert forall|t: int| 0 <= t < dead_cell_handles@.len() implies
            graph.valid_node_handle(#[trigger] dead_cell_handles@[t]) by {
            assert(g1.valid_node_handle(dead_cell_handles@[t]));
        }
    }
    graph.remove_nodes(dead_cell_handles);
    proof {
        SortableGraph::<N, Bond<En>, M>::lemma_observation_bounds(g0);
        SortableGraph::<N, Bond<En>, M>::lemma_observation_bounds(g1);
        SortableGraph::<N, Bond<En>, M>::lemma_observation_bounds(g2);
        SortableGraph::<N, Bond<En>, M>::lemma_observation_bounds(*graph);

        // the broken bonds went in the first removal and never came back
        assert forall|t: int| 0 <= t < broken_bond_handles@.len() implies
            !graph.valid_edge_handle(#[trigger] broken_bond_handles@[t]) by {
            if graph.valid_edge_handle(broken_bond_handles@[t]) {
                assert(g2.valid_edge_handle(broken_bond_handles@[t]));
                assert(false);
            }
        }

        // survivors among the entry cells
        assert forall|h2: NodeHandle| #![trigger g0.valid_node_handle(h2)]
            g0.valid_node_handle(h2) && !dead_cell_handles@.contains(h2) implies {
            &&& graph.valid_node_handle(h2)
            &&& graph.node_at_spec(graph.node_index_of(h2))
                == g0.node_at_spec(g0.node_index_of(h2))
        } by {
            assert(g1.valid_node_handle(h2));
            assert(g2.valid_node_handle(h2) && g2.node_index_of(h2) == g1.node_index_of(h2));
            assert(g2.node_at_spec(g2.node_index_of(h2))
                == g1.node_at_spec(g1.node_index_of(h2)));
            assert(graph.valid_node_handle(h2));
        }

        // the children survive: they are fresh, so never in the dead list
        assert forall|t: int| 0 <= t < new_children@.len() implies {
            &&& graph.valid_node_handle(#[trigger] child_handles@[t])
            &&& graph.node_at_spec(graph.node_index_of(child_handles@[t]))
                == new_children@[t].child
        } by {
            if dead_cell_handles@.contains(child_handles@[t]) {
                let w = choose|w: int|
                    0 <= w < dead_cell_handles@.len()
                        && dead_cell_handles@[w] == child_handles@[t];
                assert(g0.valid_node_handle(child_handles@[t]));
                assert(false);
            }
            assert(g1.valid_node_handle(child_handles@[t]));
            assert(g2.valid_node_handle(child_handles@[t]));
            assert(g2.node_at_spec(g2.node_index_of(child_handles@[t]))
                == g1.node_at_spec(g1.node_index_of(child_handles@[t])));
        }

        // a surviving parent still hangs on to its bud's bond
        assert forall|t: int|
            0 <= t < new_children@.len()
            && !dead_cell_handles@.contains((#[trigger] new_children@[t]).parent) implies {
            let sl = graph.edge_slot_spec(graph.node_index_of(child_handles@[t]), 0);
            &&& sl is Some
            &&& graph.valid_edge_handle(sl->0)
            &&& graph.edge_node1_spec(sl->0) == new_children@[t].parent
            &&& graph.edge_node2_spec(sl->0) == child_handles@[t]
            &&& graph.edge_at_spec(graph.edge_index_of(sl->0)).energy_for_cell2_spec()
                == new_children@[t].donated_energy
        } by {
            let ch = child_handles@[t];
            let bh = bond_handles[t];
            if dead_cell_handles@.contains(ch) {
                let w = choose|w: int|
                    0 <= w < dead_cell_handles@.len() && dead_cell_handles@[w] == ch;
                assert(g0.valid_node_handle(ch));
                assert(false);
            }
            if broken_bond_handles@.contains(bh) {
                let w = choose|w: int|
                    0 <= w < broken_bond_handles@.len() && broken_bond_handles@[w] == bh;
                assert(g0.valid_edge_handle(bh));
                assert(false);
            }
            assert(g1.valid_edge_handle(bh));
            assert(g2.valid_edge_handle(bh));
            assert(g2.edge_at_spec(g2.edge_index_of(bh))
                == g1.edge_at_spec(g1.edge_index_of(bh)));
            assert(g2.edge_nodes_at_spec(g2.edge_index_of(bh))
                == g1.edge_nodes_at_spec(g1.edge_index_of(bh)));
            assert(g1.valid_node_handle(ch));
            assert(g2.valid_node_handle(ch) && g2.node_index_of(ch) == g1.node_index_of(ch));
            assert(g2.edge_slot_spec(g2.node_index_of(ch), 0)
                == g1.edge_slot_spec(g1.node_index_of(ch), 0));
            assert(g2.edge_node1_spec(bh) == new_children@[t].parent);
            assert(g2.edge_node2_spec(bh) == ch);
            assert(graph.valid_edge_handle(bh));
            assert(graph.edge_slot_spec(graph.node_index_of(ch), 0) == ({
                let sl = g2.edge_slot_spec(g2.node_index_of(ch), 0);
                if sl is Some && !dead_cell_handles@.contains(g2.edge_node1_spec(sl->0))
                    && !dead_cell_handles@.contains(g2.edge_node2_spec(sl->0)) {
                    sl
                } else {
                    None
                }
            }));
            assert(graph.edge_slot_spec(graph.node_index_of(ch), 0) == Some(bh));
        }
    }
    child_handles
}

} // verus!
