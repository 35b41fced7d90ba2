//! A container of nodes, edges and meta-edges with stable generational
//! handles. A handle is a slot index plus a generation counter; a slot that
//! is reused after a removal bumps its generation, so stale handles can never
//! alias a newer occupant. Dense storage may be compacted by bulk removals,
//! but surviving handles stay valid and keep their relative order.

use vstd::prelude::*;

verus! {

/// Number of bond slots each node carries, indexed by "bond slot on this cell".
pub const MAX_BONDS: usize = 8;

#[derive(Clone, Copy, Debug, PartialEq, Eq, PartialOrd, Ord, Hash, Structural)]
pub struct NodeHandle {
    slot: usize,
    generation: u64,
}

#[derive(Clone, Copy, Debug, PartialEq, Eq, PartialOrd, Ord, Hash, Structural)]
pub struct EdgeHandle {
    slot: usize,
    generation: u64,
}

#[derive(Clone, Copy, Debug, PartialEq, Eq, PartialOrd, Ord, Hash, Structural)]
pub struct MetaEdgeHandle {
    slot: usize,
    generation: u64,
}

pub struct SortableGraph<N, E, M> {
    nodes: Vec<N>,
    node_handles: Vec<NodeHandle>,
    node_edge_slots: Vec<Vec<Option<EdgeHandle>>>,
    node_slot_map: Vec<Option<usize>>,
    node_slot_gen: Vec<u64>,
    node_free_slots: Vec<usize>,
    edges: Vec<E>,
    edge_handles: Vec<EdgeHandle>,
    edge_nodes: Vec<(NodeHandle, NodeHandle)>,
    edge_slot_map: Vec<Option<usize>>,
    edge_slot_gen: Vec<u64>,
    edge_free_slots: Vec<usize>,
    meta_edges: Vec<M>,
    meta_edge_handles: Vec<MetaEdgeHandle>,
    meta_edge_edges: Vec<(EdgeHandle, EdgeHandle)>,
    meta_slot_map: Vec<Option<usize>>,
    meta_slot_gen: Vec<u64>,
    meta_free_slots: Vec<usize>,
}

impl<N, E, M> SortableGraph<N, E, M> {
    // ----- spec views ---------------------------------------------------

    pub closed spec fn node_count_spec(&self) -> int {
        self.nodes@.len() as int
    }

    pub closed spec fn node_at_spec(&self, i: int) -> N {
        self.nodes@[i]
    }

    pub closed spec fn node_handle_at_spec(&self, i: int) -> NodeHandle {
        self.node_handles@[i]
    }

    pub closed spec fn edge_slot_spec(&self, i: int, bond_index: int) -> Option<EdgeHandle> {
        self.node_edge_slots@[i]@[bond_index]
    }

    pub closed spec fn valid_node_handle(&self, h: NodeHandle) -> bool {
        &&& h.slot < self.node_slot_map@.len()
        &&& self.node_slot_map@[h.slot as int] is Some
        &&& {
            let i = self.node_slot_map@[h.slot as int]->0 as int;
            &&& 0 <= i < self.node_handles@.len()
            &&& self.node_handles@[i] == h
        }
    }

    pub closed spec fn node_index_of(&self, h: NodeHandle) -> int {
        self.node_slot_map@[h.slot as int]->0 as int
    }

    pub closed spec fn edge_count_spec(&self) -> int {
        self.edges@.len() as int
    }

    pub closed spec fn edge_at_spec(&self, i: int) -> E {
        self.edges@[i]
    }

    pub closed spec fn edge_handle_at_spec(&self, i: int) -> EdgeHandle {
        self.edge_handles@[i]
    }

    pub closed spec fn edge_nodes_at_spec(&self, i: int) -> (NodeHandle, NodeHandle) {
        self.edge_nodes@[i]
    }

    pub closed spec fn valid_edge_handle(&self, h: EdgeHandle) -> bool {
        &&& h.slot < self.edge_slot_map@.len()
        &&& self.edge_slot_map@[h.slot as int] is Some
        &&& {
            let i = self.edge_slot_map@[h.slot as int]->0 as int;
            &&& 0 <= i < self.edge_handles@.len()
            &&& self.edge_handles@[i] == h
        }
    }

    pub closed spec fn edge_index_of(&self, h: EdgeHandle) -> int {
        self.edge_slot_map@[h.slot as int]->0 as int
    }

    /// First endpoint of the edge with handle `h`.
    pub open spec fn edge_node1_spec(&self, h: EdgeHandle) -> NodeHandle {
        self.edge_nodes_at_spec(self.edge_index_of(h)).0
    }

    /// Second endpoint of the edge with handle `h`.
    pub open spec fn edge_node2_spec(&self, h: EdgeHandle) -> NodeHandle {
        self.edge_nodes_at_spec(self.edge_index_of(h)).1
    }

    pub closed spec fn meta_edge_count_spec(&self) -> int {
        self.meta_edges@.len() as int
    }

    pub closed spec fn meta_edge_at_spec(&self, i: int) -> M {
        self.meta_edges@[i]
    }

    pub closed spec fn meta_edge_handle_at_spec(&self, i: int) -> MetaEdgeHandle {
        self.meta_edge_handles@[i]
    }

    pub closed spec fn meta_edge_edges_at_spec(&self, i: int) -> (EdgeHandle, EdgeHandle) {
        self.meta_edge_edges@[i]
    }

    pub closed spec fn valid_meta_edge_handle(&self, h: MetaEdgeHandle) -> bool {
        &&& h.slot < self.meta_slot_map@.len()
        &&& self.meta_slot_map@[h.slot as int] is Some
        &&& {
            let i = self.meta_slot_map@[h.slot as int]->0 as int;
            &&& 0 <= i < self.meta_edge_handles@.len()
            &&& self.meta_edge_handles@[i] == h
        }
    }

    pub closed spec fn meta_edge_index_of(&self, h: MetaEdgeHandle) -> int {
        self.meta_slot_map@[h.slot as int]->0 as int
    }

    // ----- well-formedness ----------------------------------------------

    spec fn node_table_wf(&self) -> bool {
        &&& self.node_handles@.len() == self.nodes@.len()
        &&& self.node_edge_slots@.len() == self.nodes@.len()
        &&& self.node_slot_gen@.len() == self.node_slot_map@.len()
        &&& forall|i: int| 0 <= i < self.node_handles@.len() ==> {
            let h = #[trigger] self.node_handles@[i];
            &&& h.slot < self.node_slot_map@.len()
            &&& self.node_slot_map@[h.slot as int] == Some(i as usize)
            &&& self.node_slot_gen@[h.slot as int] == h.generation
        }
        &&& forall|s: int| 0 <= s < self.node_slot_map@.len()
            && #[trigger] self.node_slot_map@[s] is Some ==> {
            let i = self.node_slot_map@[s]->0 as int;
            &&& 0 <= i < self.node_handles@.len()
            &&& self.node_handles@[i].slot == s
        }
        &&& forall|k: int| 0 <= k < self.node_free_slots@.len() ==> {
            let s = #[trigger] self.node_free_slots@[k];
            &&& s < self.node_slot_map@.len()
            &&& self.node_slot_map@[s as int] is None
        }
        &&& forall|k1: int, k2: int| 0 <= k1 < k2 < self.node_free_slots@.len()
            ==> self.node_free_slots@[k1] != self.node_free_slots@[k2]
    }

    spec fn edge_table_wf(&self) -> bool {
        &&& self.edge_handles@.len() == self.edges@.len()
        &&& self.edge_nodes@.len() == self.edges@.len()
        &&& self.edge_slot_gen@.len() == self.edge_slot_map@.len()
        &&& forall|i: int| 0 <= i < self.edge_handles@.len() ==> {
            let h = #[trigger] self.edge_handles@[i];
            &&& h.slot < self.edge_slot_map@.len()
            &&& self.edge_slot_map@[h.slot as int] == Some(i as usize)
            &&& self.edge_slot_gen@[h.slot as int] == h.generation
        }
        &&& forall|s: int| 0 <= s < self.edge_slot_map@.len()
            && #[trigger] self.edge_slot_map@[s] is Some ==> {
            let i = self.edge_slot_map@[s]->0 as int;
            &&& 0 <= i < self.edge_handles@.len()
            &&& self.edge_handles@[i].slot == s
        }
        &&& forall|k: int| 0 <= k < self.edge_free_slots@.len() ==> {
            let s = #[trigger] self.edge_free_slots@[k];
            &&& s < self.edge_slot_map@.len()
            &&& self.edge_slot_map@[s as int] is None
        }
        &&& forall|k1: int, k2: int| 0 <= k1 < k2 < self.edge_free_slots@.len()
            ==> self.edge_free_slots@[k1] != self.edge_free_slots@[k2]
    }

    spec fn meta_table_wf(&self) -> bool {
        &&& self.meta_edge_handles@.len() == self.meta_edges@.len()
        &&& self.meta_edge_edges@.len() == self.meta_edges@.len()
        &&& self.meta_slot_gen@.len() == self.meta_slot_map@.len()
        &&& forall|i: int| 0 <= i < self.meta_edge_handles@.len() ==> {
            let h = #[trigger] self.meta_edge_handles@[i];
            &&& h.slot < self.meta_slot_map@.len()
            &&& self.meta_slot_map@[h.slot as int] == Some(i as usize)
            &&& self.meta_slot_gen@[h.slot as int] == h.generation
        }
        &&& forall|s: int| 0 <= s < self.meta_slot_map@.len()
            && #[trigger] self.meta_slot_map@[s] is Some ==> {
            let i = self.meta_slot_map@[s]->0 as int;
            &&& 0 <= i < self.meta_edge_handles@.len()
            &&& self.meta_edge_handles@[i].slot == s
        }
        &&& forall|k: int| 0 <= k < self.meta_free_slots@.len() ==> {
            let s = #[trigger] self.meta_free_slots@[k];
            &&& s < self.meta_slot_map@.len()
            &&& self.meta_slot_map@[s as int] is None
        }
        &&& forall|k1: int, k2: int| 0 <= k1 < k2 < self.meta_free_slots@.len()
            ==> self.meta_free_slots@[k1] != self.meta_free_slots@[k2]
    }

    /// Every edge joins two distinct live nodes; every meta-edge joins two
    /// distinct live edges, the second endpoint of its first edge being the
    /// first endpoint of its second edge; every filled bond slot of a node
    /// names a live edge incident to that node.
    spec fn cross_wf(&self) -> bool {
        &&& forall|i: int| 0 <= i < self.edge_nodes@.len() ==> {
            let (n1, n2) = #[trigger] self.edge_nodes@[i];
            &&& self.valid_node_handle(n1)
            &&& self.valid_node_handle(n2)
            &&& n1 != n2
        }
        &&& forall|i: int| 0 <= i < self.meta_edge_edges@.len() ==> {
            let (e1, e2) = #[trigger] self.meta_edge_edges@[i];
            &&& self.valid_edge_handle(e1)
            &&& self.valid_edge_handle(e2)
            &&& e1 != e2
            &&& self.edge_nodes@[self.edge_index_of(e1)].1
                == self.edge_nodes@[self.edge_index_of(e2)].0
        }
        &&& forall|i: int| 0 <= i < self.node_edge_slots@.len()
            ==> #[trigger] self.node_edge_slots@[i]@.len() == MAX_BONDS
        &&& forall|i: int, j: int|
            0 <= i < self.node_edge_slots@.len() && 0 <= j < MAX_BONDS
            && #[trigger] self.node_edge_slots@[i]@[j] is Some ==> {
            let eh = self.node_edge_slots@[i]@[j]->0;
            &&& self.valid_edge_handle(eh)
            &&& (self.edge_nodes@[self.edge_index_of(eh)].0 == self.node_handles@[i]
                || self.edge_nodes@[self.edge_index_of(eh)].1 == self.node_handles@[i])
        }
    }

    pub closed spec fn wf(&self) -> bool {
        &&& self.node_table_wf()
        &&& self.edge_table_wf()
        &&& self.meta_table_wf()
        &&& self.cross_wf()
    }

    // ----- construction -------------------------------------------------

    pub fn new() -> (g: Self)
        ensures
            g.wf(),
            g.node_count_spec() == 0,
            g.edge_count_spec() == 0,
            g.meta_edge_count_spec() == 0,
    {
        SortableGraph {
            nodes: Vec::new(),
            node_handles: Vec::new(),
            node_edge_slots: Vec::new(),
            node_slot_map: Vec::new(),
            node_slot_gen: Vec::new(),
            node_free_slots: Vec::new(),
            edges: Vec::new(),
            edge_handles: Vec::new(),
            edge_nodes: Vec::new(),
            edge_slot_map: Vec::new(),
            edge_slot_gen: Vec::new(),
            edge_free_slots: Vec::new(),
            meta_edges: Vec::new(),
            meta_edge_handles: Vec::new(),
            meta_edge_edges: Vec::new(),
            meta_slot_map: Vec::new(),
            meta_slot_gen: Vec::new(),
            meta_free_slots: Vec::new(),
        }
    }

    // ----- nodes --------------------------------------------------------

    pub fn node_count(&self) -> (n: usize)
        ensures
            n == self.node_count_spec(),
    {
        self.nodes.len()
    }

    /// Adds a node and hands back a fresh handle for it. The new node sits
    /// after all existing nodes, with every bond slot empty.
    pub fn add_node(&mut self, node: N) -> (h: NodeHandle)
        requires
            old(self).wf(),
        ensures
            final(self).wf(),
            final(self).node_count_spec() == old(self).node_count_spec() + 1,
            final(self).node_at_spec(old(self).node_count_spec()) == node,
            final(self).node_handle_at_spec(old(self).node_count_spec()) == h,
            final(self).valid_node_handle(h),
            !old(self).valid_node_handle(h),
            final(self).node_index_of(h) == old(self).node_count_spec(),
            forall|j: int| #![trigger final(self).edge_slot_spec(old(self).node_count_spec(), j)]
                0 <= j < MAX_BONDS
                ==> final(self).edge_slot_spec(old(self).node_count_spec(), j) is None,
            forall|i: int| #![trigger final(self).node_at_spec(i)]
                #![trigger final(self).node_handle_at_spec(i)]
                0 <= i < old(self).node_count_spec() ==> {
                &&& final(self).node_at_spec(i) == old(self).node_at_spec(i)
                &&& final(self).node_handle_at_spec(i) == old(self).node_handle_at_spec(i)
            },
            forall|i: int, j: int| #![trigger final(self).edge_slot_spec(i, j)]
                0 <= i < old(self).node_count_spec() && 0 <= j < MAX_BONDS
                ==> final(self).edge_slot_spec(i, j) == old(self).edge_slot_spec(i, j),
            forall|h2: NodeHandle| #![trigger old(self).valid_node_handle(h2)]
                old(self).valid_node_handle(h2) ==> {
                &&& final(self).valid_node_handle(h2)
                &&& final(self).node_index_of(h2) == old(self).node_index_of(h2)
            },
            forall|h2: NodeHandle| #![trigger final(self).valid_node_handle(h2)]
                final(self).valid_node_handle(h2) && h2 != h
                ==> old(self).valid_node_handle(h2),
            final(self).edges_unchanged(*old(self)),
            final(self).meta_edges_unchanged(*old(self)),
    {
        let new_index = self.nodes.len();
        let mut reuse: Option<usize> = None;
        if self.node_free_slots.len() > 0 {
            let popped = self.node_free_slots.pop();
            if let Some(s) = popped {
                if self.node_slot_gen[s] < u64::MAX {
                    reuse = Some(s);
                }
            }
        }
        let h: NodeHandle = match reuse {
            Some(s) => {
                let g = self.node_slot_gen[s] + 1;
                self.node_slot_gen.set(s, g);
                self.node_slot_map.set(s, Some(new_index));
                NodeHandle { slot: s, generation: g }
            }
            None => {
                let s = self.node_slot_map.len();
                self.node_slot_map.push(Some(new_index));
                self.node_slot_gen.push(0);
                NodeHandle { slot: s, generation: 0 }
            }
        };
        self.nodes.push(node);
        self.node_handles.push(h);
        let slots: Vec<Option<EdgeHandle>> = empty_edge_slots();
        self.node_edge_slots.push(slots);
        h
    }

    /// The node behind a live handle.
    pub fn node(&self, h: NodeHandle) -> (n: &N)
        requires
            self.wf(),
            self.valid_node_handle(h),
        ensures
            *n == self.node_at_spec(self.node_index_of(h)),
    {
        let i = self.node_index(h);
        &self.nodes[i]
    }

    /// Mutable access to the node behind a live handle. Only that node's
    /// payload changes; the graph structure stays as it was.
    pub fn node_mut(&mut self, h: NodeHandle) -> (n: &mut N)
        requires
            old(self).wf(),
            old(self).valid_node_handle(h),
        ensures
            *n == old(self).node_at_spec(old(self).node_index_of(h)),
            final(self).wf(),
            final(self).only_node_payload_changed(
                *old(self),
                old(self).node_index_of(h),
                *final(n),
            ),
    {
        let i = self.node_index(h);
        &mut self.nodes[i]
    }

    /// The node at a dense position (nodes are stored contiguously).
    pub fn node_at(&self, index: usize) -> (n: &N)
        requires
            index < self.node_count_spec(),
        ensures
            *n == self.node_at_spec(index as int),
    {
        &self.nodes[index]
    }

    /// Mutable access to the node at a dense position.
    pub fn node_at_mut(&mut self, index: usize) -> (n: &mut N)
        requires
            old(self).wf(),
            index < old(self).node_count_spec(),
        ensures
            *n == old(self).node_at_spec(index as int),
            final(self).wf(),
            final(self).only_node_payload_changed(*old(self), index as int, *final(n)),
    {
        &mut self.nodes[index]
    }

    /// The handle of the node at a dense position.
    pub fn node_handle_at(&self, index: usize) -> (h: NodeHandle)
        requires
            self.wf(),
            index < self.node_count_spec(),
        ensures
            h == self.node_handle_at_spec(index as int),
    {
        self.node_handles[index]
    }

    /// Whether a handle still names a live node.
    pub fn is_valid_node_handle(&self, h: NodeHandle) -> (b: bool)
        requires
            self.wf(),
        ensures
            b == self.valid_node_handle(h),
    {
        if h.slot < self.node_slot_map.len() {
            match self.node_slot_map[h.slot] {
                Some(i) => {
                    let h2 = self.node_handles[i];
                    h2.slot == h.slot && h2.generation == h.generation
                }
                None => false,
            }
        } else {
            false
        }
    }

    /// The dense position of the node behind a live handle.
    pub fn node_index(&self, h: NodeHandle) -> (i: usize)
        requires
            self.wf(),
            self.valid_node_handle(h),
        ensures
            i == self.node_index_of(h),
            0 <= i < self.node_count_spec(),
    {
        match self.node_slot_map[h.slot] {
            Some(i) => i,
            None => unreached(),
        }
    }

    // ----- edges --------------------------------------------------------

    pub fn edge_count(&self) -> (n: usize)
        ensures
            n == self.edge_count_spec(),
    {
        self.edges.len()
    }

    /// Adds an edge between two distinct live nodes and records its handle
    /// in the named bond slot of each endpoint.
    pub fn add_edge(
        &mut self,
        edge: E,
        node1: NodeHandle,
        node2: NodeHandle,
        bond_index_on_node1: usize,
        bond_index_on_node2: usize,
    ) -> (h: EdgeHandle)
        requires
            old(self).wf(),
            old(self).valid_node_handle(node1),
            old(self).valid_node_handle(node2),
            node1 != node2,
            bond_index_on_node1 < MAX_BONDS,
            bond_index_on_node2 < MAX_BONDS,
        ensures
            final(self).wf(),
            final(self).edge_count_spec() == old(self).edge_count_spec() + 1,
            final(self).edge_at_spec(old(self).edge_count_spec()) == edge,
            final(self).edge_handle_at_spec(old(self).edge_count_spec()) == h,
            final(self).edge_nodes_at_spec(old(self).edge_count_spec()) == (node1, node2),
            final(self).valid_edge_handle(h),
            !old(self).valid_edge_handle(h),
            final(self).edge_index_of(h) == old(self).edge_count_spec(),
            forall|i: int| #![trigger final(self).edge_at_spec(i)]
                #![trigger final(self).edge_nodes_at_spec(i)]
                0 <= i < old(self).edge_count_spec() ==> {
                &&& final(self).edge_at_spec(i) == old(self).edge_at_spec(i)
                &&& final(self).edge_handle_at_spec(i) == old(self).edge_handle_at_spec(i)
                &&& final(self).edge_nodes_at_spec(i) == old(self).edge_nodes_at_spec(i)
            },
            forall|h2: EdgeHandle| #![trigger old(self).valid_edge_handle(h2)]
                old(self).valid_edge_handle(h2) ==> {
                &&& final(self).valid_edge_handle(h2)
                &&& final(self).edge_index_of(h2) == old(self).edge_index_of(h2)
            },
            forall|h2: EdgeHandle| #![trigger final(self).valid_edge_handle(h2)]
                final(self).valid_edge_handle(h2) && h2 != h
                ==> old(self).valid_edge_handle(h2),
            final(self).node_structure_unchanged(*old(self)),
            final(self).meta_edges_unchanged(*old(self)),
            final(self).edge_slot_spec(old(self).node_index_of(node1), bond_index_on_node1 as int)
                == Some(h),
            final(self).edge_slot_spec(old(self).node_index_of(node2), bond_index_on_node2 as int)
                == Some(h),
            forall|i: int, j: int| #![trigger final(self).edge_slot_spec(i, j)]
                0 <= i < old(self).node_count_spec() && 0 <= j < MAX_BONDS
                && !(i == old(self).node_index_of(node1) && j == bond_index_on_node1)
                && !(i == old(self).node_index_of(node2) && j == bond_index_on_node2)
                ==> final(self).edge_slot_spec(i, j) == old(self).edge_slot_spec(i, j),
    {
        let i1 = self.node_index(node1);
        let i2 = self.node_index(node2);
        let new_index = self.edges.len();
        let mut reuse: Option<usize> = None;
        if self.edge_free_slots.len() > 0 {
            let popped = self.edge_free_slots.pop();
            if let Some(s) = popped {
                if self.edge_slot_gen[s] < u64::MAX {
                    reuse = Some(s);
                }
            }
        }
        let h: EdgeHandle = match reuse {
            Some(s) => {
                let g = self.edge_slot_gen[s] + 1;
                self.edge_slot_gen.set(s, g);
                self.edge_slot_map.set(s, Some(new_index));
                EdgeHandle { slot: s, generation: g }
            }
            None => {
                let s = self.edge_slot_map.len();
                self.edge_slot_map.push(Some(new_index));
                self.edge_slot_gen.push(0);
                EdgeHandle { slot: s, generation: 0 }
            }
        };
        self.edges.push(edge);
        self.edge_handles.push(h);
        self.edge_nodes.push((node1, node2));
        let slots1 = &mut self.node_edge_slots[i1];
        slots1.set(bond_index_on_node1, Some(h));
        let slots2 = &mut self.node_edge_slots[i2];
        slots2.set(bond_index_on_node2, Some(h));
        h
    }

    /// The edge behind a live handle.
    pub fn edge(&self, h: EdgeHandle) -> (e: &E)
        requires
            self.wf(),
            self.valid_edge_handle(h),
        ensures
            *e == self.edge_at_spec(self.edge_index_of(h)),
    {
        let i = self.edge_index(h);
        &self.edges[i]
    }

    /// Mutable access to the edge behind a live handle. Only that edge's
    /// payload changes; the graph structure stays as it was.
    pub fn edge_mut(&mut self, h: EdgeHandle) -> (e: &mut E)
        requires
            old(self).wf(),
            old(self).valid_edge_handle(h),
        ensures
            *e == old(self).edge_at_spec(old(self).edge_index_of(h)),
            final(self).wf(),
            final(self).only_edge_payload_changed(
                *old(self),
                old(self).edge_index_of(h),
                *final(e),
            ),
    {
        let i = self.edge_index(h);
        &mut self.edges[i]
    }

    /// The edge at a dense position (edges are stored contiguously).
    pub fn edge_at(&self, index: usize) -> (e: &E)
        requires
            index < self.edge_count_spec(),
        ensures
            *e == self.edge_at_spec(index as int),
    {
        &self.edges[index]
    }

    /// The handle of the edge at a dense position.
    pub fn edge_handle_at(&self, index: usize) -> (h: EdgeHandle)
        requires
            self.wf(),
            index < self.edge_count_spec(),
        ensures
            h == self.edge_handle_at_spec(index as int),
    {
        self.edge_handles[index]
    }

    /// Both endpoints of the edge at a dense position.
    pub fn edge_nodes_at(&self, index: usize) -> (nodes: (NodeHandle, NodeHandle))
        requires
            self.wf(),
            index < self.edge_count_spec(),
        ensures
            nodes == self.edge_nodes_at_spec(index as int),
    {
        self.edge_nodes[index]
    }

    /// First endpoint of the edge behind a live handle.
    pub fn edge_node1(&self, h: EdgeHandle) -> (n: NodeHandle)
        requires
            self.wf(),
            self.valid_edge_handle(h),
        ensures
            n == self.edge_node1_spec(h),
            self.valid_node_handle(n),
    {
        let i = self.edge_index(h);
        self.edge_nodes[i].0
    }

    /// Second endpoint of the edge behind a live handle.
    pub fn edge_node2(&self, h: EdgeHandle) -> (n: NodeHandle)
        requires
            self.wf(),
            self.valid_edge_handle(h),
        ensures
            n == self.edge_node2_spec(h),
            self.valid_node_handle(n),
    {
        let i = self.edge_index(h);
        self.edge_nodes[i].1
    }

    /// Whether a handle still names a live edge.
    pub fn is_valid_edge_handle(&self, h: EdgeHandle) -> (b: bool)
        requires
            self.wf(),
        ensures
            b == self.valid_edge_handle(h),
    {
        if h.slot < self.edge_slot_map.len() {
            match self.edge_slot_map[h.slot] {
                Some(i) => {
                    let h2 = self.edge_handles[i];
                    h2.slot == h.slot && h2.generation == h.generation
                }
                None => false,
            }
        } else {
            false
        }
    }

    /// The dense position of the edge behind a live handle.
    pub fn edge_index(&self, h: EdgeHandle) -> (i: usize)
        requires
            self.wf(),
            self.valid_edge_handle(h),
        ensures
            i == self.edge_index_of(h),
            0 <= i < self.edge_count_spec(),
    {
        match self.edge_slot_map[h.slot] {
            Some(i) => i,
            None => unreached(),
        }
    }

    /// The edge recorded in one bond slot of a live node, if any.
    pub fn edge_slot(&self, node: NodeHandle, bond_index: usize) -> (e: Option<EdgeHandle>)
        requires
            self.wf(),
            self.valid_node_handle(node),
            bond_index < MAX_BONDS,
        ensures
            e == self.edge_slot_spec(self.node_index_of(node), bond_index as int),
            e is Some ==> self.valid_edge_handle(e->0),
    {
        let i = self.node_index(node);
        self.node_edge_slots[i][bond_index]
    }

    /// Whether a live node has an edge in the given bond slot.
    pub fn has_edge(&self, node: NodeHandle, bond_index: usize) -> (b: bool)
        requires
            self.wf(),
            self.valid_node_handle(node),
            bond_index < MAX_BONDS,
        ensures
            b == (self.edge_slot_spec(self.node_index_of(node), bond_index as int) is Some),
    {
        let slot = self.edge_slot(node, bond_index);
        match slot {
            Some(_) => true,
            None => false,
        }
    }

    // ----- meta-edges ---------------------------------------------------

    pub fn meta_edge_count(&self) -> (n: usize)
        ensures
            n == self.meta_edge_count_spec(),
    {
        self.meta_edges.len()
    }

    /// Adds a meta-edge over two distinct live edges that share a middle
    /// node: the second endpoint of `edge1` must be the first endpoint of
    /// `edge2`.
    pub fn add_meta_edge(&mut self, meta_edge: M, edge1: EdgeHandle, edge2: EdgeHandle) -> (h:
        MetaEdgeHandle)
        requires
            old(self).wf(),
            old(self).valid_edge_handle(edge1),
            old(self).valid_edge_handle(edge2),
            edge1 != edge2,
            old(self).edge_node2_spec(edge1) == old(self).edge_node1_spec(edge2),
        ensures
            final(self).wf(),
            final(self).meta_edge_count_spec() == old(self).meta_edge_count_spec() + 1,
            final(self).meta_edge_at_spec(old(self).meta_edge_count_spec()) == meta_edge,
            final(self).meta_edge_handle_at_spec(old(self).meta_edge_count_spec()) == h,
            final(self).meta_edge_edges_at_spec(old(self).meta_edge_count_spec())
                == (edge1, edge2),
            final(self).valid_meta_edge_handle(h),
            !old(self).valid_meta_edge_handle(h),
            final(self).meta_edge_index_of(h) == old(self).meta_edge_count_spec(),
            forall|i: int| 0 <= i < old(self).meta_edge_count_spec() ==> {
                &&& final(self).meta_edge_at_spec(i) == old(self).meta_edge_at_spec(i)
                &&& final(self).meta_edge_handle_at_spec(i)
                    == old(self).meta_edge_handle_at_spec(i)
                &&& final(self).meta_edge_edges_at_spec(i) == old(self).meta_edge_edges_at_spec(i)
            },
            forall|h2: MetaEdgeHandle| old(self).valid_meta_edge_handle(h2) ==> {
                &&& final(self).valid_meta_edge_handle(h2)
                &&& final(self).meta_edge_index_of(h2) == old(self).meta_edge_index_of(h2)
            },
            final(self).nodes_unchanged(*old(self)),
            final(self).edges_unchanged(*old(self)),
    {
        let new_index = self.meta_edges.len();
        let mut reuse: Option<usize> = None;
        if self.meta_free_slots.len() > 0 {
            let popped = self.meta_free_slots.pop();
            if let Some(s) = popped {
                if self.meta_slot_gen[s] < u64::MAX {
                    reuse = Some(s);
                }
            }
        }
        let h: MetaEdgeHandle = match reuse {
            Some(s) => {
                let g = self.meta_slot_gen[s] + 1;
                self.meta_slot_gen.set(s, g);
                self.meta_slot_map.set(s, Some(new_index));
                MetaEdgeHandle { slot: s, generation: g }
            }
            None => {
                let s = self.meta_slot_map.len();
                self.meta_slot_map.push(Some(new_index));
                self.meta_slot_gen.push(0);
                MetaEdgeHandle { slot: s, generation: 0 }
            }
        };
        self.meta_edges.push(meta_edge);
        self.meta_edge_handles.push(h);
        self.meta_edge_edges.push((edge1, edge2));
        h
    }

    /// The meta-edge behind a live handle.
    pub fn meta_edge(&self, h: MetaEdgeHandle) -> (m: &M)
        requires
            self.wf(),
            self.valid_meta_edge_handle(h),
        ensures
            *m == self.meta_edge_at_spec(self.meta_edge_index_of(h)),
    {
        let i = self.meta_edge_index(h);
        &self.meta_edges[i]
    }

    /// The meta-edge at a dense position.
    pub fn meta_edge_at(&self, index: usize) -> (m: &M)
        requires
            index < self.meta_edge_count_spec(),
        ensures
            *m == self.meta_edge_at_spec(index as int),
    {
        &self.meta_edges[index]
    }

    /// The two edges the meta-edge at a dense position ties together.
    pub fn meta_edge_edges_at(&self, index: usize) -> (e: (EdgeHandle, EdgeHandle))
        requires
            self.wf(),
            index < self.meta_edge_count_spec(),
        ensures
            e == self.meta_edge_edges_at_spec(index as int),
    {
        self.meta_edge_edges[index]
    }

    /// The dense position of the meta-edge behind a live handle.
    pub fn meta_edge_index(&self, h: MetaEdgeHandle) -> (i: usize)
        requires
            self.wf(),
            self.valid_meta_edge_handle(h),
        ensures
            i == self.meta_edge_index_of(h),
            0 <= i < self.meta_edge_count_spec(),
    {
        match self.meta_slot_map[h.slot] {
            Some(i) => i,
            None => unreached(),
        }
    }

    // ----- removal machinery ---------------------------------------------
    //
    // Bulk removal runs in phases: first each doomed element's slot is
    // condemned (its table entry cleared, its slot freed), then the dense
    // storage is compacted in order and the table rebuilt for the survivors,
    // then references out of other kinds are dropped. Between phases the
    // tables satisfy the loosened invariants below: a dense element either
    // still maps to its position or is condemned.

    spec fn edge_table_condemned_wf(&self) -> bool {
        &&& self.edge_handles@.len() == self.edges@.len()
        &&& self.edge_nodes@.len() == self.edges@.len()
        &&& self.edge_slot_gen@.len() == self.edge_slot_map@.len()
        &&& forall|i: int| 0 <= i < self.edge_handles@.len() ==> {
            let h = #[trigger] self.edge_handles@[i];
            &&& h.slot < self.edge_slot_map@.len()
            &&& self.edge_slot_gen@[h.slot as int] == h.generation
            &&& (self.edge_slot_map@[h.slot as int] == Some(i as usize)
                || self.edge_slot_map@[h.slot as int] is None)
        }
        &&& forall|s: int| 0 <= s < self.edge_slot_map@.len()
            && #[trigger] self.edge_slot_map@[s] is Some ==> {
            let i = self.edge_slot_map@[s]->0 as int;
            &&& 0 <= i < self.edge_handles@.len()
            &&& self.edge_handles@[i].slot == s
        }
        &&& forall|k: int| 0 <= k < self.edge_free_slots@.len() ==> {
            let s = #[trigger] self.edge_free_slots@[k];
            &&& s < self.edge_slot_map@.len()
            &&& self.edge_slot_map@[s as int] is None
        }
        &&& forall|k1: int, k2: int| 0 <= k1 < k2 < self.edge_free_slots@.len()
            ==> self.edge_free_slots@[k1] != self.edge_free_slots@[k2]
    }

    /// Whether the dense edge at `i` has escaped condemnation.
    spec fn edge_alive(&self, i: int) -> bool {
        self.edge_slot_map@[self.edge_handles@[i].slot as int] is Some
    }

    /// Lookups through the edge table stay in bounds.
    spec fn edge_lookup_safe(&self) -> bool {
        forall|s: int| 0 <= s < self.edge_slot_map@.len()
            && #[trigger] self.edge_slot_map@[s] is Some
            ==> self.edge_slot_map@[s]->0 < self.edge_handles@.len()
    }

    /// Validity check that works in the loosened states too.
    fn edge_live(&self, h: EdgeHandle) -> (b: bool)
        requires
            self.edge_lookup_safe(),
        ensures
            b == self.valid_edge_handle(h),
    {
        if h.slot < self.edge_slot_map.len() {
            match self.edge_slot_map[h.slot] {
                Some(i) => {
                    let h2 = self.edge_handles[i];
                    h2.slot == h.slot && h2.generation == h.generation
                }
                None => false,
            }
        } else {
            false
        }
    }

    /// Clears a live edge's table entry and frees its slot. The dense
    /// storage is left for compaction.
    fn condemn_edge(&mut self, h: EdgeHandle)
        requires
            old(self).edge_table_condemned_wf(),
            old(self).valid_edge_handle(h),
        ensures
            final(self).edge_table_condemned_wf(),
            final(self).edge_slot_map@
                == old(self).edge_slot_map@.update(h.slot as int, None),
            final(self).edges@ == old(self).edges@,
            final(self).edge_handles@ == old(self).edge_handles@,
            final(self).edge_nodes@ == old(self).edge_nodes@,
            final(self).edge_slot_gen@ == old(self).edge_slot_gen@,
            final(self).nodes_unchanged(*old(self)),
            final(self).meta_edges_unchanged(*old(self)),
    {
        self.edge_slot_map.set(h.slot, None);
        self.edge_free_slots.push(h.slot);
    }

    /// Drops every condemned edge from the dense storage, keeping the
    /// survivors in order, and points the table at their new positions.
    #[verifier::rlimit(30)]
    fn compact_condemned_edges(&mut self)
        requires
            old(self).edge_table_condemned_wf(),
        ensures
            final(self).edge_table_wf(),
            final(self).nodes_unchanged(*old(self)),
            final(self).meta_edges_unchanged(*old(self)),
            final(self).edge_slot_gen@ == old(self).edge_slot_gen@,
            final(self).edge_free_slots@ == old(self).edge_free_slots@,
            final(self).edge_slot_map@.len() == old(self).edge_slot_map@.len(),
            final(self).edges@.len() <= old(self).edges@.len(),
            forall|i: int| 0 <= i < old(self).edges@.len() && old(self).edge_alive(i) ==> {
                let h = old(self).edge_handles@[i];
                &&& final(self).valid_edge_handle(h)
                &&& final(self).edges@[final(self).edge_index_of(h)] == old(self).edges@[i]
                &&& final(self).edge_nodes@[final(self).edge_index_of(h)]
                    == old(self).edge_nodes@[i]
            },
            forall|h2: EdgeHandle| final(self).valid_edge_handle(h2)
                ==> exists|i: int| 0 <= i < old(self).edges@.len() && old(self).edge_alive(i)
                    && old(self).edge_handles@[i] == h2,
            forall|i1: int, i2: int| 0 <= i1 < i2 < old(self).edges@.len()
                && old(self).edge_alive(i1) && old(self).edge_alive(i2)
                ==> final(self).edge_index_of(old(self).edge_handles@[i1])
                    < final(self).edge_index_of(old(self).edge_handles@[i2]),
    {
        let ghost g0 = *old(self);
        let n = self.edges.len();
        let mut new_edges: Vec<E> = Vec::new();
        let mut new_handles: Vec<EdgeHandle> = Vec::new();
        let mut new_nodes: Vec<(NodeHandle, NodeHandle)> = Vec::new();
        let ghost mut src: Seq<int> = Seq::empty();
        let mut i: usize = 0;
        while i < n
            invariant
                g0.edge_table_condemned_wf(),
                n == g0.edges@.len(),
                i <= n,
                self.edges@ == g0.edges@.subrange(i as int, n as int),
                self.edge_handles@ == g0.edge_handles@,
                self.edge_nodes@ == g0.edge_nodes@,
                self.edge_slot_gen@ == g0.edge_slot_gen@,
                self.edge_free_slots@ == g0.edge_free_slots@,
                self.edge_slot_map@.len() == g0.edge_slot_map@.len(),
                self.nodes_unchanged(g0),
                self.meta_edges_unchanged(g0),
                src.len() == new_edges@.len(),
                src.len() == new_handles@.len(),
                src.len() == new_nodes@.len(),
                src.len() <= i,
                forall|t: int| 0 <= t < src.len() ==> {
                    let j = #[trigger] src[t];
                    &&& 0 <= j < i
                    &&& g0.edge_alive(j)
                    &&& new_handles@[t] == g0.edge_handles@[j]
                    &&& new_edges@[t] == g0.edges@[j]
                    &&& new_nodes@[t] == g0.edge_nodes@[j]
                    &&& self.edge_slot_map@[g0.edge_handles@[j].slot as int]
                        == Some(t as usize)
                },
                forall|t1: int, t2: int| 0 <= t1 < t2 < src.len() ==> src[t1] < src[t2],
                forall|j: int| 0 <= j < i && g0.edge_alive(j) ==> {
                    let t = self.edge_slot_map@[g0.edge_handles@[j].slot as int]->0 as int;
                    &&& self.edge_slot_map@[g0.edge_handles@[j].slot as int] is Some
                    &&& 0 <= t < src.len()
                    &&& src[t] == j
                },
                forall|j: int| i <= j < n
                    ==> self.edge_slot_map@[#[trigger] g0.edge_handles@[j].slot as int]
                        == g0.edge_slot_map@[g0.edge_handles@[j].slot as int],
                forall|s: int| 0 <= s < g0.edge_slot_map@.len()
                    && g0.edge_slot_map@[s] is None
                    ==> #[trigger] self.edge_slot_map@[s] is None,
            decreases n - i,
        {
            let e = self.edges.remove(0);
            let h = self.edge_handles[i];
            let alive = match self.edge_slot_map[h.slot] {
                Some(_) => true,
                None => false,
            };
            proof {
                assert(g0.edge_handles@[i as int].slot < g0.edge_slot_map@.len());
                assert(alive == g0.edge_alive(i as int));
            }
            if alive {
                let t = new_edges.len();
                self.edge_slot_map.set(h.slot, Some(t));
                new_edges.push(e);
                new_handles.push(h);
                new_nodes.push(self.edge_nodes[i]);
                proof {
                    src = src.push(i as int);
                    assert forall|j: int| i + 1 <= j < n implies
                        self.edge_slot_map@[#[trigger] g0.edge_handles@[j].slot as int]
                            == g0.edge_slot_map@[g0.edge_handles@[j].slot as int] by {
                        assert(g0.edge_handles@[j].slot != g0.edge_handles@[i as int].slot);
                    }
                }
            }
            proof {
                assert(self.edges@ =~= g0.edges@.subrange(i + 1, n as int));
            }
            i = i + 1;
        }
        self.edges = new_edges;
        self.edge_handles = new_handles;
        self.edge_nodes = new_nodes;
        proof {
            assert forall|t: int| 0 <= t < self.edge_handles@.len() implies {
                let h = #[trigger] self.edge_handles@[t];
                &&& h.slot < self.edge_slot_map@.len()
                &&& self.edge_slot_map@[h.slot as int] == Some(t as usize)
                &&& self.edge_slot_gen@[h.slot as int] == h.generation
            } by {
                let j = src[t];
                assert(g0.edge_alive(j));
                assert(self.edge_handles@[t] == g0.edge_handles@[j]);
            }
            assert forall|s: int| 0 <= s < self.edge_slot_map@.len()
                && #[trigger] self.edge_slot_map@[s] is Some implies {
                let t = self.edge_slot_map@[s]->0 as int;
                &&& 0 <= t < self.edge_handles@.len()
                &&& self.edge_handles@[t].slot == s
            } by {
                assert(g0.edge_slot_map@[s] is Some);
                let j0 = g0.edge_slot_map@[s]->0 as int;
                assert(g0.edge_handles@[j0].slot == s);
                assert(g0.edge_alive(j0));
                let t = self.edge_slot_map@[g0.edge_handles@[j0].slot as int]->0 as int;
                assert(src[t] == j0);
                assert(self.edge_handles@[t] == g0.edge_handles@[j0]);
            }
            assert forall|h2: EdgeHandle| final(self).valid_edge_handle(h2) implies
                exists|j: int| 0 <= j < g0.edges@.len() && g0.edge_alive(j)
                    && g0.edge_handles@[j] == h2 by {
                let t = self.edge_slot_map@[h2.slot as int]->0 as int;
                assert(g0.edge_alive(src[t]) && g0.edge_handles@[src[t]] == h2);
            }
            assert forall|i1: int, i2: int| 0 <= i1 < i2 < g0.edges@.len()
                && g0.edge_alive(i1) && g0.edge_alive(i2) implies
                final(self).edge_index_of(g0.edge_handles@[i1])
                    < final(self).edge_index_of(g0.edge_handles@[i2]) by {
                let t1 = self.edge_slot_map@[g0.edge_handles@[i1].slot as int]->0 as int;
                let t2 = self.edge_slot_map@[g0.edge_handles@[i2].slot as int]->0 as int;
                assert(src[t1] == i1 && src[t2] == i2);
                if t1 >= t2 {
                    if t1 == t2 {
                        assert(false);
                    } else {
                        assert(src[t2] < src[t1]);
                        assert(false);
                    }
                }
            }
        }
    }

    spec fn node_table_condemned_wf(&self) -> bool {
        &&& self.node_handles@.len() == self.nodes@.len()
        &&& self.node_edge_slots@.len() == self.nodes@.len()
        &&& self.node_slot_gen@.len() == self.node_slot_map@.len()
        &&& forall|i: int| 0 <= i < self.node_handles@.len() ==> {
            let h = #[trigger] self.node_handles@[i];
            &&& h.slot < self.node_slot_map@.len()
            &&& self.node_slot_gen@[h.slot as int] == h.generation
            &&& (self.node_slot_map@[h.slot as int] == Some(i as usize)
                || self.node_slot_map@[h.slot as int] is None)
        }
        &&& forall|s: int| 0 <= s < self.node_slot_map@.len()
            && #[trigger] self.node_slot_map@[s] is Some ==> {
            let i = self.node_slot_map@[s]->0 as int;
            &&& 0 <= i < self.node_handles@.len()
            &&& self.node_handles@[i].slot == s
        }
        &&& forall|k: int| 0 <= k < self.node_free_slots@.len() ==> {
            let s = #[trigger] self.node_free_slots@[k];
            &&& s < self.node_slot_map@.len()
            &&& self.node_slot_map@[s as int] is None
        }
        &&& forall|k1: int, k2: int| 0 <= k1 < k2 < self.node_free_slots@.len()
            ==> self.node_free_slots@[k1] != self.node_free_slots@[k2]
    }

    /// Whether the dense node at `i` has escaped condemnation.
    spec fn node_alive(&self, i: int) -> bool {
        self.node_slot_map@[self.node_handles@[i].slot as int] is Some
    }

    /// Lookups through the node table stay in bounds.
    spec fn node_lookup_safe(&self) -> bool {
        forall|s: int| 0 <= s < self.node_slot_map@.len()
            && #[trigger] self.node_slot_map@[s] is Some
            ==> self.node_slot_map@[s]->0 < self.node_handles@.len()
    }

    /// Validity check that works in the loosened states too.
    fn node_live(&self, h: NodeHandle) -> (b: bool)
        requires
            self.node_lookup_safe(),
        ensures
            b == self.valid_node_handle(h),
    {
        if h.slot < self.node_slot_map.len() {
            match self.node_slot_map[h.slot] {
                Some(i) => {
                    let h2 = self.node_handles[i];
                    h2.slot == h.slot && h2.generation == h.generation
                }
                None => false,
            }
        } else {
            false
        }
    }

    /// Clears a live node's table entry and frees its slot. The dense
    /// storage is left for compaction.
    fn condemn_node(&mut self, h: NodeHandle)
        requires
            old(self).node_table_condemned_wf(),
            old(self).valid_node_handle(h),
        ensures
            final(self).node_table_condemned_wf(),
            final(self).node_slot_map@
                == old(self).node_slot_map@.update(h.slot as int, None),
            final(self).nodes@ == old(self).nodes@,
            final(self).node_handles@ == old(self).node_handles@,
            final(self).node_edge_slots@ == old(self).node_edge_slots@,
            final(self).node_slot_gen@ == old(self).node_slot_gen@,
            final(self).edges_unchanged(*old(self)),
            final(self).meta_edges_unchanged(*old(self)),
    {
        self.node_slot_map.set(h.slot, None);
        self.node_free_slots.push(h.slot);
    }

    /// Drops every condemned node from the dense storage, keeping the
    /// survivors in order with their bond-slot arrays, and points the table
    /// at their new positions.
    #[verifier::rlimit(30)]
    fn compact_condemned_nodes(&mut self)
        requires
            old(self).node_table_condemned_wf(),
        ensures
            final(self).node_table_wf(),
            final(self).edges_unchanged(*old(self)),
            final(self).meta_edges_unchanged(*old(self)),
            final(self).node_slot_gen@ == old(self).node_slot_gen@,
            final(self).node_free_slots@ == old(self).node_free_slots@,
            final(self).node_slot_map@.len() == old(self).node_slot_map@.len(),
            final(self).nodes@.len() <= old(self).nodes@.len(),
            forall|i: int| 0 <= i < old(self).nodes@.len() && old(self).node_alive(i) ==> {
                let h = old(self).node_handles@[i];
                &&& final(self).valid_node_handle(h)
                &&& final(self).nodes@[final(self).node_index_of(h)] == old(self).nodes@[i]
                &&& final(self).node_edge_slots@[final(self).node_index_of(h)]
                    == old(self).node_edge_slots@[i]
            },
            forall|h2: NodeHandle| final(self).valid_node_handle(h2)
                ==> exists|i: int| 0 <= i < old(self).nodes@.len() && old(self).node_alive(i)
                    && old(self).node_handles@[i] == h2,
            forall|i1: int, i2: int| 0 <= i1 < i2 < old(self).nodes@.len()
                && old(self).node_alive(i1) && old(self).node_alive(i2)
                ==> final(self).node_index_of(old(self).node_handles@[i1])
                    < final(self).node_index_of(old(self).node_handles@[i2]),
    {
        let ghost g0 = *old(self);
        let n = self.nodes.len();
        let mut new_nodes: Vec<N> = Vec::new();
        let mut new_handles: Vec<NodeHandle> = Vec::new();
        let mut new_slots: Vec<Vec<Option<EdgeHandle>>> = Vec::new();
        let ghost mut src: Seq<int> = Seq::empty();
        let mut i: usize = 0;
        while i < n
            invariant
                g0.node_table_condemned_wf(),
                n == g0.nodes@.len(),
                i <= n,
                self.nodes@ == g0.nodes@.subrange(i as int, n as int),
                self.node_edge_slots@ == g0.node_edge_slots@.subrange(i as int, n as int),
                self.node_handles@ == g0.node_handles@,
                self.node_slot_gen@ == g0.node_slot_gen@,
                self.node_free_slots@ == g0.node_free_slots@,
                self.node_slot_map@.len() == g0.node_slot_map@.len(),
                self.edges_unchanged(g0),
                self.meta_edges_unchanged(g0),
                src.len() == new_nodes@.len(),
                src.len() == new_handles@.len(),
                src.len() == new_slots@.len(),
                src.len() <= i,
                forall|t: int| 0 <= t < src.len() ==> {
                    let j = #[trigger] src[t];
                    &&& 0 <= j < i
                    &&& g0.node_alive(j)
                    &&& new_handles@[t] == g0.node_handles@[j]
                    &&& new_nodes@[t] == g0.nodes@[j]
                    &&& new_slots@[t] == g0.node_edge_slots@[j]
                    &&& self.node_slot_map@[g0.node_handles@[j].slot as int]
                        == Some(t as usize)
                },
                forall|t1: int, t2: int| 0 <= t1 < t2 < src.len() ==> src[t1] < src[t2],
                forall|j: int| 0 <= j < i && g0.node_alive(j) ==> {
                    let t = self.node_slot_map@[g0.node_handles@[j].slot as int]->0 as int;
                    &&& self.node_slot_map@[g0.node_handles@[j].slot as int] is Some
                    &&& 0 <= t < src.len()
                    &&& src[t] == j
                },
                forall|j: int| i <= j < n
                    ==> self.node_slot_map@[#[trigger] g0.node_handles@[j].slot as int]
                        == g0.node_slot_map@[g0.node_handles@[j].slot as int],
                forall|s: int| 0 <= s < g0.node_slot_map@.len()
                    && g0.node_slot_map@[s] is None
                    ==> #[trigger] self.node_slot_map@[s] is None,
            decreases n - i,
        {
            let nd = self.nodes.remove(0);
            let row = self.node_edge_slots.remove(0);
            let h = self.node_handles[i];
            let alive = match self.node_slot_map[h.slot] {
                Some(_) => true,
                None => false,
            };
            proof {
                assert(g0.node_handles@[i as int].slot < g0.node_slot_map@.len());
                assert(alive == g0.node_alive(i as int));
            }
            if alive {
                let t = new_nodes.len();
                self.node_slot_map.set(h.slot, Some(t));
                new_nodes.push(nd);
                new_handles.push(h);
                new_slots.push(row);
                proof {
                    src = src.push(i as int);
                    assert forall|j: int| i + 1 <= j < n implies
                        self.node_slot_map@[#[trigger] g0.node_handles@[j].slot as int]
                            == g0.node_slot_map@[g0.node_handles@[j].slot as int] by {
                        assert(g0.node_handles@[j].slot != g0.node_handles@[i as int].slot);
                    }
                }
            }
            proof {
                assert(self.nodes@ =~= g0.nodes@.subrange(i + 1, n as int));
                assert(self.node_edge_slots@ =~= g0.node_edge_slots@.subrange(i + 1, n as int));
            }
            i = i + 1;
        }
        self.nodes = new_nodes;
        self.node_handles = new_handles;
        self.node_edge_slots = new_slots;
        proof {
            assert forall|t: int| 0 <= t < self.node_handles@.len() implies {
                let h = #[trigger] self.node_handles@[t];
                &&& h.slot < self.node_slot_map@.len()
                &&& self.node_slot_map@[h.slot as int] == Some(t as usize)
                &&& self.node_slot_gen@[h.slot as int] == h.generation
            } by {
                let j = src[t];
                assert(g0.node_alive(j));
                assert(self.node_handles@[t] == g0.node_handles@[j]);
            }
            assert forall|s: int| 0 <= s < self.node_slot_map@.len()
                && #[trigger] self.node_slot_map@[s] is Some implies {
                let t = self.node_slot_map@[s]->0 as int;
                &&& 0 <= t < self.node_handles@.len()
                &&& self.node_handles@[t].slot == s
            } by {
                assert(g0.node_slot_map@[s] is Some);
                let j0 = g0.node_slot_map@[s]->0 as int;
                assert(g0.node_handles@[j0].slot == s);
                assert(g0.node_alive(j0));
                let t = self.node_slot_map@[g0.node_handles@[j0].slot as int]->0 as int;
                assert(src[t] == j0);
                assert(self.node_handles@[t] == g0.node_handles@[j0]);
            }
            assert forall|h2: NodeHandle| final(self).valid_node_handle(h2) implies
                exists|j: int| 0 <= j < g0.nodes@.len() && g0.node_alive(j)
                    && g0.node_handles@[j] == h2 by {
                let t = self.node_slot_map@[h2.slot as int]->0 as int;
                assert(g0.node_alive(src[t]) && g0.node_handles@[src[t]] == h2);
            }
            assert forall|i1: int, i2: int| 0 <= i1 < i2 < g0.nodes@.len()
                && g0.node_alive(i1) && g0.node_alive(i2) implies
                final(self).node_index_of(g0.node_handles@[i1])
                    < final(self).node_index_of(g0.node_handles@[i2]) by {
                let t1 = self.node_slot_map@[g0.node_handles@[i1].slot as int]->0 as int;
                let t2 = self.node_slot_map@[g0.node_handles@[i2].slot as int]->0 as int;
                assert(src[t1] == i1 && src[t2] == i2);
                if t1 >= t2 {
                    if t1 == t2 {
                        assert(false);
                    } else {
                        assert(src[t2] < src[t1]);
                        assert(false);
                    }
                }
            }
        }
    }

    /// Drops every bond-slot entry that names a dead edge.
    fn sweep_node_slots(&mut self)
        requires
            old(self).node_edge_slots@.len() == old(self).nodes@.len(),
            forall|i: int| 0 <= i < old(self).node_edge_slots@.len()
                ==> #[trigger] old(self).node_edge_slots@[i]@.len() == MAX_BONDS,
            old(self).edge_lookup_safe(),
        ensures
            final(self).node_edge_slots@.len() == old(self).node_edge_slots@.len(),
            forall|i: int| 0 <= i < final(self).node_edge_slots@.len()
                ==> #[trigger] final(self).node_edge_slots@[i]@.len() == MAX_BONDS,
            forall|i: int, j: int|
                0 <= i < old(self).node_edge_slots@.len() && 0 <= j < MAX_BONDS
                ==> final(self).edge_slot_spec(i, j) == {
                    let sl = old(self).edge_slot_spec(i, j);
                    if sl is Some && old(self).valid_edge_handle(sl->0) {
                        sl
                    } else {
                        None
                    }
                },
            final(self).nodes@ == old(self).nodes@,
            final(self).node_handles@ == old(self).node_handles@,
            final(self).node_slot_map@ == old(self).node_slot_map@,
            final(self).node_slot_gen@ == old(self).node_slot_gen@,
            final(self).node_free_slots@ == old(self).node_free_slots@,
            final(self).edges_unchanged(*old(self)),
            final(self).meta_edges_unchanged(*old(self)),
    {
        let ghost g0 = *old(self);
        let n = self.node_edge_slots.len();
        let mut i: usize = 0;
        while i < n
            invariant
                g0.edge_lookup_safe(),
                forall|i2: int| 0 <= i2 < g0.node_edge_slots@.len()
                    ==> #[trigger] g0.node_edge_slots@[i2]@.len() == MAX_BONDS,
                n == g0.node_edge_slots@.len(),
                i <= n,
                self.node_edge_slots@.len() == n,
                self.nodes@ == g0.nodes@,
                self.node_handles@ == g0.node_handles@,
                self.node_slot_map@ == g0.node_slot_map@,
                self.node_slot_gen@ == g0.node_slot_gen@,
                self.node_free_slots@ == g0.node_free_slots@,
                self.edges_unchanged(g0),
                self.meta_edges_unchanged(g0),
                forall|i2: int| i <= i2 < n
                    ==> #[trigger] self.node_edge_slots@[i2] == g0.node_edge_slots@[i2],
                forall|i2: int| 0 <= i2 < i
                    ==> #[trigger] self.node_edge_slots@[i2]@.len() == MAX_BONDS,
                forall|i2: int, j: int| 0 <= i2 < i && 0 <= j < MAX_BONDS
                    ==> self.node_edge_slots@[i2]@[j] == {
                        let sl = g0.node_edge_slots@[i2]@[j];
                        if sl is Some && g0.valid_edge_handle(sl->0) {
                            sl
                        } else {
                            None
                        }
                    },
            decreases n - i,
        {
            let mut row: Vec<Option<EdgeHandle>> = Vec::new();
            let mut j: usize = 0;
            while j < MAX_BONDS
                invariant
                    g0.edge_lookup_safe(),
                    i < n,
                    n == g0.node_edge_slots@.len(),
                    self.node_edge_slots@.len() == n,
                    self.edges_unchanged(g0),
                    self.node_edge_slots@[i as int] == g0.node_edge_slots@[i as int],
                    g0.node_edge_slots@[i as int]@.len() == MAX_BONDS,
                    j <= MAX_BONDS,
                    row@.len() == j,
                    forall|j2: int| 0 <= j2 < j ==> row@[j2] == {
                        let sl = g0.node_edge_slots@[i as int]@[j2];
                        if sl is Some && g0.valid_edge_handle(sl->0) {
                            sl
                        } else {
                            None
                        }
                    },
                decreases MAX_BONDS - j,
            {
                let sl = self.node_edge_slots[i][j];
                let keep = match sl {
                    Some(eh) => self.edge_live(eh),
                    None => false,
                };
                row.push(if keep { sl } else { None });
                j = j + 1;
            }
            self.node_edge_slots.set(i, row);
            i = i + 1;
        }
    }

    // ----- meta-edge removal machinery -----------------------------------

    spec fn meta_table_condemned_wf(&self) -> bool {
        &&& self.meta_edge_handles@.len() == self.meta_edges@.len()
        &&& self.meta_edge_edges@.len() == self.meta_edges@.len()
        &&& self.meta_slot_gen@.len() == self.meta_slot_map@.len()
        &&& forall|i: int| 0 <= i < self.meta_edge_handles@.len() ==> {
            let h = #[trigger] self.meta_edge_handles@[i];
            &&& h.slot < self.meta_slot_map@.len()
            &&& self.meta_slot_gen@[h.slot as int] == h.generation
            &&& (self.meta_slot_map@[h.slot as int] == Some(i as usize)
                || self.meta_slot_map@[h.slot as int] is None)
        }
        &&& forall|s: int| 0 <= s < self.meta_slot_map@.len()
            && #[trigger] self.meta_slot_map@[s] is Some ==> {
            let i = self.meta_slot_map@[s]->0 as int;
            &&& 0 <= i < self.meta_edge_handles@.len()
            &&& self.meta_edge_handles@[i].slot == s
        }
        &&& forall|k: int| 0 <= k < self.meta_free_slots@.len() ==> {
            let s = #[trigger] self.meta_free_slots@[k];
            &&& s < self.meta_slot_map@.len()
            &&& self.meta_slot_map@[s as int] is None
        }
        &&& forall|k1: int, k2: int| 0 <= k1 < k2 < self.meta_free_slots@.len()
            ==> self.meta_free_slots@[k1] != self.meta_free_slots@[k2]
    }

    /// Whether the dense meta-edge at `i` has escaped condemnation.
    spec fn meta_alive(&self, i: int) -> bool {
        self.meta_slot_map@[self.meta_edge_handles@[i].slot as int] is Some
    }

    /// Clears a live meta-edge's table entry and frees its slot.
    fn condemn_meta_edge(&mut self, h: MetaEdgeHandle)
        requires
            old(self).meta_table_condemned_wf(),
            old(self).valid_meta_edge_handle(h),
        ensures
            final(self).meta_table_condemned_wf(),
            final(self).meta_slot_map@
                == old(self).meta_slot_map@.update(h.slot as int, None),
            final(self).meta_edges@ == old(self).meta_edges@,
            final(self).meta_edge_handles@ == old(self).meta_edge_handles@,
            final(self).meta_edge_edges@ == old(self).meta_edge_edges@,
            final(self).meta_slot_gen@ == old(self).meta_slot_gen@,
            final(self).nodes_unchanged(*old(self)),
            final(self).edges_unchanged(*old(self)),
    {
        self.meta_slot_map.set(h.slot, None);
        self.meta_free_slots.push(h.slot);
    }

    /// Drops every condemned meta-edge from the dense storage, keeping the
    /// survivors in order, and points the table at their new positions.
    #[verifier::rlimit(30)]
    fn compact_condemned_meta_edges(&mut self)
        requires
            old(self).meta_table_condemned_wf(),
        ensures
            final(self).meta_table_wf(),
            final(self).nodes_unchanged(*old(self)),
            final(self).edges_unchanged(*old(self)),
            final(self).meta_slot_gen@ == old(self).meta_slot_gen@,
            final(self).meta_free_slots@ == old(self).meta_free_slots@,
            final(self).meta_slot_map@.len() == old(self).meta_slot_map@.len(),
            final(self).meta_edges@.len() <= old(self).meta_edges@.len(),
            forall|i: int| 0 <= i < old(self).meta_edges@.len() && old(self).meta_alive(i) ==> {
                let h = old(self).meta_edge_handles@[i];
                &&& final(self).valid_meta_edge_handle(h)
                &&& final(self).meta_edges@[final(self).meta_edge_index_of(h)]
                    == old(self).meta_edges@[i]
                &&& final(self).meta_edge_edges@[final(self).meta_edge_index_of(h)]
                    == old(self).meta_edge_edges@[i]
            },
            forall|h2: MetaEdgeHandle| final(self).valid_meta_edge_handle(h2)
                ==> exists|i: int| 0 <= i < old(self).meta_edges@.len()
                    && old(self).meta_alive(i) && old(self).meta_edge_handles@[i] == h2,
            forall|i1: int, i2: int| 0 <= i1 < i2 < old(self).meta_edges@.len()
                && old(self).meta_alive(i1) && old(self).meta_alive(i2)
                ==> final(self).meta_edge_index_of(old(self).meta_edge_handles@[i1])
                    < final(self).meta_edge_index_of(old(self).meta_edge_handles@[i2]),
    {
        let ghost g0 = *old(self);
        let n = self.meta_edges.len();
        let mut new_metas: Vec<M> = Vec::new();
        let mut new_handles: Vec<MetaEdgeHandle> = Vec::new();
        let mut new_edges2: Vec<(EdgeHandle, EdgeHandle)> = Vec::new();
        let ghost mut src: Seq<int> = Seq::empty();
        let mut i: usize = 0;
        while i < n
            invariant
                g0.meta_table_condemned_wf(),
                n == g0.meta_edges@.len(),
                i <= n,
                self.meta_edges@ == g0.meta_edges@.subrange(i as int, n as int),
                self.meta_edge_handles@ == g0.meta_edge_handles@,
                self.meta_edge_edges@ == g0.meta_edge_edges@,
                self.meta_slot_gen@ == g0.meta_slot_gen@,
                self.meta_free_slots@ == g0.meta_free_slots@,
                self.meta_slot_map@.len() == g0.meta_slot_map@.len(),
                self.nodes_unchanged(g0),
                self.edges_unchanged(g0),
                src.len() == new_metas@.len(),
                src.len() == new_handles@.len(),
                src.len() == new_edges2@.len(),
                src.len() <= i,
                forall|t: int| 0 <= t < src.len() ==> {
                    let j = #[trigger] src[t];
                    &&& 0 <= j < i
                    &&& g0.meta_alive(j)
                    &&& new_handles@[t] == g0.meta_edge_handles@[j]
                    &&& new_metas@[t] == g0.meta_edges@[j]
                    &&& new_edges2@[t] == g0.meta_edge_edges@[j]
                    &&& self.meta_slot_map@[g0.meta_edge_handles@[j].slot as int]
                        == Some(t as usize)
                },
                forall|t1: int, t2: int| 0 <= t1 < t2 < src.len() ==> src[t1] < src[t2],
                forall|j: int| 0 <= j < i && g0.meta_alive(j) ==> {
                    let t = self.meta_slot_map@[g0.meta_edge_handles@[j].slot as int]->0 as int;
                    &&& self.meta_slot_map@[g0.meta_edge_handles@[j].slot as int] is Some
                    &&& 0 <= t < src.len()
                    &&& src[t] == j
                },
                forall|j: int| i <= j < n
                    ==> self.meta_slot_map@[#[trigger] g0.meta_edge_handles@[j].slot as int]
                        == g0.meta_slot_map@[g0.meta_edge_handles@[j].slot as int],
                forall|s: int| 0 <= s < g0.meta_slot_map@.len()
                    && g0.meta_slot_map@[s] is None
                    ==> #[trigger] self.meta_slot_map@[s] is None,
            decreases n - i,
        {
            let m = self.meta_edges.remove(0);
            let h = self.meta_edge_handles[i];
            let alive = match self.meta_slot_map[h.slot] {
                Some(_) => true,
                None => false,
            };
            proof {
                assert(g0.meta_edge_handles@[i as int].slot < g0.meta_slot_map@.len());
                assert(alive == g0.meta_alive(i as int));
            }
            if alive {
                let t = new_metas.len();
                self.meta_slot_map.set(h.slot, Some(t));
                new_metas.push(m);
                new_handles.push(h);
                new_edges2.push(self.meta_edge_edges[i]);
                proof {
                    src = src.push(i as int);
                    assert forall|j: int| i + 1 <= j < n implies
                        self.meta_slot_map@[#[trigger] g0.meta_edge_handles@[j].slot as int]
                            == g0.meta_slot_map@[g0.meta_edge_handles@[j].slot as int] by {
                        assert(g0.meta_edge_handles@[j].slot
                            != g0.meta_edge_handles@[i as int].slot);
                    }
                }
            }
            proof {
                assert(self.meta_edges@ =~= g0.meta_edges@.subrange(i + 1, n as int));
            }
            i = i + 1;
        }
        self.meta_edges = new_metas;
        self.meta_edge_handles = new_handles;
        self.meta_edge_edges = new_edges2;
        proof {
            assert forall|t: int| 0 <= t < self.meta_edge_handles@.len() implies {
                let h = #[trigger] self.meta_edge_handles@[t];
                &&& h.slot < self.meta_slot_map@.len()
                &&& self.meta_slot_map@[h.slot as int] == Some(t as usize)
                &&& self.meta_slot_gen@[h.slot as int] == h.generation
            } by {
                let j = src[t];
                assert(g0.meta_alive(j));
                assert(self.meta_edge_handles@[t] == g0.meta_edge_handles@[j]);
            }
            assert forall|s: int| 0 <= s < self.meta_slot_map@.len()
                && #[trigger] self.meta_slot_map@[s] is Some implies {
                let t = self.meta_slot_map@[s]->0 as int;
                &&& 0 <= t < self.meta_edge_handles@.len()
                &&& self.meta_edge_handles@[t].slot == s
            } by {
                assert(g0.meta_slot_map@[s] is Some);
                let j0 = g0.meta_slot_map@[s]->0 as int;
                assert(g0.meta_edge_handles@[j0].slot == s);
                assert(g0.meta_alive(j0));
                let t = self.meta_slot_map@[g0.meta_edge_handles@[j0].slot as int]->0 as int;
                assert(src[t] == j0);
                assert(self.meta_edge_handles@[t] == g0.meta_edge_handles@[j0]);
            }
            assert forall|h2: MetaEdgeHandle| final(self).valid_meta_edge_handle(h2) implies
                exists|j: int| 0 <= j < g0.meta_edges@.len() && g0.meta_alive(j)
                    && g0.meta_edge_handles@[j] == h2 by {
                let t = self.meta_slot_map@[h2.slot as int]->0 as int;
                assert(g0.meta_alive(src[t]) && g0.meta_edge_handles@[src[t]] == h2);
            }
            assert forall|i1: int, i2: int| 0 <= i1 < i2 < g0.meta_edges@.len()
                && g0.meta_alive(i1) && g0.meta_alive(i2) implies
                final(self).meta_edge_index_of(g0.meta_edge_handles@[i1])
                    < final(self).meta_edge_index_of(g0.meta_edge_handles@[i2]) by {
                let t1 = self.meta_slot_map@[g0.meta_edge_handles@[i1].slot as int]->0 as int;
                let t2 = self.meta_slot_map@[g0.meta_edge_handles@[i2].slot as int]->0 as int;
                assert(src[t1] == i1 && src[t2] == i2);
                if t1 >= t2 {
                    if t1 == t2 {
                        assert(false);
                    } else {
                        assert(src[t2] < src[t1]);
                        assert(false);
                    }
                }
            }
        }
    }

    // ----- bulk removal --------------------------------------------------

    /// Removes the listed edges. Every other edge keeps its payload, its
    /// endpoints and its relative position; bond slots naming a removed edge
    /// are emptied; a meta-edge survives exactly when both its edges do.
    #[verifier::rlimit(50)]
    pub fn remove_edges(&mut self, handles: &Vec<EdgeHandle>)
        requires
            old(self).wf(),
            forall|k: int| 0 <= k < handles@.len()
                ==> old(self).valid_edge_handle(#[trigger] handles@[k]),
        ensures
            final(self).wf(),
            forall|k: int| 0 <= k < handles@.len()
                ==> !final(self).valid_edge_handle(#[trigger] handles@[k]),
            forall|h2: EdgeHandle| #![trigger old(self).valid_edge_handle(h2)]
                old(self).valid_edge_handle(h2) && !handles@.contains(h2) ==> {
                &&& final(self).valid_edge_handle(h2)
                &&& final(self).edge_at_spec(final(self).edge_index_of(h2))
                    == old(self).edge_at_spec(old(self).edge_index_of(h2))
                &&& final(self).edge_nodes_at_spec(final(self).edge_index_of(h2))
                    == old(self).edge_nodes_at_spec(old(self).edge_index_of(h2))
            },
            forall|h2: EdgeHandle| #![trigger final(self).valid_edge_handle(h2)]
                final(self).valid_edge_handle(h2)
                ==> old(self).valid_edge_handle(h2) && !handles@.contains(h2),
            forall|ha: EdgeHandle, hb: EdgeHandle|
                old(self).valid_edge_handle(ha) && !handles@.contains(ha)
                && old(self).valid_edge_handle(hb) && !handles@.contains(hb)
                && old(self).edge_index_of(ha) < old(self).edge_index_of(hb)
                ==> final(self).edge_index_of(ha) < final(self).edge_index_of(hb),
            final(self).node_structure_unchanged(*old(self)),
            forall|i: int, j: int| #![trigger final(self).edge_slot_spec(i, j)]
                0 <= i < old(self).node_count_spec() && 0 <= j < MAX_BONDS
                ==> final(self).edge_slot_spec(i, j) == {
                    let sl = old(self).edge_slot_spec(i, j);
                    if sl is Some && !handles@.contains(sl->0) {
                        sl
                    } else {
                        None
                    }
                },
            forall|mh: MetaEdgeHandle| #![trigger old(self).valid_meta_edge_handle(mh)]
                old(self).valid_meta_edge_handle(mh)
                && !handles@.contains(
                    old(self).meta_edge_edges_at_spec(old(self).meta_edge_index_of(mh)).0,
                )
                && !handles@.contains(
                    old(self).meta_edge_edges_at_spec(old(self).meta_edge_index_of(mh)).1,
                ) ==> {
                &&& final(self).valid_meta_edge_handle(mh)
                &&& final(self).meta_edge_at_spec(final(self).meta_edge_index_of(mh))
                    == old(self).meta_edge_at_spec(old(self).meta_edge_index_of(mh))
                &&& final(self).meta_edge_edges_at_spec(final(self).meta_edge_index_of(mh))
                    == old(self).meta_edge_edges_at_spec(old(self).meta_edge_index_of(mh))
            },
            forall|mh: MetaEdgeHandle| #![trigger final(self).valid_meta_edge_handle(mh)]
                final(self).valid_meta_edge_handle(mh) ==> {
                &&& old(self).valid_meta_edge_handle(mh)
                &&& final(self).meta_edge_at_spec(final(self).meta_edge_index_of(mh))
                    == old(self).meta_edge_at_spec(old(self).meta_edge_index_of(mh))
                &&& final(self).meta_edge_edges_at_spec(final(self).meta_edge_index_of(mh))
                    == old(self).meta_edge_edges_at_spec(old(self).meta_edge_index_of(mh))
                &&& final(self).valid_edge_handle(
                    final(self).meta_edge_edges_at_spec(final(self).meta_edge_index_of(mh)).0,
                )
                &&& final(self).valid_edge_handle(
                    final(self).meta_edge_edges_at_spec(final(self).meta_edge_index_of(mh)).1,
                )
                &&& !handles@.contains(
                    final(self).meta_edge_edges_at_spec(final(self).meta_edge_index_of(mh)).0,
                )
                &&& !handles@.contains(
                    final(self).meta_edge_edges_at_spec(final(self).meta_edge_index_of(mh)).1,
                )
            },
    {
        let ghost g0 = *old(self);
        let n_edges0 = self.edges.len();
        let n_metas0 = self.meta_edges.len();
        proof {
            assert(g0.edges@.len() == n_edges0);
            assert(g0.meta_edges@.len() == n_metas0);
        }
        let nh = handles.len();
        let mut k: usize = 0;
        while k < nh
            invariant
                g0.wf(),
                g0.edges@.len() <= usize::MAX,
                g0.meta_edges@.len() <= usize::MAX,
                forall|k2: int| 0 <= k2 < handles@.len()
                    ==> g0.valid_edge_handle(#[trigger] handles@[k2]),
                nh == handles@.len(),
                k <= nh,
                self.edge_table_condemned_wf(),
                self.edges@ == g0.edges@,
                self.edge_handles@ == g0.edge_handles@,
                self.edge_nodes@ == g0.edge_nodes@,
                self.edge_slot_gen@ == g0.edge_slot_gen@,
                self.edge_slot_map@.len() == g0.edge_slot_map@.len(),
                self.nodes_unchanged(g0),
                self.meta_edges_unchanged(g0),
                forall|i: int| 0 <= i < g0.edge_handles@.len()
                    ==> self.edge_slot_map@[(#[trigger] g0.edge_handles@[i]).slot as int] == (
                    if handles@.subrange(0, k as int).contains(g0.edge_handles@[i]) {
                        None
                    } else {
                        g0.edge_slot_map@[g0.edge_handles@[i].slot as int]
                    }),
                forall|s: int| 0 <= s < g0.edge_slot_map@.len()
                    && g0.edge_slot_map@[s] is None
                    ==> #[trigger] self.edge_slot_map@[s] is None,
            decreases nh - k,
        {
            let h = handles[k];
            let ghost m_pre = self.edge_slot_map@;
            let live = self.edge_live(h);
            if live {
                self.condemn_edge(h);
            }
            proof {
                let pre = handles@.subrange(0, k as int);
                let ext = handles@.subrange(0, k + 1);
                let x = handles@[k as int];
                assert(ext =~= pre.push(x));
                assert(ext[k as int] == x);
                assert forall|i: int| 0 <= i < g0.edge_handles@.len() implies
                    self.edge_slot_map@[(#[trigger] g0.edge_handles@[i]).slot as int] == (
                    if ext.contains(g0.edge_handles@[i]) {
                        None
                    } else {
                        g0.edge_slot_map@[g0.edge_handles@[i].slot as int]
                    }) by {
                    let h2 = g0.edge_handles@[i];
                    let ix = g0.edge_index_of(x);
                    assert(g0.valid_edge_handle(x));
                    assert(g0.edge_handles@[ix] == x);
                    if ext.contains(h2) {
                        let w = choose|w: int| 0 <= w < ext.len() && ext[w] == h2;
                        if w < k {
                            assert(pre[w] == h2);
                            assert(pre.contains(h2));
                            assert(m_pre[h2.slot as int] is None);
                        } else {
                            assert(h2 == x);
                            if live {
                                assert(self.edge_slot_map@[x.slot as int] is None);
                            } else {
                                if !pre.contains(x) {
                                    assert(m_pre[x.slot as int] == Some(ix as usize));
                                    assert(false);
                                }
                            }
                        }
                    } else {
                        if h2 == x {
                            assert(ext.contains(h2));
                            assert(false);
                        }
                        if pre.contains(h2) {
                            let w = choose|w: int| 0 <= w < pre.len() && pre[w] == h2;
                            assert(ext[w] == h2);
                            assert(ext.contains(h2));
                            assert(false);
                        }
                        assert(i != ix);
                        assert(h2.slot != x.slot);
                    }
                }
            }
            k = k + 1;
        }
        proof {
            assert(handles@.subrange(0, nh as int) =~= handles@);
        }
        let ghost g1 = *self;
        self.compact_condemned_edges();
        let ghost g2 = *self;
        proof {
            assert(self.node_edge_slots@.len() == g0.nodes@.len());
        }
        self.sweep_node_slots();
        let ghost g3 = *self;
        let nm = self.meta_edges.len();
        let mut mi: usize = 0;
        while mi < nm
            invariant
                g0.wf(),
                g0.edges@.len() <= usize::MAX,
                nm == g0.meta_edges@.len(),
                mi <= nm,
                self.meta_table_condemned_wf(),
                self.meta_edges@ == g0.meta_edges@,
                self.meta_edge_handles@ == g0.meta_edge_handles@,
                self.meta_edge_edges@ == g0.meta_edge_edges@,
                self.meta_slot_gen@ == g0.meta_slot_gen@,
                self.meta_slot_map@.len() == g0.meta_slot_map@.len(),
                self.nodes_unchanged(g3),
                self.edges_unchanged(g3),
                self.edge_lookup_safe(),
                forall|j: int| 0 <= j < nm
                    ==> self.meta_slot_map@[(#[trigger] g0.meta_edge_handles@[j]).slot as int]
                        == (
                    if j < mi && !(self.valid_edge_handle(g0.meta_edge_edges@[j].0)
                        && self.valid_edge_handle(g0.meta_edge_edges@[j].1)) {
                        None
                    } else {
                        g0.meta_slot_map@[g0.meta_edge_handles@[j].slot as int]
                    }),
                forall|s: int| 0 <= s < g0.meta_slot_map@.len()
                    && g0.meta_slot_map@[s] is None
                    ==> #[trigger] self.meta_slot_map@[s] is None,
            decreases nm - mi,
        {
            let (e1, e2) = self.meta_edge_edges[mi];
            let alive1 = self.edge_live(e1);
            let alive2 = self.edge_live(e2);
            if !(alive1 && alive2) {
                let mh = self.meta_edge_handles[mi];
                let ghost m_pre = self.meta_slot_map@;
                self.condemn_meta_edge(mh);
                proof {
                    assert forall|j: int| 0 <= j < nm && j != mi implies
                        self.meta_slot_map@[(#[trigger] g0.meta_edge_handles@[j]).slot as int]
                            == m_pre[g0.meta_edge_handles@[j].slot as int] by {
                        assert(g0.meta_edge_handles@[j].slot
                            != g0.meta_edge_handles@[mi as int].slot);
                    }
                }
            }
            mi = mi + 1;
        }
        let ghost g4 = *self;
        self.compact_condemned_meta_edges();
        let n_edges_final = self.edge_handles.len();
        let n_metas_final = self.meta_edge_handles.len();
        proof {
            assert(self.edge_handles@.len() == n_edges_final);
            assert(self.meta_edge_handles@.len() == n_metas_final);
            assert(g1.edges@.len() == g0.edges@.len());
            assert(g4.meta_edges@.len() == g0.meta_edges@.len());
            assert(self.edges_unchanged(g2));
            assert(self.node_structure_unchanged(g0));
            assert(self.node_edge_slots@ == g3.node_edge_slots@);
            assert(g2.node_edge_slots@ == g0.node_edge_slots@);

            // aliveness after condemnation is exactly "not listed"
            assert forall|i: int| 0 <= i < g1.edges@.len() implies
                g1.edge_alive(i) == !handles@.contains(g0.edge_handles@[i]) by {
                if !handles@.contains(g0.edge_handles@[i]) {
                    assert(g0.edge_slot_map@[g0.edge_handles@[i].slot as int]
                        == Some(i as usize));
                }
            }

            // survivors: valid in the final state, with data and order kept
            assert forall|h2: EdgeHandle|
                g0.valid_edge_handle(h2) && !handles@.contains(h2) implies {
                &&& self.valid_edge_handle(h2)
                &&& self.edge_at_spec(self.edge_index_of(h2))
                    == g0.edge_at_spec(g0.edge_index_of(h2))
                &&& self.edge_nodes_at_spec(self.edge_index_of(h2))
                    == g0.edge_nodes_at_spec(g0.edge_index_of(h2))
            } by {
                let i = g0.edge_index_of(h2);
                assert(g0.edge_handles@[i] == h2);
                assert(g1.edge_alive(i));
            }
            assert forall|h2: EdgeHandle| #![trigger self.valid_edge_handle(h2)]
                self.valid_edge_handle(h2) implies
                g0.valid_edge_handle(h2) && !handles@.contains(h2) by {
                assert(g2.valid_edge_handle(h2));
                let j = choose|j: int|
                    0 <= j < g1.edges@.len() && g1.edge_alive(j) && g1.edge_handles@[j] == h2;
                assert(!handles@.contains(g0.edge_handles@[j]));
                assert(g0.edge_slot_map@[h2.slot as int] == Some(j as usize));
                assert(g0.valid_edge_handle(h2));
                assert(!handles@.contains(h2));
            }
            assert forall|ha: EdgeHandle, hb: EdgeHandle|
                g0.valid_edge_handle(ha) && !handles@.contains(ha)
                && g0.valid_edge_handle(hb) && !handles@.contains(hb)
                && g0.edge_index_of(ha) < g0.edge_index_of(hb) implies
                self.edge_index_of(ha) < self.edge_index_of(hb) by {
                let ia = g0.edge_index_of(ha);
                let ib = g0.edge_index_of(hb);
                assert(g0.edge_handles@[ia] == ha && g0.edge_handles@[ib] == hb);
                assert(g1.edge_alive(ia) && g1.edge_alive(ib));
            }

            // bond slots hold exactly the surviving edges they held before
            assert forall|i: int, j: int|
                0 <= i < g0.node_count_spec() && 0 <= j < MAX_BONDS implies
                self.edge_slot_spec(i, j) == {
                    let sl = g0.edge_slot_spec(i, j);
                    if sl is Some && !handles@.contains(sl->0) {
                        sl
                    } else {
                        None
                    }
                } by {
                let sl = g0.edge_slot_spec(i, j);
                assert(self.edge_slot_spec(i, j) == g3.edge_slot_spec(i, j));
                if sl is Some {
                    let eh = sl->0;
                    assert(g0.valid_edge_handle(eh));
                    if !handles@.contains(eh) {
                        assert(g1.edge_alive(g0.edge_index_of(eh)));
                        assert(g2.valid_edge_handle(eh));
                    } else {
                        if g2.valid_edge_handle(eh) {
                            let j2 = choose|j2: int|
                                0 <= j2 < g1.edges@.len() && g1.edge_alive(j2)
                                    && g1.edge_handles@[j2] == eh;
                            assert(!handles@.contains(g0.edge_handles@[j2]));
                            assert(false);
                        }
                    }
                }
            }

            // which meta-edges survived condemnation
            assert forall|j: int| 0 <= j < g4.meta_edges@.len() implies
                g4.meta_alive(j) == (self.valid_edge_handle(g0.meta_edge_edges@[j].0)
                    && self.valid_edge_handle(g0.meta_edge_edges@[j].1)) by {
                assert(g4.meta_edge_handles@[j] == g0.meta_edge_handles@[j]);
                assert(g0.meta_slot_map@[g0.meta_edge_handles@[j].slot as int]
                    == Some(j as usize));
                assert(g4.edges_unchanged(*self));
            }

            // meta-edge survivor clauses
            assert forall|mh: MetaEdgeHandle|
                g0.valid_meta_edge_handle(mh)
                && !handles@.contains(
                    g0.meta_edge_edges_at_spec(g0.meta_edge_index_of(mh)).0,
                )
                && !handles@.contains(
                    g0.meta_edge_edges_at_spec(g0.meta_edge_index_of(mh)).1,
                ) implies {
                &&& self.valid_meta_edge_handle(mh)
                &&& self.meta_edge_at_spec(self.meta_edge_index_of(mh))
                    == g0.meta_edge_at_spec(g0.meta_edge_index_of(mh))
                &&& self.meta_edge_edges_at_spec(self.meta_edge_index_of(mh))
                    == g0.meta_edge_edges_at_spec(g0.meta_edge_index_of(mh))
            } by {
                let j = g0.meta_edge_index_of(mh);
                assert(g0.meta_edge_handles@[j] == mh);
                let e1 = g0.meta_edge_edges@[j].0;
                let e2 = g0.meta_edge_edges@[j].1;
                assert(g0.valid_edge_handle(e1) && g0.valid_edge_handle(e2));
                assert(self.valid_edge_handle(e1) && self.valid_edge_handle(e2));
                assert(g4.meta_alive(j));
            }
            assert forall|mh: MetaEdgeHandle| #![trigger self.valid_meta_edge_handle(mh)]
                self.valid_meta_edge_handle(mh) implies {
                &&& g0.valid_meta_edge_handle(mh)
                &&& self.meta_edge_at_spec(self.meta_edge_index_of(mh))
                    == g0.meta_edge_at_spec(g0.meta_edge_index_of(mh))
                &&& self.meta_edge_edges_at_spec(self.meta_edge_index_of(mh))
                    == g0.meta_edge_edges_at_spec(g0.meta_edge_index_of(mh))
                &&& self.valid_edge_handle(
                    self.meta_edge_edges_at_spec(self.meta_edge_index_of(mh)).0,
                )
                &&& self.valid_edge_handle(
                    self.meta_edge_edges_at_spec(self.meta_edge_index_of(mh)).1,
                )
                &&& !handles@.contains(
                    self.meta_edge_edges_at_spec(self.meta_edge_index_of(mh)).0,
                )
                &&& !handles@.contains(
                    self.meta_edge_edges_at_spec(self.meta_edge_index_of(mh)).1,
                )
            } by {
                let j = choose|j: int|
                    0 <= j < g4.meta_edges@.len() && g4.meta_alive(j)
                        && g4.meta_edge_handles@[j] == mh;
                assert(self.meta_edge_edges_at_spec(self.meta_edge_index_of(mh))
                    == g0.meta_edge_edges@[j]);
                assert(self.meta_edge_at_spec(self.meta_edge_index_of(mh))
                    == g0.meta_edges@[j]);
                assert(g4.meta_alive(j) == (self.valid_edge_handle(g0.meta_edge_edges@[j].0)
                    && self.valid_edge_handle(g0.meta_edge_edges@[j].1)));
                assert(g0.meta_slot_map@[mh.slot as int] == Some(j as usize));
            }

            // the listed edges are gone
            assert forall|k2: int| 0 <= k2 < handles@.len() implies
                !self.valid_edge_handle(#[trigger] handles@[k2]) by {
                if self.valid_edge_handle(handles@[k2]) {
                    assert(!handles@.contains(handles@[k2]));
                    assert(false);
                }
            }

            // well-formedness of the final state
            assert(self.node_table_wf());
            assert(self.edge_table_wf());
            assert(self.meta_table_wf());
            assert forall|i: int| 0 <= i < self.edge_nodes@.len() implies {
                let (n1, n2) = #[trigger] self.edge_nodes@[i];
                &&& self.valid_node_handle(n1)
                &&& self.valid_node_handle(n2)
                &&& n1 != n2
            } by {
                let h = self.edge_handles@[i];
                assert(self.edge_slot_map@[h.slot as int] == Some(i as usize));
                assert(self.valid_edge_handle(h) && self.edge_index_of(h) == i);
                assert(g2.valid_edge_handle(h));
                let j = choose|j: int|
                    0 <= j < g1.edges@.len() && g1.edge_alive(j) && g1.edge_handles@[j] == h;
                assert(self.edge_nodes@[i] == g0.edge_nodes@[j]);
            }
            assert forall|i: int| 0 <= i < self.meta_edge_edges@.len() implies {
                let (e1, e2) = #[trigger] self.meta_edge_edges@[i];
                &&& self.valid_edge_handle(e1)
                &&& self.valid_edge_handle(e2)
                &&& e1 != e2
                &&& self.edge_nodes@[self.edge_index_of(e1)].1
                    == self.edge_nodes@[self.edge_index_of(e2)].0
            } by {
                let mh = self.meta_edge_handles@[i];
                assert(self.valid_meta_edge_handle(mh) && self.meta_edge_index_of(mh) == i);
                let j = choose|j: int|
                    0 <= j < g4.meta_edges@.len() && g4.meta_alive(j)
                        && g4.meta_edge_handles@[j] == mh;
                assert(self.meta_edge_edges@[i] == g0.meta_edge_edges@[j]);
                let e1 = g0.meta_edge_edges@[j].0;
                let e2 = g0.meta_edge_edges@[j].1;
                assert(g0.valid_edge_handle(e1) && g0.valid_edge_handle(e2));
                assert(!handles@.contains(e1) && !handles@.contains(e2));
                assert(self.edge_nodes_at_spec(self.edge_index_of(e1))
                    == g0.edge_nodes_at_spec(g0.edge_index_of(e1)));
                assert(self.edge_nodes_at_spec(self.edge_index_of(e2))
                    == g0.edge_nodes_at_spec(g0.edge_index_of(e2)));
                assert(g0.edge_nodes@[g0.edge_index_of(e1)].1
                    == g0.edge_nodes@[g0.edge_index_of(e2)].0);
            }
            assert forall|i: int, j: int|
                0 <= i < self.node_edge_slots@.len() && 0 <= j < MAX_BONDS
                && #[trigger] self.node_edge_slots@[i]@[j] is Some implies {
                let eh = self.node_edge_slots@[i]@[j]->0;
                &&& self.valid_edge_handle(eh)
                &&& (self.edge_nodes@[self.edge_index_of(eh)].0 == self.node_handles@[i]
                    || self.edge_nodes@[self.edge_index_of(eh)].1 == self.node_handles@[i])
            } by {
                let eh = self.node_edge_slots@[i]@[j]->0;
                assert(self.edge_slot_spec(i, j) == Some(eh));
                assert(g0.edge_slot_spec(i, j) == Some(eh) && !handles@.contains(eh));
                assert(g0.valid_edge_handle(eh));
                assert(self.edge_nodes_at_spec(self.edge_index_of(eh))
                    == g0.edge_nodes_at_spec(g0.edge_index_of(eh)));
                assert(g0.edge_nodes@[g0.edge_index_of(eh)].0 == g0.node_handles@[i]
                    || g0.edge_nodes@[g0.edge_index_of(eh)].1 == g0.node_handles@[i]);
            }
        }
    }

    /// Removes the listed nodes. Every edge with a removed endpoint goes
    /// with them, every meta-edge with a removed edge in turn, and every
    /// bond slot naming a removed edge is emptied; everything else keeps its
    /// payload and relative position.
    #[verifier::rlimit(50)]
    pub fn remove_nodes(&mut self, handles: &Vec<NodeHandle>)
        requires
            old(self).wf(),
            forall|k: int| 0 <= k < handles@.len()
                ==> old(self).valid_node_handle(#[trigger] handles@[k]),
        ensures
            final(self).wf(),
            forall|k: int| 0 <= k < handles@.len()
                ==> !final(self).valid_node_handle(#[trigger] handles@[k]),
            forall|h2: NodeHandle| old(self).valid_node_handle(h2) && !handles@.contains(h2)
                ==> {
                &&& final(self).valid_node_handle(h2)
                &&& final(self).node_at_spec(final(self).node_index_of(h2))
                    == old(self).node_at_spec(old(self).node_index_of(h2))
            },
            forall|h2: NodeHandle| final(self).valid_node_handle(h2)
                ==> old(self).valid_node_handle(h2) && !handles@.contains(h2),
            forall|ha: NodeHandle, hb: NodeHandle|
                old(self).valid_node_handle(ha) && !handles@.contains(ha)
                && old(self).valid_node_handle(hb) && !handles@.contains(hb)
                && old(self).node_index_of(ha) < old(self).node_index_of(hb)
                ==> final(self).node_index_of(ha) < final(self).node_index_of(hb),
            forall|eh: EdgeHandle| old(self).valid_edge_handle(eh)
                && !handles@.contains(old(self).edge_node1_spec(eh))
                && !handles@.contains(old(self).edge_node2_spec(eh)) ==> {
                &&& final(self).valid_edge_handle(eh)
                &&& final(self).edge_at_spec(final(self).edge_index_of(eh))
                    == old(self).edge_at_spec(old(self).edge_index_of(eh))
                &&& final(self).edge_nodes_at_spec(final(self).edge_index_of(eh))
                    == old(self).edge_nodes_at_spec(old(self).edge_index_of(eh))
            },
            forall|eh: EdgeHandle| final(self).valid_edge_handle(eh) ==> {
                &&& old(self).valid_edge_handle(eh)
                &&& !handles@.contains(final(self).edge_node1_spec(eh))
                &&& !handles@.contains(final(self).edge_node2_spec(eh))
            },
            forall|h2: NodeHandle, j: int|
                #![trigger final(self).edge_slot_spec(final(self).node_index_of(h2), j)]
                old(self).valid_node_handle(h2) && !handles@.contains(h2) && 0 <= j < MAX_BONDS
                ==> final(self).edge_slot_spec(final(self).node_index_of(h2), j) == ({
                    let sl = old(self).edge_slot_spec(old(self).node_index_of(h2), j);
                    if sl is Some && !handles@.contains(old(self).edge_node1_spec(sl->0))
                        && !handles@.contains(old(self).edge_node2_spec(sl->0)) {
                        sl
                    } else {
                        None
                    }
                }),
            forall|mh: MetaEdgeHandle| #![trigger old(self).valid_meta_edge_handle(mh)]
                old(self).valid_meta_edge_handle(mh) && ({
                    let (e1, e2) = old(self).meta_edge_edges_at_spec(
                        old(self).meta_edge_index_of(mh),
                    );
                    &&& !handles@.contains(old(self).edge_node1_spec(e1))
                    &&& !handles@.contains(old(self).edge_node2_spec(e1))
                    &&& !handles@.contains(old(self).edge_node1_spec(e2))
                    &&& !handles@.contains(old(self).edge_node2_spec(e2))
                }) ==> {
                &&& final(self).valid_meta_edge_handle(mh)
                &&& final(self).meta_edge_at_spec(final(self).meta_edge_index_of(mh))
                    == old(self).meta_edge_at_spec(old(self).meta_edge_index_of(mh))
                &&& final(self).meta_edge_edges_at_spec(final(self).meta_edge_index_of(mh))
                    == old(self).meta_edge_edges_at_spec(old(self).meta_edge_index_of(mh))
            },
            forall|mh: MetaEdgeHandle| #![trigger final(self).valid_meta_edge_handle(mh)]
                final(self).valid_meta_edge_handle(mh) ==> {
                &&& old(self).valid_meta_edge_handle(mh)
                &&& final(self).meta_edge_at_spec(final(self).meta_edge_index_of(mh))
                    == old(self).meta_edge_at_spec(old(self).meta_edge_index_of(mh))
                &&& final(self).meta_edge_edges_at_spec(final(self).meta_edge_index_of(mh))
                    == old(self).meta_edge_edges_at_spec(old(self).meta_edge_index_of(mh))
                &&& final(self).valid_edge_handle(
                    final(self).meta_edge_edges_at_spec(final(self).meta_edge_index_of(mh)).0,
                )
                &&& final(self).valid_edge_handle(
                    final(self).meta_edge_edges_at_spec(final(self).meta_edge_index_of(mh)).1,
                )
            },
    {
        let ghost g0 = *old(self);
        // collect the edges that lose an endpoint
        let ne = self.edges.len();
        let mut doomed: Vec<EdgeHandle> = Vec::new();
        let mut i: usize = 0;
        while i < ne
            invariant
                g0.wf(),
                *self == g0,
                ne == g0.edges@.len(),
                i <= ne,
                forall|t: int| 0 <= t < doomed@.len() ==> {
                    let eh = #[trigger] doomed@[t];
                    &&& g0.valid_edge_handle(eh)
                    &&& (handles@.contains(g0.edge_node1_spec(eh))
                        || handles@.contains(g0.edge_node2_spec(eh)))
                },
                forall|j: int| 0 <= j < i
                    && (handles@.contains((#[trigger] g0.edge_nodes@[j]).0)
                        || handles@.contains(g0.edge_nodes@[j].1))
                    ==> doomed@.contains(g0.edge_handles@[j]),
            decreases ne - i,
        {
            let (n1, n2) = self.edge_nodes[i];
            let listed = contains_node_handle(handles, n1) || contains_node_handle(handles, n2);
            let ghost d_pre = doomed@;
            if listed {
                let eh = self.edge_handles[i];
                doomed.push(eh);
                proof {
                    assert(g0.valid_edge_handle(eh) && g0.edge_index_of(eh) == i);
                    assert(doomed@[doomed@.len() - 1] == eh);
                    assert(doomed@.contains(eh));
                }
            }
            proof {
                assert forall|j: int| 0 <= j < i + 1
                    && (handles@.contains((#[trigger] g0.edge_nodes@[j]).0)
                        || handles@.contains(g0.edge_nodes@[j].1)) implies
                    doomed@.contains(g0.edge_handles@[j]) by {
                    if j < i {
                        assert(d_pre.contains(g0.edge_handles@[j]));
                        let w = choose|w: int|
                            0 <= w < d_pre.len() && d_pre[w] == g0.edge_handles@[j];
                        assert(doomed@[w] == g0.edge_handles@[j]);
                    } else {
                        assert(listed);
                    }
                }
            }
            i = i + 1;
        }
        self.remove_edges(&doomed);
        let ghost gm = *self;
        let n_edges_mid = self.edge_handles.len();
        proof {
            assert(gm.edge_handles@.len() == n_edges_mid);
            // an edge survived the cascade exactly when neither endpoint is listed
            assert forall|eh: EdgeHandle| #![trigger gm.valid_edge_handle(eh)]
                g0.valid_edge_handle(eh) implies
                gm.valid_edge_handle(eh) == (!handles@.contains(g0.edge_node1_spec(eh))
                    && !handles@.contains(g0.edge_node2_spec(eh))) by {
                let j = g0.edge_index_of(eh);
                assert(g0.edge_handles@[j] == eh);
                if handles@.contains(g0.edge_node1_spec(eh))
                    || handles@.contains(g0.edge_node2_spec(eh)) {
                    assert(doomed@.contains(g0.edge_handles@[j]));
                    assert(!gm.valid_edge_handle(eh));
                } else {
                    if doomed@.contains(eh) {
                        let t = choose|t: int| 0 <= t < doomed@.len() && doomed@[t] == eh;
                        assert(false);
                    }
                    assert(gm.valid_edge_handle(eh));
                }
            }
        }
        // condemn the listed nodes
        let nh = handles.len();
        let mut k: usize = 0;
        while k < nh
            invariant
                g0.wf(),
                gm.wf(),
                forall|k2: int| 0 <= k2 < handles@.len()
                    ==> g0.valid_node_handle(#[trigger] handles@[k2]),
                gm.node_structure_unchanged(g0),
                nh == handles@.len(),
                k <= nh,
                self.node_table_condemned_wf(),
                self.nodes@ == gm.nodes@,
                self.node_handles@ == gm.node_handles@,
                self.node_edge_slots@ == gm.node_edge_slots@,
                self.node_slot_gen@ == gm.node_slot_gen@,
                self.node_slot_map@.len() == gm.node_slot_map@.len(),
                self.edges_unchanged(gm),
                self.meta_edges_unchanged(gm),
                forall|i2: int| 0 <= i2 < gm.node_handles@.len()
                    ==> self.node_slot_map@[(#[trigger] gm.node_handles@[i2]).slot as int] == (
                    if handles@.subrange(0, k as int).contains(gm.node_handles@[i2]) {
                        None
                    } else {
                        gm.node_slot_map@[gm.node_handles@[i2].slot as int]
                    }),
                forall|s: int| 0 <= s < gm.node_slot_map@.len()
                    && gm.node_slot_map@[s] is None
                    ==> #[trigger] self.node_slot_map@[s] is None,
            decreases nh - k,
        {
            let h = handles[k];
            let ghost m_pre = self.node_slot_map@;
            let live = self.node_live(h);
            if live {
                self.condemn_node(h);
            }
            proof {
                let pre = handles@.subrange(0, k as int);
                let ext = handles@.subrange(0, k + 1);
                let x = handles@[k as int];
                assert(ext =~= pre.push(x));
                assert(ext[k as int] == x);
                assert forall|i2: int| 0 <= i2 < gm.node_handles@.len() implies
                    self.node_slot_map@[(#[trigger] gm.node_handles@[i2]).slot as int] == (
                    if ext.contains(gm.node_handles@[i2]) {
                        None
                    } else {
                        gm.node_slot_map@[gm.node_handles@[i2].slot as int]
                    }) by {
                    let h2 = gm.node_handles@[i2];
                    let ix = gm.node_index_of(x);
                    assert(gm.valid_node_handle(x));
                    assert(gm.node_handles@[ix] == x);
                    if ext.contains(h2) {
                        let w = choose|w: int| 0 <= w < ext.len() && ext[w] == h2;
                        if w < k {
                            assert(pre[w] == h2);
                            assert(pre.contains(h2));
                            assert(m_pre[h2.slot as int] is None);
                        } else {
                            assert(h2 == x);
                            if live {
                                assert(self.node_slot_map@[x.slot as int] is None);
                            } else {
                                if !pre.contains(x) {
                                    assert(m_pre[x.slot as int] == Some(ix as usize));
                                    assert(false);
                                }
                            }
                        }
                    } else {
                        if h2 == x {
                            assert(ext.contains(h2));
                            assert(false);
                        }
                        if pre.contains(h2) {
                            let w = choose|w: int| 0 <= w < pre.len() && pre[w] == h2;
                            assert(ext[w] == h2);
                            assert(ext.contains(h2));
                            assert(false);
                        }
                        assert(i2 != ix);
                        assert(h2.slot != x.slot);
                    }
                }
            }
            k = k + 1;
        }
        proof {
            assert(handles@.subrange(0, nh as int) =~= handles@);
        }
        let ghost gc = *self;
        self.compact_condemned_nodes();
        let n_nodes_final = self.node_handles.len();
        proof {
            assert(self.node_handles@.len() == n_nodes_final);
            assert(gc.nodes@.len() == gm.nodes@.len());
            assert(self.edges_unchanged(gm));
            assert(self.meta_edges_unchanged(gm));

            // node aliveness after condemnation is exactly "not listed"
            assert forall|i2: int| 0 <= i2 < gc.nodes@.len() implies
                gc.node_alive(i2) == !handles@.contains(gm.node_handles@[i2]) by {
                if !handles@.contains(gm.node_handles@[i2]) {
                    assert(gm.node_slot_map@[gm.node_handles@[i2].slot as int]
                        == Some(i2 as usize));
                }
            }

            // surviving nodes: valid, with payload, slots and order kept
            assert forall|h2: NodeHandle|
                gm.valid_node_handle(h2) && !handles@.contains(h2) implies {
                &&& self.valid_node_handle(h2)
                &&& self.node_at_spec(self.node_index_of(h2))
                    == gm.node_at_spec(gm.node_index_of(h2))
                &&& self.node_edge_slots@[self.node_index_of(h2)]
                    == gm.node_edge_slots@[gm.node_index_of(h2)]
            } by {
                let i2 = gm.node_index_of(h2);
                assert(gm.node_handles@[i2] == h2);
                assert(gc.node_alive(i2));
            }
            assert forall|h2: NodeHandle| #![trigger self.valid_node_handle(h2)]
                self.valid_node_handle(h2) implies
                gm.valid_node_handle(h2) && !handles@.contains(h2) by {
                let j = choose|j: int|
                    0 <= j < gc.nodes@.len() && gc.node_alive(j) && gc.node_handles@[j] == h2;
                assert(!handles@.contains(gm.node_handles@[j]));
                assert(gm.node_slot_map@[h2.slot as int] == Some(j as usize));
                assert(gm.valid_node_handle(h2));
                assert(!handles@.contains(h2));
            }
            assert forall|ha: NodeHandle, hb: NodeHandle|
                gm.valid_node_handle(ha) && !handles@.contains(ha)
                && gm.valid_node_handle(hb) && !handles@.contains(hb)
                && gm.node_index_of(ha) < gm.node_index_of(hb) implies
                self.node_index_of(ha) < self.node_index_of(hb) by {
                let ia = gm.node_index_of(ha);
                let ib = gm.node_index_of(hb);
                assert(gm.node_handles@[ia] == ha && gm.node_handles@[ib] == hb);
                assert(gc.node_alive(ia) && gc.node_alive(ib));
            }
            assert forall|k2: int| 0 <= k2 < handles@.len() implies
                !self.valid_node_handle(#[trigger] handles@[k2]) by {
                if self.valid_node_handle(handles@[k2]) {
                    assert(!handles@.contains(handles@[k2]));
                    assert(false);
                }
            }

            // edges are untouched by the node phase, so their validity and
            // endpoint values carry over from the cascade
            assert(self.edge_handles@.len() == n_edges_mid);
            assert forall|eh: EdgeHandle| #![trigger self.valid_edge_handle(eh)]
                self.valid_edge_handle(eh) implies {
                &&& gm.valid_edge_handle(eh)
                &&& g0.valid_edge_handle(eh)
                &&& self.edge_index_of(eh) == gm.edge_index_of(eh)
                &&& !handles@.contains(g0.edge_node1_spec(eh))
                &&& !handles@.contains(g0.edge_node2_spec(eh))
                &&& self.edge_nodes_at_spec(self.edge_index_of(eh))
                    == g0.edge_nodes_at_spec(g0.edge_index_of(eh))
                &&& self.edge_at_spec(self.edge_index_of(eh))
                    == g0.edge_at_spec(g0.edge_index_of(eh))
            } by {
                assert(gm.valid_edge_handle(eh));
                assert(g0.valid_edge_handle(eh) && !doomed@.contains(eh));
            }
            assert forall|eh: EdgeHandle|
                g0.valid_edge_handle(eh)
                && !handles@.contains(g0.edge_node1_spec(eh))
                && !handles@.contains(g0.edge_node2_spec(eh)) implies
                self.valid_edge_handle(eh) by {
                assert(gm.valid_edge_handle(eh));
            }

            // well-formedness of the final state
            assert(self.edge_table_wf());
            assert(self.meta_table_wf());
            assert forall|i2: int| 0 <= i2 < self.edge_nodes@.len() implies {
                let (n1, n2) = #[trigger] self.edge_nodes@[i2];
                &&& self.valid_node_handle(n1)
                &&& self.valid_node_handle(n2)
                &&& n1 != n2
            } by {
                let eh = self.edge_handles@[i2];
                assert(self.edge_slot_map@[eh.slot as int] == Some(i2 as usize));
                assert(self.valid_edge_handle(eh) && self.edge_index_of(eh) == i2);
                assert(gm.valid_edge_handle(eh) && gm.edge_index_of(eh) == i2);
                assert(gm.edge_nodes@[i2] == self.edge_nodes@[i2]);
                let (n1, n2) = gm.edge_nodes@[i2];
                assert(gm.valid_node_handle(n1) && gm.valid_node_handle(n2));
                assert(gm.edge_node1_spec(eh) == n1 && gm.edge_node2_spec(eh) == n2);
                assert(g0.edge_node1_spec(eh) == n1 && g0.edge_node2_spec(eh) == n2);
                assert(!handles@.contains(n1) && !handles@.contains(n2));
                assert(self.valid_node_handle(n1) && self.valid_node_handle(n2));
            }
            assert forall|mh: MetaEdgeHandle| #![trigger self.valid_meta_edge_handle(mh)]
                self.valid_meta_edge_handle(mh) implies {
                &&& g0.valid_meta_edge_handle(mh)
                &&& self.meta_edge_at_spec(self.meta_edge_index_of(mh))
                    == g0.meta_edge_at_spec(g0.meta_edge_index_of(mh))
                &&& self.meta_edge_edges_at_spec(self.meta_edge_index_of(mh))
                    == g0.meta_edge_edges_at_spec(g0.meta_edge_index_of(mh))
                &&& self.valid_edge_handle(
                    self.meta_edge_edges_at_spec(self.meta_edge_index_of(mh)).0,
                )
                &&& self.valid_edge_handle(
                    self.meta_edge_edges_at_spec(self.meta_edge_index_of(mh)).1,
                )
            } by {
                assert(gm.valid_meta_edge_handle(mh));
                assert(self.meta_edge_index_of(mh) == gm.meta_edge_index_of(mh));
                assert(gm.valid_edge_handle(
                    gm.meta_edge_edges_at_spec(gm.meta_edge_index_of(mh)).0,
                ));
                assert(gm.valid_edge_handle(
                    gm.meta_edge_edges_at_spec(gm.meta_edge_index_of(mh)).1,
                ));
            }
            assert forall|mh: MetaEdgeHandle| #![trigger g0.valid_meta_edge_handle(mh)]
                g0.valid_meta_edge_handle(mh) && ({
                    let (e1, e2) = g0.meta_edge_edges_at_spec(g0.meta_edge_index_of(mh));
                    &&& !handles@.contains(g0.edge_node1_spec(e1))
                    &&& !handles@.contains(g0.edge_node2_spec(e1))
                    &&& !handles@.contains(g0.edge_node1_spec(e2))
                    &&& !handles@.contains(g0.edge_node2_spec(e2))
                }) implies {
                &&& self.valid_meta_edge_handle(mh)
                &&& self.meta_edge_at_spec(self.meta_edge_index_of(mh))
                    == g0.meta_edge_at_spec(g0.meta_edge_index_of(mh))
                &&& self.meta_edge_edges_at_spec(self.meta_edge_index_of(mh))
                    == g0.meta_edge_edges_at_spec(g0.meta_edge_index_of(mh))
            } by {
                let jm = g0.meta_edge_index_of(mh);
                assert(g0.meta_edge_handles@[jm] == mh);
                let e1 = g0.meta_edge_edges@[jm].0;
                let e2 = g0.meta_edge_edges@[jm].1;
                assert(g0.valid_edge_handle(e1) && g0.valid_edge_handle(e2));
                let i1 = g0.edge_index_of(e1);
                let i2e = g0.edge_index_of(e2);
                assert(g0.edge_handles@[i1] == e1 && g0.edge_handles@[i2e] == e2);
                if doomed@.contains(e1) {
                    let t = choose|t: int| 0 <= t < doomed@.len() && doomed@[t] == e1;
                    assert(false);
                }
                if doomed@.contains(e2) {
                    let t = choose|t: int| 0 <= t < doomed@.len() && doomed@[t] == e2;
                    assert(false);
                }
                assert(gm.valid_meta_edge_handle(mh));
            }
            assert forall|h2: NodeHandle, j: int|
                #![trigger self.edge_slot_spec(self.node_index_of(h2), j)]
                g0.valid_node_handle(h2) && !handles@.contains(h2) && 0 <= j < MAX_BONDS implies
                self.edge_slot_spec(self.node_index_of(h2), j) == ({
                    let sl = g0.edge_slot_spec(g0.node_index_of(h2), j);
                    if sl is Some && !handles@.contains(g0.edge_node1_spec(sl->0))
                        && !handles@.contains(g0.edge_node2_spec(sl->0)) {
                        sl
                    } else {
                        None
                    }
                }) by {
                assert(gm.valid_node_handle(h2) && !handles@.contains(h2));
                let im = gm.node_index_of(h2);
                assert(im == g0.node_index_of(h2));
                assert(self.valid_node_handle(h2));
                let i2 = self.node_index_of(h2);
                assert(self.node_edge_slots@[i2] == gm.node_edge_slots@[im]);
                assert(gm.edge_slot_spec(im, j) == ({
                    let sl = g0.edge_slot_spec(im, j);
                    if sl is Some && !doomed@.contains(sl->0) {
                        sl
                    } else {
                        None
                    }
                }));
                let sl = g0.edge_slot_spec(im, j);
                if sl is Some {
                    let eh = sl->0;
                    assert(g0.valid_edge_handle(eh));
                    let ie = g0.edge_index_of(eh);
                    assert(g0.edge_handles@[ie] == eh);
                    if handles@.contains(g0.edge_node1_spec(eh))
                        || handles@.contains(g0.edge_node2_spec(eh)) {
                        assert(doomed@.contains(g0.edge_handles@[ie]));
                    } else {
                        if doomed@.contains(eh) {
                            let t = choose|t: int|
                                0 <= t < doomed@.len() && doomed@[t] == eh;
                            assert(false);
                        }
                    }
                }
            }
            assert(self.node_table_wf());
            assert forall|i2: int| 0 <= i2 < self.meta_edge_edges@.len() implies {
                let (e1, e2) = #[trigger] self.meta_edge_edges@[i2];
                &&& self.valid_edge_handle(e1)
                &&& self.valid_edge_handle(e2)
                &&& e1 != e2
                &&& self.edge_nodes@[self.edge_index_of(e1)].1
                    == self.edge_nodes@[self.edge_index_of(e2)].0
            } by {
                assert(self.meta_edge_edges@[i2] == gm.meta_edge_edges@[i2]);
                let (e1, e2) = gm.meta_edge_edges@[i2];
                assert(gm.valid_edge_handle(e1) && gm.valid_edge_handle(e2) && e1 != e2);
                assert(self.valid_edge_handle(e1) && self.valid_edge_handle(e2));
                assert(gm.edge_nodes@[gm.edge_index_of(e1)].1
                    == gm.edge_nodes@[gm.edge_index_of(e2)].0);
            }
            assert forall|i2: int| 0 <= i2 < self.node_edge_slots@.len() implies
                #[trigger] self.node_edge_slots@[i2]@.len() == MAX_BONDS by {
                let h2 = self.node_handles@[i2];
                assert(self.node_slot_map@[h2.slot as int] == Some(i2 as usize));
                assert(self.valid_node_handle(h2) && self.node_index_of(h2) == i2);
                assert(gm.valid_node_handle(h2) && !handles@.contains(h2));
                let im = gm.node_index_of(h2);
                assert(self.node_edge_slots@[i2] == gm.node_edge_slots@[im]);
                assert(gm.node_edge_slots@[im]@.len() == MAX_BONDS);
            }
            assert forall|i2: int, j: int|
                0 <= i2 < self.node_edge_slots@.len() && 0 <= j < MAX_BONDS
                && #[trigger] self.node_edge_slots@[i2]@[j] is Some implies {
                let eh = self.node_edge_slots@[i2]@[j]->0;
                &&& self.valid_edge_handle(eh)
                &&& (self.edge_nodes@[self.edge_index_of(eh)].0 == self.node_handles@[i2]
                    || self.edge_nodes@[self.edge_index_of(eh)].1 == self.node_handles@[i2])
            } by {
                let h2 = self.node_handles@[i2];
                assert(self.node_slot_map@[h2.slot as int] == Some(i2 as usize));
                assert(self.valid_node_handle(h2) && self.node_index_of(h2) == i2);
                assert(gm.valid_node_handle(h2) && !handles@.contains(h2));
                let im = gm.node_index_of(h2);
                assert(self.node_edge_slots@[i2] == gm.node_edge_slots@[im]);
                let eh = gm.node_edge_slots@[im]@[j]->0;
                assert(gm.valid_edge_handle(eh));
                assert(gm.edge_nodes@[gm.edge_index_of(eh)].0 == gm.node_handles@[im]
                    || gm.edge_nodes@[gm.edge_index_of(eh)].1 == gm.node_handles@[im]);
                assert(self.edges_unchanged(gm));
                assert(self.edge_index_of(eh) == gm.edge_index_of(eh));
            }
        }
    }

    // ----- frame predicates ----------------------------------------------

    /// All node bookkeeping equal to `other`'s — handles, tables, payloads —
    /// except possibly the bond-slot arrays.
    pub closed spec fn node_structure_unchanged(&self, other: Self) -> bool {
        &&& self.nodes@ == other.nodes@
        &&& self.node_handles@ == other.node_handles@
        &&& self.node_slot_map@ == other.node_slot_map@
        &&& self.node_slot_gen@ == other.node_slot_gen@
        &&& self.node_free_slots@ == other.node_free_slots@
    }

    /// All graph state equal to `other` except the payload at edge `i`,
    /// which is `e`.
    pub closed spec fn only_edge_payload_changed(&self, other: Self, i: int, e: E) -> bool {
        &&& self.edges@ == other.edges@.update(i, e)
        &&& self.edge_handles@ == other.edge_handles@
        &&& self.edge_nodes@ == other.edge_nodes@
        &&& self.edge_slot_map@ == other.edge_slot_map@
        &&& self.edge_slot_gen@ == other.edge_slot_gen@
        &&& self.edge_free_slots@ == other.edge_free_slots@
        &&& self.nodes_unchanged(other)
        &&& self.meta_edges_unchanged(other)
    }


    /// All graph state equal to `other` except the payload at node `i`,
    /// which is `n`.
    pub closed spec fn only_node_payload_changed(&self, other: Self, i: int, n: N) -> bool {
        &&& self.nodes@ == other.nodes@.update(i, n)
        &&& self.node_handles@ == other.node_handles@
        &&& self.node_edge_slots@ == other.node_edge_slots@
        &&& self.node_slot_map@ == other.node_slot_map@
        &&& self.node_slot_gen@ == other.node_slot_gen@
        &&& self.node_free_slots@ == other.node_free_slots@
        &&& self.edges_unchanged(other)
        &&& self.meta_edges_unchanged(other)
    }

    /// The edge storage (payloads, handles, endpoints, tables) equals `other`'s.
    pub closed spec fn edges_unchanged(&self, other: Self) -> bool {
        &&& self.edges@ == other.edges@
        &&& self.edge_handles@ == other.edge_handles@
        &&& self.edge_nodes@ == other.edge_nodes@
        &&& self.edge_slot_map@ == other.edge_slot_map@
        &&& self.edge_slot_gen@ == other.edge_slot_gen@
        &&& self.edge_free_slots@ == other.edge_free_slots@
    }

    /// The meta-edge storage equals `other`'s.
    pub closed spec fn meta_edges_unchanged(&self, other: Self) -> bool {
        &&& self.meta_edges@ == other.meta_edges@
        &&& self.meta_edge_handles@ == other.meta_edge_handles@
        &&& self.meta_edge_edges@ == other.meta_edge_edges@
        &&& self.meta_slot_map@ == other.meta_slot_map@
        &&& self.meta_slot_gen@ == other.meta_slot_gen@
        &&& self.meta_free_slots@ == other.meta_free_slots@
    }

    /// The node storage equals `other`'s.
    pub closed spec fn nodes_unchanged(&self, other: Self) -> bool {
        &&& self.nodes@ == other.nodes@
        &&& self.node_handles@ == other.node_handles@
        &&& self.node_edge_slots@ == other.node_edge_slots@
        &&& self.node_slot_map@ == other.node_slot_map@
        &&& self.node_slot_gen@ == other.node_slot_gen@
        &&& self.node_free_slots@ == other.node_free_slots@
    }

    // ----- what the frame predicates mean to the outside ------------------

    /// Facts every well-formed graph carries: counts are non-negative and a
    /// live handle's position is in range.
    pub proof fn lemma_observation_bounds(g: Self)
        requires
            g.wf(),
        ensures
            g.node_count_spec() >= 0,
            g.edge_count_spec() >= 0,
            g.meta_edge_count_spec() >= 0,
            forall|h: NodeHandle| #[trigger] g.valid_node_handle(h)
                ==> 0 <= g.node_index_of(h) < g.node_count_spec(),
            forall|h: EdgeHandle| #[trigger] g.valid_edge_handle(h)
                ==> 0 <= g.edge_index_of(h) < g.edge_count_spec(),
            forall|h: MetaEdgeHandle| #[trigger] g.valid_meta_edge_handle(h)
                ==> 0 <= g.meta_edge_index_of(h) < g.meta_edge_count_spec(),
            forall|h1: NodeHandle, h2: NodeHandle|
                #![trigger g.node_index_of(h1), g.node_index_of(h2)]
                g.valid_node_handle(h1) && g.valid_node_handle(h2) && h1 != h2
                ==> g.node_index_of(h1) != g.node_index_of(h2),
            forall|h1: EdgeHandle, h2: EdgeHandle|
                #![trigger g.edge_index_of(h1), g.edge_index_of(h2)]
                g.valid_edge_handle(h1) && g.valid_edge_handle(h2) && h1 != h2
                ==> g.edge_index_of(h1) != g.edge_index_of(h2),
    {
    }

    /// Graphs with equal edge storage agree on every edge observation.
    pub proof fn lemma_edges_unchanged_observations(g1: Self, g2: Self)
        requires
            g1.edges_unchanged(g2),
        ensures
            g1.edge_count_spec() == g2.edge_count_spec(),
            forall|i: int| 0 <= i < g1.edge_count_spec() ==> {
                &&& #[trigger] g1.edge_at_spec(i) == g2.edge_at_spec(i)
                &&& g1.edge_handle_at_spec(i) == g2.edge_handle_at_spec(i)
                &&& g1.edge_nodes_at_spec(i) == g2.edge_nodes_at_spec(i)
            },
            forall|eh: EdgeHandle| #[trigger] g1.valid_edge_handle(eh)
                == g2.valid_edge_handle(eh),
            forall|eh: EdgeHandle| #[trigger] g1.edge_index_of(eh) == g2.edge_index_of(eh),
    {
    }

    /// Graphs with equal node storage agree on every node observation.
    pub proof fn lemma_nodes_unchanged_observations(g1: Self, g2: Self)
        requires
            g1.nodes_unchanged(g2),
        ensures
            g1.node_count_spec() == g2.node_count_spec(),
            forall|i: int| 0 <= i < g1.node_count_spec() ==> {
                &&& #[trigger] g1.node_at_spec(i) == g2.node_at_spec(i)
                &&& g1.node_handle_at_spec(i) == g2.node_handle_at_spec(i)
            },
            forall|i: int, j: int| 0 <= i < g1.node_count_spec() && 0 <= j < MAX_BONDS
                ==> #[trigger] g1.edge_slot_spec(i, j) == g2.edge_slot_spec(i, j),
            forall|h: NodeHandle| #[trigger] g1.valid_node_handle(h)
                == g2.valid_node_handle(h),
            forall|h: NodeHandle| #[trigger] g1.node_index_of(h) == g2.node_index_of(h),
    {
    }

    /// Graphs with equal node bookkeeping, bond slots aside, agree on node
    /// payloads, handles, validity and positions.
    pub proof fn lemma_node_structure_unchanged_observations(g1: Self, g2: Self)
        requires
            g1.node_structure_unchanged(g2),
        ensures
            g1.node_count_spec() == g2.node_count_spec(),
            forall|i: int| 0 <= i < g1.node_count_spec() ==> {
                &&& #[trigger] g1.node_at_spec(i) == g2.node_at_spec(i)
                &&& g1.node_handle_at_spec(i) == g2.node_handle_at_spec(i)
            },
            forall|h: NodeHandle| #[trigger] g1.valid_node_handle(h)
                == g2.valid_node_handle(h),
            forall|h: NodeHandle| #[trigger] g1.node_index_of(h) == g2.node_index_of(h),
    {
    }

    /// Graphs with equal meta-edge storage agree on every meta-edge
    /// observation.
    pub proof fn lemma_meta_edges_unchanged_observations(g1: Self, g2: Self)
        requires
            g1.meta_edges_unchanged(g2),
        ensures
            g1.meta_edge_count_spec() == g2.meta_edge_count_spec(),
            forall|i: int| 0 <= i < g1.meta_edge_count_spec() ==> {
                &&& #[trigger] g1.meta_edge_at_spec(i) == g2.meta_edge_at_spec(i)
                &&& g1.meta_edge_handle_at_spec(i) == g2.meta_edge_handle_at_spec(i)
                &&& g1.meta_edge_edges_at_spec(i) == g2.meta_edge_edges_at_spec(i)
            },
            forall|mh: MetaEdgeHandle| #[trigger] g1.valid_meta_edge_handle(mh)
                == g2.valid_meta_edge_handle(mh),
            forall|mh: MetaEdgeHandle| #[trigger] g1.meta_edge_index_of(mh)
                == g2.meta_edge_index_of(mh),
    {
    }
}

fn contains_node_handle(handles: &Vec<NodeHandle>, h: NodeHandle) -> (b: bool)
    ensures
        b == handles@.contains(h),
{
    let n = handles.len();
    let mut found = false;
    let mut k: usize = 0;
    while k < n
        invariant
            n == handles@.len(),
            k <= n,
            found == handles@.subrange(0, k as int).contains(h),
        decreases n - k,
    {
        let hk = handles[k];
        if hk == h {
            found = true;
        }
        proof {
            let pre = handles@.subrange(0, k as int);
            let ext = handles@.subrange(0, k + 1);
            assert(ext =~= pre.push(handles@[k as int]));
            assert(ext[k as int] == handles@[k as int]);
            if pre.contains(h) {
                let w = choose|w: int| 0 <= w < pre.len() && pre[w] == h;
                assert(ext[w] == h);
                assert(ext.contains(h));
            }
            if handles@[k as int] == h {
                assert(ext.contains(h));
            }
            if ext.contains(h) && !pre.contains(h) && handles@[k as int] != h {
                let w = choose|w: int| 0 <= w < ext.len() && ext[w] == h;
                assert(pre[w] == h);
                assert(false);
            }
        }
        k = k + 1;
    }
    proof {
        assert(handles@.subrange(0, n as int) =~= handles@);
    }
    found
}

fn empty_edge_slots() -> (v: Vec<Option<EdgeHandle>>)
    ensures
        v@.len() == MAX_BONDS,
        forall|j: int| 0 <= j < MAX_BONDS ==> v@[j] is None,
{
    let mut v: Vec<Option<EdgeHandle>> = Vec::new();
    let mut k: usize = 0;
    while k < MAX_BONDS
        invariant
            k <= MAX_BONDS,
            v@.len() == k,
            forall|j: int| 0 <= j < k ==> v@[j] is None,
        decreases MAX_BONDS - k,
    {
        v.push(None);
        k = k + 1;
    }
    v
}

} // verus!
