//! Bonds and angle gussets. A bond joins two distinct cells and carries one
//! energy slot per endpoint: what the opposite endpoint has deposited and
//! this endpoint has not yet claimed. Claiming returns and empties the slot.
//! A gusset constrains the angle between two bonds that share a vertex.

use crate::sortable_graph::{EdgeHandle, NodeHandle};
use vstd::prelude::*;

verus! {

/// An undirected bond between the cells behind `node1` and `node2`, with the
/// energy waiting for each endpoint. `None` means an empty slot.
#[derive(Clone, Copy, Debug)]
pub struct Bond<En> {
    node1: NodeHandle,
    node2: NodeHandle,
    energy_for_cell1: Option<En>,
    energy_for_cell2: Option<En>,
}

impl<En: Copy> Bond<En> {
    /// The two endpoints are distinct cells.
    pub closed spec fn wf(&self) -> bool {
        self.node1 != self.node2
    }

    pub closed spec fn node1_spec(&self) -> NodeHandle {
        self.node1
    }

    pub closed spec fn node2_spec(&self) -> NodeHandle {
        self.node2
    }

    pub closed spec fn energy_for_cell1_spec(&self) -> Option<En> {
        self.energy_for_cell1
    }

    pub closed spec fn energy_for_cell2_spec(&self) -> Option<En> {
        self.energy_for_cell2
    }

    /// A cell may touch a bond only through one of its endpoints.
    pub open spec fn is_endpoint(&self, cell: NodeHandle) -> bool {
        cell == self.node1_spec() || cell == self.node2_spec()
    }

    /// The endpoint across the bond from `cell`.
    pub open spec fn opposite_endpoint(&self, cell: NodeHandle) -> NodeHandle {
        if cell == self.node1_spec() {
            self.node2_spec()
        } else {
            self.node1_spec()
        }
    }

    /// The energy waiting for `cell` to claim.
    pub closed spec fn energy_for(&self, cell: NodeHandle) -> Option<En> {
        if cell == self.node1 {
            self.energy_for_cell1
        } else {
            self.energy_for_cell2
        }
    }

    /// The bond after `cell` deposits `energy` for the opposite endpoint.
    pub closed spec fn deposited(self, cell: NodeHandle, energy: En) -> Bond<En> {
        if cell == self.node1 {
            Bond { energy_for_cell2: Some(energy), ..self }
        } else {
            Bond { energy_for_cell1: Some(energy), ..self }
        }
    }

    /// The bond after `cell` claims its slot, paired with what it claimed.
    pub closed spec fn claimed(self, cell: NodeHandle) -> (Bond<En>, Option<En>) {
        if cell == self.node1 {
            (Bond { energy_for_cell1: None, ..self }, self.energy_for_cell1)
        } else {
            (Bond { energy_for_cell2: None, ..self }, self.energy_for_cell2)
        }
    }

    pub fn new(node1: NodeHandle, node2: NodeHandle) -> (b: Self)
        requires
            node1 != node2,
        ensures
            b.wf(),
            b.node1_spec() == node1,
            b.node2_spec() == node2,
            b.energy_for_cell1_spec() is None,
            b.energy_for_cell2_spec() is None,
    {
        Bond { node1, node2, energy_for_cell1: None, energy_for_cell2: None }
    }

    pub fn node1_handle(&self) -> (h: NodeHandle)
        ensures
            h == self.node1_spec(),
    {
        self.node1
    }

    pub fn node2_handle(&self) -> (h: NodeHandle)
        ensures
            h == self.node2_spec(),
    {
        self.node2
    }

    pub fn energy_for_cell1(&self) -> (e: Option<En>)
        ensures
            e == self.energy_for_cell1_spec(),
    {
        self.energy_for_cell1
    }

    pub fn energy_for_cell2(&self) -> (e: Option<En>)
        ensures
            e == self.energy_for_cell2_spec(),
    {
        self.energy_for_cell2
    }

    /// Deposits energy from one endpoint into the slot waiting for the other
    /// endpoint. Only the opposite slot changes.
    pub fn set_energy_from_cell(&mut self, cell: NodeHandle, energy: En)
        requires
            old(self).wf(),
            old(self).is_endpoint(cell),
        ensures
            final(self).wf(),
            final(self).node1_spec() == old(self).node1_spec(),
            final(self).node2_spec() == old(self).node2_spec(),
            cell == old(self).node1_spec() ==> {
                &&& final(self).energy_for_cell2_spec() == Some(energy)
                &&& final(self).energy_for_cell1_spec() == old(self).energy_for_cell1_spec()
            },
            cell == old(self).node2_spec() ==> {
                &&& final(self).energy_for_cell1_spec() == Some(energy)
                &&& final(self).energy_for_cell2_spec() == old(self).energy_for_cell2_spec()
            },
            *final(self) == old(self).deposited(cell, energy),
    {
        if cell == self.node1 {
            self.energy_for_cell2 = Some(energy);
        } else {
            self.energy_for_cell1 = Some(energy);
        }
    }

    /// Takes whatever the opposite endpoint deposited for this cell, leaving
    /// the slot empty. The slot waiting for the other endpoint is untouched.
    pub fn claim_energy_for_cell(&mut self, cell: NodeHandle) -> (e: Option<En>)
        requires
            old(self).wf(),
            old(self).is_endpoint(cell),
        ensures
            final(self).wf(),
            final(self).node1_spec() == old(self).node1_spec(),
            final(self).node2_spec() == old(self).node2_spec(),
            cell == old(self).node1_spec() ==> {
                &&& e == old(self).energy_for_cell1_spec()
                &&& final(self).energy_for_cell1_spec() is None
                &&& final(self).energy_for_cell2_spec() == old(self).energy_for_cell2_spec()
            },
            cell == old(self).node2_spec() ==> {
                &&& e == old(self).energy_for_cell2_spec()
                &&& final(self).energy_for_cell2_spec() is None
                &&& final(self).energy_for_cell1_spec() == old(self).energy_for_cell1_spec()
            },
            *final(self) == old(self).claimed(cell).0,
            e == old(self).claimed(cell).1,
    {
        if cell == self.node1 {
            let e = self.energy_for_cell1;
            self.energy_for_cell1 = None;
            e
        } else {
            let e = self.energy_for_cell2;
            self.energy_for_cell2 = None;
            e
        }
    }
}

/// What one endpoint deposits through a bond is exactly what the opposite
/// endpoint then claims; the claim empties that slot and leaves the slot
/// waiting for the depositor untouched, and the endpoints never change.
pub proof fn lemma_bond_energy_round_trip<En: Copy>(
    b: Bond<En>,
    from_cell: NodeHandle,
    energy: En,
)
    requires
        b.wf(),
        b.is_endpoint(from_cell),
    ensures
        ({
            let to_cell = b.opposite_endpoint(from_cell);
            let after_deposit = b.deposited(from_cell, energy);
            let after_claim = after_deposit.claimed(to_cell).0;
            &&& after_deposit.claimed(to_cell).1 == Some(energy)
            &&& after_claim.energy_for(to_cell) is None
            &&& after_claim.energy_for(from_cell) == b.energy_for(from_cell)
            &&& after_claim.node1_spec() == b.node1_spec()
            &&& after_claim.node2_spec() == b.node2_spec()
            &&& after_claim.wf()
        }),
{
}

/// A meta-edge tying two bonds that share a middle cell: the second endpoint
/// of `edge1` is the first endpoint of `edge2`. `angle` is the desired
/// counterclockwise angle from the first bond to the second.
#[derive(Clone, Copy, Debug)]
pub struct AngleGusset<A> {
    edge1: EdgeHandle,
    edge2: EdgeHandle,
    angle: A,
}

impl<A: Copy> AngleGusset<A> {
    pub closed spec fn edge1_spec(&self) -> EdgeHandle {
        self.edge1
    }

    pub closed spec fn edge2_spec(&self) -> EdgeHandle {
        self.edge2
    }

    pub closed spec fn angle_spec(&self) -> A {
        self.angle
    }

    /// Joins two distinct bonds. That they share a middle cell is the graph's
    /// invariant, checked where the gusset is added.
    pub fn new(edge1: EdgeHandle, edge2: EdgeHandle, angle: A) -> (g: Self)
        requires
            edge1 != edge2,
        ensures
            g.edge1_spec() == edge1,
            g.edge2_spec() == edge2,
            g.angle_spec() == angle,
    {
        AngleGusset { edge1, edge2, angle }
    }

    pub fn edge1_handle(&self) -> (h: EdgeHandle)
        ensures
            h == self.edge1_spec(),
    {
        self.edge1
    }

    pub fn edge2_handle(&self) -> (h: EdgeHandle)
        ensures
            h == self.edge2_spec(),
    {
        self.edge2
    }

    pub fn angle(&self) -> (a: A)
        ensures
            a == self.angle_spec(),
    {
        self.angle
    }
}

} // verus!
