//! Layer-facing pieces that are pure structure: tissue colors, bond requests,
//! the channel encoding that layers and specialties agree on, and the onion
//! view that renderers read. Channels 0 and 1 (healing, resize) belong to
//! every layer; a specialty defines the channels above them.

use crate::control::ControlRequest;
use crate::sortable_graph::MAX_BONDS;
use vstd::prelude::*;

verus! {

#[derive(Clone, Copy, Debug, Eq, Hash, PartialEq, Structural)]
pub enum Color {
    Green,
    White,
    Yellow,
}

/// Channel every layer recognizes: restore health.
pub const HEALING_CHANNEL_INDEX: usize = 0;

/// Channel every layer recognizes: grow or shrink.
pub const RESIZE_CHANNEL_INDEX: usize = 1;

/// A healing request for the given layer.
pub fn healing_request<V: Copy>(layer_index: usize, delta_health: V) -> (r: ControlRequest<V>)
    ensures
        r.layer_index == layer_index,
        r.channel_index == HEALING_CHANNEL_INDEX,
        r.value_index == 0,
        r.requested_value == delta_health,
{
    ControlRequest::new(layer_index, HEALING_CHANNEL_INDEX, 0, delta_health)
}

/// A resize request for the given layer.
pub fn resize_request<V: Copy>(layer_index: usize, delta_area: V) -> (r: ControlRequest<V>)
    ensures
        r.layer_index == layer_index,
        r.channel_index == RESIZE_CHANNEL_INDEX,
        r.value_index == 0,
        r.requested_value == delta_area,
{
    ControlRequest::new(layer_index, RESIZE_CHANNEL_INDEX, 0, delta_area)
}

/// What one bond slot of a cell asks for this tick: whether to keep the bond,
/// at which angle a bud should appear, and how much energy to donate. `None`
/// in a field means no request on that channel.
#[derive(Clone, Copy, Debug, PartialEq)]
pub struct BondRequest<A, En> {
    pub retain_bond: bool,
    pub budding_angle: Option<A>,
    pub donation_energy: Option<En>,
}

impl<A: Copy, En: Copy> BondRequest<A, En> {
    /// The empty request: drop the bond, bud nowhere, donate nothing.
    pub fn none() -> (r: Self)
        ensures
            !r.retain_bond,
            r.budding_angle is None,
            r.donation_energy is None,
    {
        BondRequest { retain_bond: false, budding_angle: None, donation_energy: None }
    }

    pub fn reset(&mut self)
        ensures
            !final(self).retain_bond,
            final(self).budding_angle is None,
            final(self).donation_energy is None,
    {
        *self = Self::none();
    }
}

/// One empty bond request per bond slot of a cell.
pub fn none_bond_requests<A: Copy, En: Copy>() -> (v: Vec<BondRequest<A, En>>)
    ensures
        v@.len() == MAX_BONDS,
        forall|j: int| 0 <= j < MAX_BONDS ==> {
            &&& !(#[trigger] v@[j]).retain_bond
            &&& v@[j].budding_angle is None
            &&& v@[j].donation_energy is None
        },
{
    let mut v: Vec<BondRequest<A, En>> = Vec::new();
    let mut k: usize = 0;
    while k < MAX_BONDS
        invariant
            k <= MAX_BONDS,
            v@.len() == k,
            forall|j: int| 0 <= j < k ==> {
                &&& !(#[trigger] v@[j]).retain_bond
                &&& v@[j].budding_angle is None
                &&& v@[j].donation_energy is None
            },
        decreases MAX_BONDS - k,
    {
        v.push(BondRequest::none());
        k = k + 1;
    }
    v
}

/// The specialty of a layer that does nothing beyond the built-in channels.
#[derive(Clone, Copy, Debug, PartialEq)]
pub struct NullCellLayerSpecialty {}

impl NullCellLayerSpecialty {
    pub fn new() -> (r: Self)
        ensures
            r == (NullCellLayerSpecialty {}),
    {
        NullCellLayerSpecialty {}
    }
}

/// The specialty of a layer that maintains bonds, buds children and donates
/// energy. Its channels sit above the built-in two.
#[derive(Clone, Copy, Debug, PartialEq)]
pub struct BondingCellLayerSpecialty {}

pub const RETAIN_BOND_CHANNEL_INDEX: usize = 2;

pub const BUDDING_ANGLE_CHANNEL_INDEX: usize = 3;

pub const DONATION_ENERGY_CHANNEL_INDEX: usize = 4;

impl BondingCellLayerSpecialty {
    pub fn new() -> (r: Self)
        ensures
            r == (BondingCellLayerSpecialty {}),
    {
        BondingCellLayerSpecialty {}
    }

    /// Asks to keep (or drop) the bond at the given bond slot.
    pub fn retain_bond_request(layer_index: usize, bond_index: usize, flag: bool) -> (r:
        ControlRequest<bool>)
        ensures
            r.layer_index == layer_index,
            r.channel_index == RETAIN_BOND_CHANNEL_INDEX,
            r.value_index == bond_index,
            r.requested_value == flag,
    {
        ControlRequest::new(layer_index, RETAIN_BOND_CHANNEL_INDEX, bond_index, flag)
    }

    /// Asks to bud a child at the given angle from the cell's center.
    pub fn budding_angle_request<A: Copy>(layer_index: usize, bond_index: usize, angle: A) -> (r:
        ControlRequest<A>)
        ensures
            r.layer_index == layer_index,
            r.channel_index == BUDDING_ANGLE_CHANNEL_INDEX,
            r.value_index == bond_index,
            r.requested_value == angle,
    {
        ControlRequest::new(layer_index, BUDDING_ANGLE_CHANNEL_INDEX, bond_index, angle)
    }

    /// Asks to donate energy through the bond at the given bond slot.
    pub fn donation_energy_request<En: Copy>(layer_index: usize, bond_index: usize, energy: En) -> (
        r: ControlRequest<En>)
        ensures
            r.layer_index == layer_index,
            r.channel_index == DONATION_ENERGY_CHANNEL_INDEX,
            r.value_index == bond_index,
            r.requested_value == energy,
    {
        ControlRequest::new(layer_index, DONATION_ENERGY_CHANNEL_INDEX, bond_index, energy)
    }
}

/// What a cell does at one bond slot when its requests are executed.
#[derive(Clone, Copy, Debug, PartialEq, Eq)]
pub enum BondSlotAction {
    /// Deposit the donation into the bond already sitting in the slot.
    DonateToBond,
    /// No bond there yet: bud a child and bond to it through this slot.
    BudChild,
    /// The bond in the slot was not retained: mark it for removal.
    BreakBond,
    /// Nothing to do at this slot.
    LeaveAlone,
}

/// The structural decision at one bond slot: a retained slot with energy to
/// give feeds its bond, or buds a child where no bond sits; an unretained
/// slot breaks whatever bond it holds; every other slot is left alone.
pub fn bond_slot_action(retain_bond: bool, has_donation_energy: bool, has_edge: bool) -> (a:
    BondSlotAction)
    ensures
        (a is DonateToBond) <==> (retain_bond && has_donation_energy && has_edge),
        (a is BudChild) <==> (retain_bond && has_donation_energy && !has_edge),
        (a is BreakBond) <==> (!retain_bond && has_edge),
        (a is LeaveAlone) <==> ((retain_bond && !has_donation_energy) || (!retain_bond
            && !has_edge)),
{
    if retain_bond {
        if has_donation_energy {
            if has_edge {
                BondSlotAction::DonateToBond
            } else {
                BondSlotAction::BudChild
            }
        } else {
            BondSlotAction::LeaveAlone
        }
    } else {
        if has_edge {
            BondSlotAction::BreakBond
        } else {
            BondSlotAction::LeaveAlone
        }
    }
}

/// A ring of an onion, as a renderer sees it: an outer radius and a color.
pub trait OnionLayer<L> {
    fn outer_radius(&self) -> L;

    fn color(&self) -> Color;
}

/// A bullseye of concentric rings, innermost first.
pub trait Onion<L> {
    type Layer: OnionLayer<L>;

    fn layers(&self) -> &Vec<Self::Layer>;
}

/// The simplest ring: a stored radius and color.
#[derive(Clone, Copy, Debug)]
pub struct SimpleOnionLayer<L> {
    outer_radius: L,
    color: Color,
}

impl<L: Copy> SimpleOnionLayer<L> {
    pub fn new(outer_radius: L, color: Color) -> (r: Self)
        ensures
            r.outer_radius_spec() == outer_radius,
            r.color_spec() == color,
    {
        SimpleOnionLayer { outer_radius, color }
    }

    pub closed spec fn outer_radius_spec(&self) -> L {
        self.outer_radius
    }

    pub closed spec fn color_spec(&self) -> Color {
        self.color
    }
}

impl<L: Copy> OnionLayer<L> for SimpleOnionLayer<L> {
    fn outer_radius(&self) -> (r: L)
        ensures
            r == self.outer_radius_spec(),
    {
        self.outer_radius
    }

    fn color(&self) -> (c: Color)
        ensures
            c == self.color_spec(),
    {
        self.color
    }
}

} // verus!
