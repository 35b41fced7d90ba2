//! The control-request channel protocol: a layer's tick actions are mediated
//! by a triple of progressively enriched records. A plain request names
//! (layer, channel, value slot, requested value); costing adds the allowed
//! value and its energy delta; budgeting adds the fraction the cell can
//! afford. The value, delta and fraction types are parameters, so the records
//! carry whatever scalar algebra the front end runs on.

use vstd::prelude::*;

verus! {

#[derive(Clone, Copy, Debug, PartialEq)]
pub struct ControlRequest<V> {
    pub layer_index: usize,
    pub channel_index: usize,
    pub value_index: usize,
    pub requested_value: V,
}

impl<V: Copy> ControlRequest<V> {
    pub fn new(
        layer_index: usize,
        channel_index: usize,
        value_index: usize,
        requested_value: V,
    ) -> (r: Self)
        ensures
            r.layer_index == layer_index,
            r.channel_index == channel_index,
            r.value_index == value_index,
            r.requested_value == requested_value,
    {
        ControlRequest { layer_index, channel_index, value_index, requested_value }
    }
}

#[derive(Clone, Copy, Debug, PartialEq)]
pub struct CostedControlRequest<V, D> {
    pub control_request: ControlRequest<V>,
    pub allowed_value: V,
    pub energy_delta: D,
}

impl<V: Copy, D: Copy> CostedControlRequest<V, D> {
    /// A costed request whose allowed value is exactly what was asked for.
    pub fn unlimited(control_request: ControlRequest<V>, energy_delta: D) -> (r: Self)
        ensures
            r.control_request == control_request,
            r.allowed_value == control_request.requested_value,
            r.energy_delta == energy_delta,
    {
        CostedControlRequest {
            control_request,
            allowed_value: control_request.requested_value,
            energy_delta,
        }
    }

    /// A costed request whose allowed value was clamped by the layer.
    pub fn limited(
        control_request: ControlRequest<V>,
        allowed_value: V,
        energy_delta: D,
    ) -> (r: Self)
        ensures
            r.control_request == control_request,
            r.allowed_value == allowed_value,
            r.energy_delta == energy_delta,
    {
        CostedControlRequest { control_request, allowed_value, energy_delta }
    }
}

#[derive(Clone, Copy, Debug, PartialEq)]
pub struct BudgetedControlRequest<V, D, B> {
    pub costed_request: CostedControlRequest<V, D>,
    pub budgeted_fraction: B,
}

impl<V: Copy, D: Copy, B: Copy> BudgetedControlRequest<V, D, B> {
    pub fn new(costed_request: CostedControlRequest<V, D>, budgeted_fraction: B) -> (r: Self)
        ensures
            r.costed_request == costed_request,
            r.budgeted_fraction == budgeted_fraction,
    {
        BudgetedControlRequest { costed_request, budgeted_fraction }
    }

    pub fn layer_index(&self) -> (i: usize)
        ensures
            i == self.costed_request.control_request.layer_index,
    {
        self.costed_request.control_request.layer_index
    }

    pub fn channel_index(&self) -> (i: usize)
        ensures
            i == self.costed_request.control_request.channel_index,
    {
        self.costed_request.control_request.channel_index
    }

    pub fn value_index(&self) -> (i: usize)
        ensures
            i == self.costed_request.control_request.value_index,
    {
        self.costed_request.control_request.value_index
    }

    pub fn requested_value(&self) -> (v: V)
        ensures
            v == self.costed_request.control_request.requested_value,
    {
        self.costed_request.control_request.requested_value
    }

    pub fn allowed_value(&self) -> (v: V)
        ensures
            v == self.costed_request.allowed_value,
    {
        self.costed_request.allowed_value
    }

    pub fn energy_delta(&self) -> (d: D)
        ensures
            d == self.costed_request.energy_delta,
    {
        self.costed_request.energy_delta
    }

    pub fn budgeted_fraction(&self) -> (b: B)
        ensures
            b == self.budgeted_fraction,
    {
        self.budgeted_fraction
    }
}

} // verus!
