use evo_core::control::{BudgetedControlRequest, ControlRequest, CostedControlRequest};
use evo_core::influences::{BondAngleForces, BondForces};
use evo_core::layers::{
    bond_slot_action, healing_request, none_bond_requests, resize_request, BondRequest,
    BondSlotAction, BondingCellLayerSpecialty, Color, NullCellLayerSpecialty, OnionLayer,
    SimpleOnionLayer, BUDDING_ANGLE_CHANNEL_INDEX, DONATION_ENERGY_CHANNEL_INDEX,
    HEALING_CHANNEL_INDEX, RESIZE_CHANNEL_INDEX, RETAIN_BOND_CHANNEL_INDEX,
};
use evo_core::mvvm::CoordinateTransform;
use evo_core::sortable_graph::MAX_BONDS;

#[test]
fn built_in_channels_use_fixed_indices() {
    let heal = healing_request(3, 0.25_f64);
    assert_eq!(heal.layer_index, 3);
    assert_eq!(heal.channel_index, HEALING_CHANNEL_INDEX);
    assert_eq!(heal.value_index, 0);
    assert_eq!(heal.requested_value, 0.25);

    let grow = resize_request(1, 2.0_f64);
    assert_eq!(grow.channel_index, RESIZE_CHANNEL_INDEX);
    assert_eq!(grow.requested_value, 2.0);
}

#[test]
fn bonding_specialty_builds_channel_requests() {
    let _ = BondingCellLayerSpecialty::new();
    let retain = BondingCellLayerSpecialty::retain_bond_request(0, 1, true);
    assert_eq!(retain.layer_index, 0);
    assert_eq!(retain.channel_index, RETAIN_BOND_CHANNEL_INDEX);
    assert_eq!(retain.value_index, 1);
    assert!(retain.requested_value);

    let angle = BondingCellLayerSpecialty::budding_angle_request(0, 2, 1.5_f64);
    assert_eq!(angle.channel_index, BUDDING_ANGLE_CHANNEL_INDEX);
    assert_eq!(angle.value_index, 2);
    assert_eq!(angle.requested_value, 1.5);

    let donate = BondingCellLayerSpecialty::donation_energy_request(0, 1, 2.0_f64);
    assert_eq!(donate.channel_index, DONATION_ENERGY_CHANNEL_INDEX);
    assert_eq!(donate.requested_value, 2.0);
}

#[test]
fn costing_and_budgeting_enrich_a_request() {
    let request = ControlRequest::new(0, RESIZE_CHANNEL_INDEX, 0, 3.0_f64);
    let costed = CostedControlRequest::unlimited(request, -1.5_f64);
    assert_eq!(costed.allowed_value, 3.0);
    assert_eq!(costed.energy_delta, -1.5);

    let clamped = CostedControlRequest::limited(request, 0.5_f64, -0.25_f64);
    assert_eq!(clamped.allowed_value, 0.5);

    let budgeted = BudgetedControlRequest::new(costed, 0.5_f64);
    assert_eq!(budgeted.layer_index(), 0);
    assert_eq!(budgeted.channel_index(), RESIZE_CHANNEL_INDEX);
    assert_eq!(budgeted.value_index(), 0);
    assert_eq!(budgeted.requested_value(), 3.0);
    assert_eq!(budgeted.allowed_value(), 3.0);
    assert_eq!(budgeted.energy_delta(), -1.5);
    assert_eq!(budgeted.budgeted_fraction(), 0.5);
}

#[test]
fn bond_requests_reset_to_none() {
    let mut request: BondRequest<f64, f64> = BondRequest {
        retain_bond: true,
        budding_angle: Some(1.0),
        donation_energy: Some(2.0),
    };
    request.reset();
    assert!(!request.retain_bond);
    assert_eq!(request.budding_angle, None);
    assert_eq!(request.donation_energy, None);
    assert_eq!(request, BondRequest::none());
}

#[test]
fn one_empty_bond_request_per_slot() {
    let requests: Vec<BondRequest<f64, f64>> = none_bond_requests();
    assert_eq!(requests.len(), MAX_BONDS);
    for request in &requests {
        assert!(!request.retain_bond);
        assert_eq!(request.budding_angle, None);
        assert_eq!(request.donation_energy, None);
    }
}

#[test]
fn simple_onion_layer_reports_radius_and_color() {
    let layer = SimpleOnionLayer::new(2.0_f64, Color::Yellow);
    assert_eq!(layer.outer_radius(), 2.0);
    assert_eq!(layer.color(), Color::Yellow);
    assert_ne!(Color::Green, Color::White);
}

#[test]
fn identity_transform() {
    let window = ((-10.0_f64, -10.0_f64), (10.0_f64, 10.0_f64));
    let transform = CoordinateTransform::new(window, window);
    assert_eq!((1.0, 1.0), transform.transform_position((1.0, 1.0)));
    assert_eq!(1.0, transform.transform_length(1.0));
}

#[test]
fn bond_slot_actions_cover_the_decision_table() {
    assert_eq!(bond_slot_action(true, true, true), BondSlotAction::DonateToBond);
    assert_eq!(bond_slot_action(true, true, false), BondSlotAction::BudChild);
    assert_eq!(bond_slot_action(true, false, true), BondSlotAction::LeaveAlone);
    assert_eq!(bond_slot_action(true, false, false), BondSlotAction::LeaveAlone);
    assert_eq!(bond_slot_action(false, true, true), BondSlotAction::BreakBond);
    assert_eq!(bond_slot_action(false, true, false), BondSlotAction::LeaveAlone);
    assert_eq!(bond_slot_action(false, false, true), BondSlotAction::BreakBond);
    assert_eq!(bond_slot_action(false, false, false), BondSlotAction::LeaveAlone);
}

#[test]
fn influence_markers_construct() {
    let _ = NullCellLayerSpecialty::new();
    let _ = BondForces::new();
    let _ = BondAngleForces::new();
}
