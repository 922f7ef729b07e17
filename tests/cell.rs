use rcs_core::{Cell, SimulationError, Updatable};

#[test]
fn cell_new_initializes_fields_correctly() {
    let cell = Cell::new(1, 10, 100, 2, 5);
    assert_eq!(cell.id(), 1);
    assert_eq!(cell.cur_resource(), 10);
}

#[test]
fn add_resource_caps_at_max_resource() {
    let mut cell = Cell::new(0, 90, 100, 1, 5);
    cell.add_resource(20);
    assert_eq!(cell.cur_resource(), 100);
}

#[test]
fn resource_consumption_succeeds_when_enough_resource() {
    let mut cell = Cell::new(0, 10, 100, 1, 5);
    let taken = cell.resource_consumption(4).unwrap();
    assert_eq!(taken, 4);
    assert_eq!(cell.cur_resource(), 6);
}

#[test]
fn resource_consumption_fails_when_not_enough_resource() {
    let mut cell = Cell::new(0, 3, 100, 1, 5);
    let err = cell.resource_consumption(5).unwrap_err();

    assert!(matches!(
        err,
        SimulationError::NotEnoughResources { available } if available == 3
    ));
    assert_eq!(cell.cur_resource(), 3);
}

#[test]
fn take_up_to_takes_at_most_requested_amount() {
    let mut cell = Cell::new(0, 10, 100, 1, 5);
    let taken = cell.take_up_to(4);
    assert_eq!(taken, 4);
    assert_eq!(cell.cur_resource(), 6);
}

#[test]
fn take_up_to_takes_all_when_request_exceeds_available() {
    let mut cell = Cell::new(0, 5, 100, 1, 5);
    let taken = cell.take_up_to(10);
    assert_eq!(taken, 5);
    assert_eq!(cell.cur_resource(), 0);
}

#[test]
fn increase_rate_caps_at_max_regen_rate() {
    let mut cell = Cell::new(0, 0, 100, 1, 5);
    cell.increase_rate(10);
    cell.update().unwrap();
    assert_eq!(cell.cur_resource(), 5);
}

#[test]
fn update_regenerates_resource_but_not_over_max() {
    let mut cell = Cell::new(0, 99, 100, 5, 5);
    cell.update().unwrap();
    assert_eq!(cell.cur_resource(), 100);
}

#[test]
fn step_regrows_by_regen_rate() {
    let mut cell = Cell::new(0, 90, 100, 1, 5);
    cell.step();
    assert_eq!(cell.cur_resource(), 91);
}

#[test]
fn take_up_to_on_empty_cell_takes_nothing() {
    let mut cell = Cell::new(0, 0, 100, 1, 5);
    assert_eq!(cell.take_up_to(7), 0);
    assert_eq!(cell.cur_resource(), 0);
    assert_eq!(cell.take_up_to(0), 0);
}

#[test]
fn take_up_to_exact_amount_empties_cell() {
    let mut cell = Cell::new(0, 12, 20, 0, 0);
    assert_eq!(cell.take_up_to(12), 12);
    assert_eq!(cell.cur_resource(), 0);
}

#[test]
fn add_resource_saturates_near_u32_max() {
    let mut cell = Cell::new(0, u32::MAX - 1, u32::MAX, 0, 0);
    cell.add_resource(u32::MAX);
    assert_eq!(cell.cur_resource(), u32::MAX);
}

#[test]
fn resource_consumption_of_everything_leaves_zero() {
    let mut cell = Cell::new(0, 8, 8, 0, 1);
    assert_eq!(cell.resource_consumption(8), Ok(8));
    assert_eq!(cell.cur_resource(), 0);
    assert_eq!(
        cell.resource_consumption(1),
        Err(SimulationError::NotEnoughResources { available: 0 })
    );
}

#[test]
fn increase_rate_within_cap_adds_delta() {
    let mut cell = Cell::new(0, 0, 100, 1, 5);
    cell.increase_rate(2);
    cell.step();
    assert_eq!(cell.cur_resource(), 3);
}
