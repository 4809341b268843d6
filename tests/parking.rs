use coco_parking::access::{catalog_strings, AccessError, AppState};
use coco_parking::store::{ParkingError, ParkingLot};
use coco_parking::tariffs::{CreateCustomTariffArgs, TariffError, UpdateCustomTariffArgs};
use coco_parking::treasury::PaymentMethod;
use coco_parking::vehicles::{EntryError, VehicleStatus, VehicleType};

const MINUTE: u64 = 60_000;
const T0: u64 = 1_767_225_600_000;

fn admin() -> AppState {
    let mut a = AppState::new();
    a.sign_in("user_admin".to_string(), catalog_strings());
    a
}

fn tariff_args(kind: &str, plate: Option<&str>, amount: u64) -> CreateCustomTariffArgs {
    CreateCustomTariffArgs {
        vehicle_type: kind.to_string(),
        name: None,
        plate_or_ref: plate.map(str::to_string),
        amount,
        description: None,
        rate_unit: None,
        rate_duration_hours: None,
        rate_duration_minutes: None,
    }
}

#[test]
fn end_to_end_entry_conflict_exit() {
    let a = admin();
    let mut lot = ParkingLot::new();
    let v = lot.register_entry(&a, "ABC123", VehicleType::Car, None, "TK1767225600000", T0).unwrap();
    assert_eq!(v.status, VehicleStatus::Active);
    assert_eq!(v.debt, None);
    assert_eq!(v.plate, "ABC123");
    let again = lot.register_entry(&a, "abc123", VehicleType::Car, None, "TK1767225600001", T0);
    assert_eq!(again.unwrap_err(), ParkingError::Entry(EntryError::PlateAlreadyParked));
    let out = lot.process_exit(&a, "TK1767225600000", None, None, None, T0 + 20_000).unwrap();
    assert_eq!(out.status, VehicleStatus::Completed);
    assert_eq!(out.total_amount, Some(50));
    assert_eq!(out.debt, None);
    assert_eq!(lot.transactions.len(), 1);
    assert_eq!(lot.transactions[0].amount, 50);
    assert_eq!(lot.transactions[0].method, PaymentMethod::Cash);
    assert_eq!(lot.transactions[0].vehicle_id, out.id);
}

#[test]
fn exit_after_sixty_one_minutes_bills_two_hours() {
    let a = admin();
    let mut lot = ParkingLot::new();
    lot.register_entry(&a, "MOTO1", VehicleType::Motorcycle, None, "T1", T0).unwrap();
    let out = lot.process_exit(&a, "T1", None, Some("card"), None, T0 + 61 * MINUTE).unwrap();
    assert_eq!(out.total_amount, Some(60));
    assert_eq!(lot.transactions[0].method, PaymentMethod::Card);
}

#[test]
fn exactly_one_hour_bills_one_hour() {
    let a = admin();
    let mut lot = ParkingLot::new();
    lot.register_entry(&a, "TRK9", VehicleType::Truck, None, "T9", T0).unwrap();
    let out = lot.process_exit(&a, "T9", None, None, None, T0 + 60 * MINUTE).unwrap();
    assert_eq!(out.total_amount, Some(80));
}

#[test]
fn partial_payment_leaves_debt_that_the_plate_inherits() {
    let a = admin();
    let mut lot = ParkingLot::new();
    lot.register_entry(&a, "XYZ1", VehicleType::Car, None, "A1", T0).unwrap();
    let first = lot.process_exit(&a, "A1", Some(20), None, None, T0 + 10 * MINUTE).unwrap();
    assert_eq!(first.total_amount, Some(20));
    assert_eq!(first.debt, Some(30));
    lot.register_entry(&a, "XYZ1", VehicleType::Car, None, "A2", T0 + 20 * MINUTE).unwrap();
    let second = lot.process_exit(&a, "A2", Some(0), None, None, T0 + 30 * MINUTE).unwrap();
    assert_eq!(second.total_amount, Some(0));
    assert_eq!(second.debt, Some(80));
    let third = lot.register_entry(&a, "xyz1 ", VehicleType::Car, None, "A3", T0 + 40 * MINUTE).unwrap();
    assert_eq!(third.debt, Some(110));
}

#[test]
fn debt_carries_over_and_full_payment_clears_plate() {
    let a = admin();
    let mut lot = ParkingLot::new();
    lot.register_entry(&a, "DEB1", VehicleType::Car, None, "D1", T0).unwrap();
    lot.process_exit(&a, "D1", Some(10), None, None, T0 + MINUTE).unwrap();
    lot.register_entry(&a, "DEB1", VehicleType::Car, None, "D2", T0 + 2 * MINUTE).unwrap();
    lot.process_exit(&a, "D2", Some(0), None, Some(25), T0 + 3 * MINUTE).unwrap();
    assert_eq!(lot.vehicles[0].debt, Some(40));
    assert_eq!(lot.vehicles[1].debt, Some(65));
    let third = lot.register_entry(&a, "DEB1", VehicleType::Car, None, "D3", T0 + 4 * MINUTE).unwrap();
    assert_eq!(third.debt, Some(105));
    let paid = lot.process_exit(&a, "D3", None, Some("transfer"), None, T0 + 5 * MINUTE).unwrap();
    assert_eq!(paid.total_amount, Some(155));
    assert_eq!(paid.debt, None);
    for v in &lot.vehicles {
        assert!(v.debt.unwrap_or(0) == 0);
    }
}

#[test]
fn paying_more_than_due_charges_the_total() {
    let a = admin();
    let mut lot = ParkingLot::new();
    lot.register_entry(&a, "OVER1", VehicleType::Car, None, "O1", T0).unwrap();
    let out = lot.process_exit(&a, "O1", Some(500), None, None, T0 + MINUTE).unwrap();
    assert_eq!(out.total_amount, Some(50));
    assert_eq!(out.debt, None);
}

#[test]
fn ticket_in_use_is_rejected() {
    let a = admin();
    let mut lot = ParkingLot::new();
    lot.register_entry(&a, "AAA111", VehicleType::Car, None, "CARD7", T0).unwrap();
    let r = lot.register_entry(&a, "BBB222", VehicleType::Car, None, " CARD7 ", T0);
    assert_eq!(r.unwrap_err(), ParkingError::Entry(EntryError::TicketInUse));
    assert_eq!(lot.vehicles.len(), 1);
}

#[test]
fn ticket_code_is_reusable_after_exit() {
    let a = admin();
    let mut lot = ParkingLot::new();
    lot.register_entry(&a, "AAA111", VehicleType::Car, None, "CARD8", T0).unwrap();
    lot.process_exit(&a, "CARD8", None, None, None, T0 + MINUTE).unwrap();
    assert!(lot.register_entry(&a, "BBB222", VehicleType::Car, None, "CARD8", T0 + 2 * MINUTE).is_ok());
}

#[test]
fn plate_keeps_its_vehicle_type() {
    let a = admin();
    let mut lot = ParkingLot::new();
    lot.register_entry(&a, "MIX1", VehicleType::Car, None, "M1", T0).unwrap();
    lot.process_exit(&a, "M1", None, None, None, T0 + MINUTE).unwrap();
    let r = lot.register_entry(&a, "MIX1", VehicleType::Motorcycle, None, "M2", T0 + 2 * MINUTE);
    assert_eq!(
        r.unwrap_err(),
        ParkingError::Entry(EntryError::PlateTypeMismatch { registered_as: VehicleType::Car })
    );
}

#[test]
fn plate_required_and_empty_ticket() {
    let a = admin();
    let mut lot = ParkingLot::new();
    let r = lot.register_entry(&a, "   ", VehicleType::Truck, None, "Z1", T0);
    assert_eq!(r.unwrap_err(), ParkingError::Entry(EntryError::PlateRequired));
    let r = lot.register_entry(&a, "ABC", VehicleType::Car, None, "  ", T0);
    assert_eq!(r.unwrap_err(), ParkingError::Entry(EntryError::EmptyTicketCode));
    let bike = lot.register_entry(&a, "", VehicleType::Bicycle, None, "B1", T0).unwrap();
    assert_eq!(bike.plate, "");
    let bike2 = lot.register_entry(&a, "", VehicleType::Bicycle, None, "B2", T0).unwrap();
    assert_eq!(bike2.status, VehicleStatus::Active);
}

#[test]
fn permission_denied_performs_no_write() {
    let mut a = admin();
    a.set_current_user_permissions(vec!["vehiculos:entries:read".to_string()]);
    let mut lot = ParkingLot::new();
    let r = lot.register_entry(&a, "ABC123", VehicleType::Car, None, "TK1", T0);
    assert_eq!(r.unwrap_err(), ParkingError::Access(AccessError::PermissionDenied));
    assert!(lot.vehicles.is_empty());
    assert!(lot.barcodes.is_empty());
    let r = lot.process_exit(&a, "TK1", None, None, None, T0);
    assert_eq!(r.unwrap_err(), ParkingError::Access(AccessError::PermissionDenied));
    assert!(lot.transactions.is_empty());
    a.set_current_user(None);
    let r = lot.create_custom_tariff(&a, tariff_args("car", None, 70), T0);
    assert_eq!(r.unwrap_err(), ParkingError::Access(AccessError::NoUser));
    assert!(lot.tariffs.is_empty());
}

#[test]
fn unknown_user_has_no_permissions() {
    let mut a = admin();
    a.set_current_user(Some("someone".to_string()));
    assert_eq!(a.check_permission("caja:treasury:read"), Err(AccessError::NoPermissionsAssigned));
    assert!(a.current_user_permissions().is_empty());
}

#[test]
fn exit_of_unknown_ticket_is_not_found() {
    let a = admin();
    let mut lot = ParkingLot::new();
    assert_eq!(lot.process_exit(&a, "NOPE", None, None, None, T0).unwrap_err(), ParkingError::NotFound);
}

#[test]
fn remove_from_parking_needs_exactly_one_identifier() {
    let a = admin();
    let mut lot = ParkingLot::new();
    let v = lot.register_entry(&a, "REM1", VehicleType::Car, None, "R1", T0).unwrap();
    assert_eq!(lot.remove_from_parking(&a, None, None, T0).unwrap_err(), ParkingError::MissingIdentifier);
    assert_eq!(
        lot.remove_from_parking(&a, Some(&v.id), Some("R1"), T0).unwrap_err(),
        ParkingError::BothIdentifiers
    );
    let removed = lot.remove_from_parking(&a, Some(&v.id), None, T0 + MINUTE).unwrap();
    assert_eq!(removed.status, VehicleStatus::Removed);
    assert_eq!(removed.total_amount, None);
    assert_eq!(removed.exit_time, Some(T0 + MINUTE));
    assert!(lot.transactions.is_empty());
    assert_eq!(lot.remove_from_parking(&a, None, Some("R1"), T0).unwrap_err(), ParkingError::NotFound);
}

#[test]
fn custom_default_rate_and_special_rate() {
    let a = admin();
    let mut lot = ParkingLot::new();
    assert_eq!(lot.default_rate(VehicleType::Bicycle), 15);
    lot.create_custom_tariff(&a, tariff_args(" CAR ", None, 70), T0).unwrap();
    assert_eq!(lot.default_rate(VehicleType::Car), 70);
    lot.register_entry(&a, "RATE1", VehicleType::Car, None, "Q1", T0).unwrap();
    let out = lot.process_exit(&a, "Q1", None, None, None, T0 + 150 * MINUTE).unwrap();
    assert_eq!(out.total_amount, Some(210));
}

#[test]
fn duplicate_tariff_is_rejected() {
    let a = admin();
    let mut lot = ParkingLot::new();
    lot.create_custom_tariff(&a, tariff_args("car", Some("ABC123"), 40), T0).unwrap();
    let r = lot.create_custom_tariff(&a, tariff_args("car", Some("  ABC123 "), 45), T0);
    assert_eq!(r.unwrap_err(), ParkingError::Tariff(TariffError::Duplicate));
    assert!(lot.create_custom_tariff(&a, tariff_args("truck", Some("ABC123"), 45), T0).is_ok());
    let r = lot.create_custom_tariff(&a, tariff_args("boat", None, 45), T0);
    assert_eq!(r.unwrap_err(), ParkingError::Tariff(TariffError::InvalidVehicleType));
    let mut zero = tariff_args("car", None, 45);
    zero.rate_duration_hours = Some(0);
    assert_eq!(
        lot.create_custom_tariff(&a, zero, T0).unwrap_err(),
        ParkingError::Tariff(TariffError::ZeroDuration)
    );
    assert_eq!(lot.tariffs.len(), 2);
}

#[test]
fn tariff_update_keeps_keys_unique() {
    let a = admin();
    let mut lot = ParkingLot::new();
    let t1 = lot.create_custom_tariff(&a, tariff_args("car", Some("QR1"), 40), T0).unwrap();
    lot.create_custom_tariff(&a, tariff_args("car", Some("QR2"), 40), T0).unwrap();
    let clash = UpdateCustomTariffArgs {
        id: t1.id.clone(),
        vehicle_type: None,
        name: None,
        plate_or_ref: Some("QR2".to_string()),
        amount: None,
        description: None,
        rate_unit: None,
        rate_duration_hours: None,
        rate_duration_minutes: None,
    };
    assert_eq!(lot.update_custom_tariff(&a, clash).unwrap_err(), ParkingError::Tariff(TariffError::Duplicate));
    let change = UpdateCustomTariffArgs {
        id: format!(" {} ", t1.id),
        vehicle_type: Some("Motorcycle".to_string()),
        name: Some(" Night ".to_string()),
        plate_or_ref: None,
        amount: Some(99),
        description: None,
        rate_unit: Some("MINUTE".to_string()),
        rate_duration_hours: Some(-3),
        rate_duration_minutes: Some(75),
    };
    let t = lot.update_custom_tariff(&a, change).unwrap();
    assert_eq!(t.vehicle_type, VehicleType::Motorcycle);
    assert_eq!(t.plate_or_ref.as_deref(), Some("QR1"));
    assert_eq!(t.amount, 99);
    assert_eq!(t.name.as_deref(), Some("Night"));
    assert_eq!(t.rate_duration_hours, 0);
    assert_eq!(t.rate_duration_minutes, 59);
    let missing = UpdateCustomTariffArgs {
        id: "nope".to_string(),
        vehicle_type: None,
        name: None,
        plate_or_ref: None,
        amount: None,
        description: None,
        rate_unit: None,
        rate_duration_hours: None,
        rate_duration_minutes: None,
    };
    assert_eq!(lot.update_custom_tariff(&a, missing).unwrap_err(), ParkingError::Tariff(TariffError::NotFound));
}

#[test]
fn treasury_breakdown_sums_to_expected() {
    let a = admin();
    let mut lot = ParkingLot::new();
    lot.register_entry(&a, "C1", VehicleType::Car, None, "1", T0).unwrap();
    lot.register_entry(&a, "C2", VehicleType::Motorcycle, None, "2", T0).unwrap();
    lot.register_entry(&a, "C3", VehicleType::Truck, None, "3", T0).unwrap();
    lot.process_exit(&a, "1", None, Some("cash"), None, T0 + MINUTE).unwrap();
    lot.process_exit(&a, "2", None, Some("CARD"), None, T0 + MINUTE).unwrap();
    lot.process_exit(&a, "3", None, Some("Transfer"), None, T0 + MINUTE).unwrap();
    let t = lot.treasury(&a, T0 + 2 * MINUTE).unwrap();
    assert_eq!(t.payment_breakdown.cash, 50);
    assert_eq!(t.payment_breakdown.card, 30);
    assert_eq!(t.payment_breakdown.transfer, 80);
    assert_eq!(t.expected_cash, 160);
    assert_eq!(t.actual_cash, t.expected_cash);
    assert_eq!(t.discrepancy, 0);
    assert_eq!(t.total_transactions, 3);
    let next_day = lot.treasury(&a, T0 + 24 * 60 * MINUTE).unwrap();
    assert_eq!(next_day.total_transactions, 0);
    assert_eq!(next_day.expected_cash, 0);
}

#[test]
fn shift_closures_partition_the_day() {
    let a = admin();
    let mut lot = ParkingLot::new();
    lot.register_entry(&a, "S1", VehicleType::Car, None, "s1", T0).unwrap();
    lot.process_exit(&a, "s1", None, None, None, T0 + MINUTE).unwrap();
    let c1 = lot.close_shift(&a, Some(45), None, T0 + 2 * MINUTE).unwrap();
    assert_eq!(c1.cash_total, 50);
    assert_eq!(c1.expected_total, 50);
    assert_eq!(c1.discrepancy, -5);
    assert_eq!(c1.total_transactions, 1);
    lot.register_entry(&a, "S2", VehicleType::Car, None, "s2", T0 + 3 * MINUTE).unwrap();
    lot.process_exit(&a, "s2", None, Some("card"), None, T0 + 4 * MINUTE).unwrap();
    let c2 = lot.close_shift(&a, None, Some("night".to_string()), T0 + 5 * MINUTE).unwrap();
    assert_eq!(c2.total_transactions, 1);
    assert_eq!(c2.card_total, 50);
    assert_eq!(c2.cash_total, 0);
    assert_eq!(c2.discrepancy, 0);
    assert_eq!(lot.closures.len(), 2);
}

#[test]
fn ticket_codes_in_barcode_format_are_registered() {
    let a = admin();
    let mut lot = ParkingLot::new();
    lot.register_entry(&a, "BC1", VehicleType::Car, None, " 12345678 ", T0).unwrap();
    assert_eq!(lot.barcodes.len(), 1);
    assert_eq!(lot.barcodes[0].code, "12345678");
    lot.register_entry(&a, "BC2", VehicleType::Car, None, "TK-ABC", T0).unwrap();
    assert_eq!(lot.barcodes.len(), 1);
    let r = lot.create_barcode(&a, "12345678", None, T0);
    assert!(r.is_err());
}

#[test]
fn plate_is_checked_for_every_kind() {
    let a = admin();
    let mut lot = ParkingLot::new();
    lot.register_entry(&a, "ABC", VehicleType::Car, None, "c1", T0).unwrap();
    let r = lot.register_entry(&a, "abc", VehicleType::Bicycle, None, "c2", T0);
    assert_eq!(r.unwrap_err(), ParkingError::Entry(EntryError::PlateAlreadyParked));
}

#[test]
fn new_session_is_signed_out() {
    let a = AppState::new();
    assert_eq!(a.get_current_user_id(), None);
    let mut lot = ParkingLot::new();
    let r = lot.register_entry(&a, "ABC", VehicleType::Car, None, "n1", T0);
    assert_eq!(r.unwrap_err(), ParkingError::Access(AccessError::NoUser));
}
