use coco_parking::access::{catalog_strings, AccessError, AppState};
use coco_parking::store::{ParkingError, ParkingLot};
use coco_parking::vehicles::{Vehicle, VehicleStatus, VehicleType};

const MIN: u64 = 60_000;

fn admin() -> AppState {
    let mut a = AppState::new();
    a.sign_in("user_admin".to_string(), catalog_strings());
    a
}
const T0: u64 = 1_767_225_600_000;

fn session(id: &str, ticket: &str, plate: &str, kind: VehicleType, debt: Option<u64>, entry: u64) -> Vehicle {
    Vehicle {
        id: id.to_string(),
        ticket_code: ticket.to_string(),
        plate: plate.to_string(),
        vehicle_type: kind,
        observations: None,
        entry_time: entry,
        exit_time: Some(entry + MIN),
        status: VehicleStatus::Completed,
        total_amount: Some(0),
        debt,
        special_rate: None,
    }
}

fn seeded() -> ParkingLot {
    let mut lot = ParkingLot::new();
    lot.vehicles.push(session("v1", "t1", "ABC1", VehicleType::Car, Some(10), T0));
    lot.vehicles.push(session("v2", "t2", "ABC2", VehicleType::Car, None, T0 + MIN));
    lot.vehicles.push(session("v3", "t3", "ABC1", VehicleType::Motorcycle, Some(5), T0 + 2 * MIN));
    lot.vehicles.push(session("v4", "t4", "XYZ9", VehicleType::Truck, Some(0), T0 + 3 * MIN));
    lot
}

#[test]
fn sessions_by_plate_newest_first() {
    let a = admin();
    let lot = seeded();
    let l = lot.vehicles_by_plate(&a, " abc1 ").unwrap();
    let ids: Vec<&str> = l.iter().map(|v| v.id.as_str()).collect();
    assert_eq!(ids, vec!["v3", "v1"]);
}

#[test]
fn prefix_search_matches_plate_starts() {
    let a = admin();
    let lot = seeded();
    let l = lot.search_vehicles_by_plate_prefix(&a, "ab").unwrap();
    let ids: Vec<&str> = l.iter().map(|v| v.id.as_str()).collect();
    assert_eq!(ids, vec!["v3", "v2", "v1"]);
    assert!(lot.search_vehicles_by_plate_prefix(&a, "ABC3").unwrap().is_empty());
}

#[test]
fn debts_by_plate_and_in_total() {
    let a = admin();
    let lot = seeded();
    assert_eq!(lot.plate_debt(&a, "abc1"), Ok(15));
    assert_eq!(lot.plate_debt(&a, "XYZ9"), Ok(0));
    assert_eq!(lot.total_debt(&a), Ok(15));
}

#[test]
fn conflicting_plates_are_listed_once() {
    let a = admin();
    let lot = seeded();
    let c = lot.plate_conflicts(&a).unwrap();
    assert_eq!(c.len(), 1);
    assert_eq!(c[0].plate, "ABC1");
    assert_eq!(c[0].vehicles.len(), 2);
    assert_eq!(c[0].vehicles[0].id, "v3");
}

#[test]
fn resolving_a_conflict_keeps_one_session_and_its_payments() {
    let a = admin();
    let mut lot = ParkingLot::new();
    lot.register_entry(&a, "DUO1", VehicleType::Car, None, "k1", T0).unwrap();
    lot.process_exit(&a, "k1", None, None, None, T0 + MIN).unwrap();
    lot.vehicles.push(session("odd", "k2", "DUO1", VehicleType::Truck, None, T0 + 2 * MIN));
    let keep = lot.vehicles[0].id.clone();
    assert_eq!(lot.resolve_plate_conflict(&a, "duo1", "nope"), Err(ParkingError::NotFound));
    lot.resolve_plate_conflict(&a, "duo1", "odd").unwrap();
    assert_eq!(lot.vehicles.len(), 1);
    assert_eq!(lot.vehicles[0].id, "odd");
    assert!(lot.transactions.is_empty());
    assert!(lot.vehicles_by_plate(&a, "DUO1").unwrap().iter().all(|v| v.id != keep));
}

#[test]
fn deleting_a_session_drops_its_payments() {
    let a = admin();
    let mut lot = ParkingLot::new();
    let v = lot.register_entry(&a, "DEL1", VehicleType::Car, None, "d1", T0).unwrap();
    lot.process_exit(&a, "d1", None, None, None, T0 + MIN).unwrap();
    let w = lot.register_entry(&a, "DEL2", VehicleType::Car, None, "d2", T0).unwrap();
    lot.process_exit(&a, "d2", None, None, None, T0 + MIN).unwrap();
    assert_eq!(lot.delete_vehicle(&a, "missing"), Err(ParkingError::NotFound));
    lot.delete_vehicle(&a, &v.id).unwrap();
    assert_eq!(lot.vehicles.len(), 1);
    assert_eq!(lot.transactions.len(), 1);
    assert_eq!(lot.transactions[0].vehicle_id, w.id);
}

#[test]
fn lookups_need_read_permission() {
    let mut a = admin();
    a.set_current_user_permissions(vec![]);
    let lot = seeded();
    assert_eq!(
        lot.vehicles_by_plate(&a, "ABC1").unwrap_err(),
        ParkingError::Access(AccessError::PermissionDenied)
    );
    assert_eq!(lot.total_debt(&a), Err(ParkingError::Access(AccessError::PermissionDenied)));
}

#[test]
fn find_by_ticket_sees_active_sessions_only() {
    let a = admin();
    let mut lot = ParkingLot::new();
    lot.register_entry(&a, "FND1", VehicleType::Car, None, "f1", T0).unwrap();
    assert_eq!(lot.find_by_ticket(&a, " f1 ").unwrap().map(|v| v.plate), Some("FND1".to_string()));
    lot.process_exit(&a, "f1", None, None, None, T0 + MIN).unwrap();
    assert!(lot.find_by_ticket(&a, "f1").unwrap().is_none());
}

#[test]
fn debtors_largest_first_with_paging() {
    let a = admin();
    let mut lot = seeded();
    lot.vehicles.push(session("v5", "t5", "BIG1", VehicleType::Car, Some(40), T0 + 4 * MIN));
    lot.vehicles.push(session("v6", "t6", "BIG1", VehicleType::Car, Some(2), T0 + 5 * MIN));
    lot.vehicles.push(session("v7", "t7", "", VehicleType::Bicycle, Some(9), T0 + 6 * MIN));
    let all = lot.list_debtors(&a, None, None).unwrap();
    assert_eq!(all.total, 2);
    assert_eq!(all.items[0].plate, "BIG1");
    assert_eq!(all.items[0].total_debt, 42);
    assert_eq!(all.items[0].sessions_with_debt, 2);
    assert_eq!(all.items[0].oldest_exit_time, Some(T0 + 5 * MIN));
    assert_eq!(all.items[1].plate, "ABC1");
    assert_eq!(all.items[1].total_debt, 15);
    let second = lot.list_debtors(&a, Some(1), Some(1)).unwrap();
    assert_eq!(second.items.len(), 1);
    assert_eq!(second.items[0].plate, "ABC1");
    assert!(lot.list_debtors(&a, Some(10), Some(5)).unwrap().items.is_empty());
}

#[test]
fn debt_detail_lists_owing_sessions_and_their_payments() {
    let a = admin();
    let mut lot = ParkingLot::new();
    lot.register_entry(&a, "DD1", VehicleType::Car, None, "x1", T0).unwrap();
    let first = lot.process_exit(&a, "x1", Some(10), None, None, T0 + MIN).unwrap();
    lot.register_entry(&a, "DD1", VehicleType::Car, None, "x2", T0 + 2 * MIN).unwrap();
    let second = lot.process_exit(&a, "x2", Some(5), None, None, T0 + 3 * MIN).unwrap();
    lot.register_entry(&a, "OTHER", VehicleType::Car, None, "x3", T0).unwrap();
    lot.process_exit(&a, "x3", None, None, None, T0 + MIN).unwrap();
    let d = lot.debt_detail_by_plate(&a, " dd1 ").unwrap();
    let ids: Vec<&str> = d.sessions.iter().map(|v| v.id.as_str()).collect();
    assert_eq!(ids, vec![second.id.as_str(), first.id.as_str()]);
    let amounts: Vec<u64> = d.transactions.iter().map(|t| t.amount).collect();
    assert_eq!(amounts, vec![5, 10]);
}
