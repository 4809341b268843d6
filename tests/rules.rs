use std::collections::HashMap;

use coco_parking::access::{catalog_strings, require_dev_mode, AccessError, AppState};
use coco_parking::barcodes::{code128_data_from_digits, is_valid_barcode_format, validate_code, BarcodeError};
use coco_parking::ids::{generate_id, PREFIX_VEHICLE};
use coco_parking::metrics::{
    build_24_slots, hour_in_period, hour_label, local_date_hour_to_utc_range, utc_to_local_hour,
};
use coco_parking::migrations::{migration_steps, pending_steps, version_after_migration, Backfill, SCHEMA_VERSION};
use coco_parking::permissions::{admin_permissions, all_permissions, operator_permissions, DEV_CONSOLE_ACCESS};
use coco_parking::reports::{
    all_columns_for_type, date_prefix, debtors_columns, filter_columns, normalize_date_prefix, ReportFilters,
    ReportType,
};
use coco_parking::roles::{
    group_by_domain, missing_grants, replace_role_grants, split_permission, sync_grants, validate_permission_set,
};
use coco_parking::tariffs::{fallback_rate, tariff_from_stored, RateUnit};
use coco_parking::treasury::{parse_payment_method, payment_method_from_name, payment_method_to_str, PaymentMethod};
use coco_parking::vehicles::{
    billed_hours, like_escape_prefix, normalize_plate_for_index, settle_payment, status_from_str, status_to_str,
    vehicle_type_from_str, vehicle_type_has_plate, vehicle_type_to_str, Settlement, VehicleStatus, VehicleType,
};

#[test]
fn ladder_has_one_step_per_version() {
    let ladder = migration_steps();
    assert_eq!(ladder.len() as i64, SCHEMA_VERSION);
    for (i, s) in ladder.iter().enumerate() {
        assert_eq!(s.version, i as i64 + 1);
    }
    assert!(ladder[1].rebuilds_table);
    assert_eq!(ladder[4].backfill, Backfill::SeedUsersAndRoles);
    assert_eq!(ladder[17].backfill, Backfill::SeedDeveloper);
}

#[test]
fn fresh_store_runs_every_step_in_order() {
    let ladder = migration_steps();
    let steps = pending_steps(&ladder, 0);
    let versions: Vec<i64> = steps.iter().map(|s| s.version).collect();
    assert_eq!(versions, (1..=18).collect::<Vec<i64>>());
    assert_eq!(pending_steps(&ladder, -4).len(), 18);
    assert_eq!(version_after_migration(&ladder, 0), 18);
}

#[test]
fn migrating_twice_runs_nothing_the_second_time() {
    let ladder = migration_steps();
    let v = version_after_migration(&ladder, 3);
    assert!(pending_steps(&ladder, v).is_empty());
    assert_eq!(version_after_migration(&ladder, v), v);
    assert!(pending_steps(&ladder, 25).is_empty());
    assert_eq!(version_after_migration(&ladder, 25), 25);
}

#[test]
fn older_store_runs_the_later_steps_only() {
    let ladder = migration_steps();
    let from_five: Vec<i64> = pending_steps(&ladder, 5).iter().map(|s| s.version).collect();
    assert_eq!(from_five, (6..=18).collect::<Vec<i64>>());
    let from_two: Vec<i64> = pending_steps(&ladder, 2).iter().map(|s| s.version).collect();
    let mut joined: Vec<i64> = vec![3, 4, 5];
    joined.extend(from_five);
    assert_eq!(from_two, joined);
}

#[test]
fn grant_sync_adds_missing_and_is_idempotent() {
    let existing = vec!["caja:shift:close".to_string(), "custom:extra".to_string()];
    let target = operator_permissions();
    let once = sync_grants(&existing, &target);
    assert_eq!(once.len(), 2 + target.len() - 1);
    assert_eq!(once[0], "caja:shift:close");
    assert_eq!(once[1], "custom:extra");
    let twice = sync_grants(&once, &target);
    assert_eq!(twice, once);
    assert!(missing_grants(&once, &target).is_empty());
}

#[test]
fn catalog_and_role_grant_sets() {
    let all = all_permissions();
    assert_eq!(all.len(), 29);
    assert_eq!(all[0], "vehiculos:entries:read");
    assert!(all.contains(&DEV_CONSOLE_ACCESS));
    let admin = admin_permissions();
    assert_eq!(admin.len(), 28);
    assert!(!admin.contains(&DEV_CONSOLE_ACCESS));
    let op = operator_permissions();
    assert_eq!(op.len(), 10);
    assert!(op.contains(&"caja:shift:close"));
    assert_eq!(catalog_strings().len(), 29);
}

#[test]
fn unknown_permission_is_rejected() {
    let ok = vec!["barcodes:read".to_string(), "backup:create".to_string()];
    assert_eq!(validate_permission_set(&ok), Ok(()));
    let bad = vec!["barcodes:read".to_string(), "barcodes:print".to_string(), "x".to_string()];
    assert_eq!(validate_permission_set(&bad), Err("barcodes:print".to_string()));
}

#[test]
fn admin_session_has_every_permission() {
    let mut a = AppState::new();
    assert!(a.check_permission("dev:console:access").is_err());
    a.sign_in("admin".to_string(), catalog_strings());
    assert_eq!(a.get_current_user_id(), Some("admin".to_string()));
    assert_eq!(a.check_permission("dev:console:access"), Ok(()));
    assert_eq!(a.check_permission("dev:console:nothing"), Err(AccessError::PermissionDenied));
    assert_eq!(a.current_user_permissions().len(), 29);
    assert_eq!(require_dev_mode(true), Ok(()));
    assert_eq!(require_dev_mode(false), Err(AccessError::DevelopmentOnly));
}

#[test]
fn plate_keys_are_trimmed_and_upper_cased() {
    assert_eq!(normalize_plate_for_index("  abc12d "), "ABC12D");
    assert_eq!(normalize_plate_for_index("\t\n"), "");
    assert_eq!(normalize_plate_for_index("ñandú1"), "ÑANDÚ1");
}

#[test]
fn like_prefix_escapes_pattern_characters() {
    assert_eq!(like_escape_prefix("AB"), "AB%");
    assert_eq!(like_escape_prefix("a%b_c\\"), "a\\%b\\_c\\\\%");
    assert_eq!(like_escape_prefix(""), "%");
}

#[test]
fn kinds_and_states_round_trip_their_names() {
    for v in [VehicleType::Car, VehicleType::Motorcycle, VehicleType::Truck, VehicleType::Bicycle] {
        assert_eq!(vehicle_type_from_str(vehicle_type_to_str(&v)), v);
    }
    assert_eq!(vehicle_type_from_str("spaceship"), VehicleType::Car);
    for s in [VehicleStatus::Active, VehicleStatus::Completed, VehicleStatus::Removed] {
        assert_eq!(status_from_str(status_to_str(&s)), s);
    }
    assert_eq!(status_from_str("parked"), VehicleStatus::Active);
    assert!(!vehicle_type_has_plate(&VehicleType::Bicycle));
    assert!(vehicle_type_has_plate(&VehicleType::Truck));
}

#[test]
fn billed_hours_round_up_with_a_minimum_of_one() {
    let t = 1_000_000_000;
    assert_eq!(billed_hours(t, t), 1);
    assert_eq!(billed_hours(t, t + 59_999), 1);
    assert_eq!(billed_hours(t, t + 61 * 60_000), 2);
    assert_eq!(billed_hours(t, t + 120 * 60_000), 2);
    assert_eq!(billed_hours(t, t + 121 * 60_000), 3);
    assert_eq!(billed_hours(t + 5_000, t), 1);
}

#[test]
fn settlement_of_partial_and_full_payments() {
    assert_eq!(settle_payment(50, 30, Some(20)), Some(Settlement { charged: 20, remaining_debt: 60 }));
    assert_eq!(settle_payment(50, 30, Some(80)), Some(Settlement { charged: 80, remaining_debt: 0 }));
    assert_eq!(settle_payment(50, 30, Some(90)), Some(Settlement { charged: 80, remaining_debt: 0 }));
    assert_eq!(settle_payment(50, 0, None), Some(Settlement { charged: 50, remaining_debt: 0 }));
    assert_eq!(settle_payment(u64::MAX, 1, None), None);
}

#[test]
fn payment_methods_ignore_case_and_default_to_cash() {
    assert_eq!(parse_payment_method(Some("CARD")), PaymentMethod::Card);
    assert_eq!(parse_payment_method(Some("Transfer")), PaymentMethod::Transfer);
    assert_eq!(parse_payment_method(Some("bitcoin")), PaymentMethod::Cash);
    assert_eq!(parse_payment_method(None), PaymentMethod::Cash);
    assert_eq!(payment_method_to_str(PaymentMethod::Transfer), "transfer");
    assert_eq!(payment_method_from_name("card"), PaymentMethod::Card);
    assert_eq!(payment_method_from_name("CARD"), PaymentMethod::Cash);
}

#[test]
fn built_in_rates() {
    assert_eq!(fallback_rate(VehicleType::Car), 50);
    assert_eq!(fallback_rate(VehicleType::Motorcycle), 30);
    assert_eq!(fallback_rate(VehicleType::Truck), 80);
    assert_eq!(fallback_rate(VehicleType::Bicycle), 15);
}

#[test]
fn barcode_codes_are_validated() {
    assert_eq!(validate_code(" 0012 "), Ok("0012".to_string()));
    assert_eq!(validate_code("   "), Err(BarcodeError::Empty));
    assert_eq!(validate_code("1234567890123456789012345"), Err(BarcodeError::Length { len: 25 }));
    assert_eq!(validate_code("12a4"), Err(BarcodeError::NotDigits));
    assert_eq!(is_valid_barcode_format("987"), Some("987".to_string()));
    assert_eq!(is_valid_barcode_format("98 7"), None);
    assert_eq!(code128_data_from_digits(" 42 "), "\u{0181}42");
    assert_eq!(code128_data_from_digits(""), "\u{0181}0");
}

#[test]
fn hour_labels_and_slots() {
    assert_eq!(hour_label(0), "00:00 - 01:00");
    assert_eq!(hour_label(9), "09:00 - 10:00");
    assert_eq!(hour_label(23), "23:00 - 00:00");
    let mut counts = HashMap::new();
    counts.insert(7u8, 4u32);
    counts.insert(23u8, 1u32);
    let slots = build_24_slots(&counts);
    assert_eq!(slots.len(), 24);
    assert_eq!(slots[7].count, 4);
    assert_eq!(slots[8].count, 0);
    assert_eq!(slots[23].hour_label, "23:00 - 00:00");
    assert!(hour_in_period(7, "morning"));
    assert!(!hour_in_period(12, "morning"));
    assert!(hour_in_period(13, "midday"));
    assert!(hour_in_period(18, "afternoon"));
    assert!(hour_in_period(2, "night"));
    assert!(hour_in_period(12, "whenever"));
}

#[test]
fn report_columns_and_selection() {
    let all = all_columns_for_type(&ReportType::Transactions);
    let keys: Vec<&str> = all.iter().map(|c| c.key.as_str()).collect();
    assert_eq!(keys, vec!["id", "vehicle_id", "amount", "method", "created_at"]);
    let picked = filter_columns(&all, &vec!["method".to_string(), "id".to_string(), "nope".to_string()]);
    let keys: Vec<&str> = picked.iter().map(|c| c.key.as_str()).collect();
    assert_eq!(keys, vec!["id", "method"]);
    assert_eq!(filter_columns(&all, &vec![]).len(), 5);
    assert_eq!(debtors_columns()[2].label, "Oldest exit (since)");
    assert_eq!(all_columns_for_type(&ReportType::ShiftClosures).len(), 10);
}

#[test]
fn date_prefixes() {
    assert_eq!(normalize_date_prefix(" 2026-01-02T12:00:00Z "), "2026-01-02%");
    assert_eq!(normalize_date_prefix("2026-01"), "2026-01%");
    assert_eq!(date_prefix("2026-03-04 extra"), "2026-03-04");
}

#[test]
fn generated_ids_have_prefix_and_length() {
    let a = generate_id(PREFIX_VEHICLE);
    let b = generate_id(PREFIX_VEHICLE);
    assert_eq!(a.len(), 25);
    assert!(a.starts_with("VH"));
    assert!(a[2..].chars().all(|c| c.is_ascii_alphanumeric()));
    assert_ne!(a, b);
}

#[test]
fn permissions_grouped_by_domain() {
    assert_eq!(
        split_permission("caja:treasury:read"),
        Some(("caja".to_string(), "read".to_string()))
    );
    assert_eq!(split_permission("backup:create"), Some(("backup".to_string(), "create".to_string())));
    assert_eq!(split_permission("plain"), None);
    let perms = vec![
        "caja:treasury:read".to_string(),
        "backup:create".to_string(),
        "caja:shift:close".to_string(),
        "plain".to_string(),
    ];
    let g = group_by_domain(&perms);
    assert_eq!(g.len(), 2);
    assert_eq!(g[0].domain, "caja");
    assert_eq!(g[0].actions, vec!["read".to_string(), "close".to_string()]);
    assert_eq!(g[1].domain, "backup");
    assert_eq!(g[1].actions, vec!["create".to_string()]);
}

#[test]
fn local_hours_lag_utc_by_five() {
    assert_eq!(utc_to_local_hour(0), 19);
    assert_eq!(utc_to_local_hour(5 * 3_600_000), 0);
    assert_eq!(utc_to_local_hour(1_767_225_600_000 + 17 * 3_600_000), 12);
    assert_eq!(local_date_hour_to_utc_range(0, 0), Some((18_000_000, 21_600_000)));
    assert_eq!(local_date_hour_to_utc_range(1, 23), Some((187_200_000, 190_800_000)));
    assert_eq!(local_date_hour_to_utc_range(1, 24), None);
}

#[test]
fn stored_tariffs_are_read_with_defaults() {
    let t = tariff_from_stored(
        "t1".to_string(),
        Some("truck".to_string()),
        Some(String::new()),
        String::new(),
        None,
        80,
        Some("weekly".to_string()),
        Some(0),
        Some(0),
        7,
    );
    assert_eq!(t.vehicle_type, VehicleType::Truck);
    assert_eq!(t.name, None);
    assert_eq!(t.plate_or_ref, None);
    assert_eq!(t.rate_unit, RateUnit::Hour);
    assert_eq!((t.rate_duration_hours, t.rate_duration_minutes), (1, 0));
    let u = tariff_from_stored(
        "t2".to_string(),
        None,
        Some("Night".to_string()),
        "ABC1".to_string(),
        Some("d".to_string()),
        30,
        Some("minute".to_string()),
        Some(0),
        Some(15),
        8,
    );
    assert_eq!(u.vehicle_type, VehicleType::Car);
    assert_eq!(u.plate_or_ref.as_deref(), Some("ABC1"));
    assert_eq!(u.rate_unit, RateUnit::Minute);
    assert_eq!((u.rate_duration_hours, u.rate_duration_minutes), (0, 15));
}

#[test]
fn report_filters_ignore_unknown_names() {
    let f = ReportFilters {
        date_from: " 2026-02-03T00:00:00Z".to_string(),
        date_to: "2026-02-04".to_string(),
        payment_method: Some("Card".to_string()),
        vehicle_type: Some("boat".to_string()),
    };
    assert_eq!(f.method_filter(), Some(PaymentMethod::Card));
    assert_eq!(f.vehicle_type_filter(), None);
    assert_eq!(f.from_prefix(), "2026-02-03%");
    let g = ReportFilters {
        date_from: "2026-02-03".to_string(),
        date_to: "2026-02-04".to_string(),
        payment_method: Some("cheque".to_string()),
        vehicle_type: Some("TRUCK".to_string()),
    };
    assert_eq!(g.method_filter(), None);
    assert_eq!(g.vehicle_type_filter(), Some(VehicleType::Truck));
}

#[test]
fn role_grants_are_replaced_only_by_known_permissions() {
    let good = vec!["barcodes:read".to_string(), "caja:shift:close".to_string()];
    assert_eq!(replace_role_grants(&good), Ok(good.clone()));
    let bad = vec!["barcodes:read".to_string(), "nope:x".to_string()];
    assert_eq!(replace_role_grants(&bad), Err("nope:x".to_string()));
}
