//! The schema-migration ladder: an ordered list of self-contained steps, each
//! recorded by its version once applied, and the rule that picks the steps a
//! store still needs.
use vstd::prelude::*;

use crate::roles::sync_spec;
use crate::roles::lemma_sync_idempotent;

verus! {

/// The newest schema version that this code knows.
pub const SCHEMA_VERSION: i64 = 18;

/// Data work that a step does beyond its statements.
#[derive(Debug, Clone, Copy, PartialEq, Eq, Structural)]
pub enum Backfill {
    /// The statements are the whole step.
    Nothing,
    /// Seed the administrator and operator roles, their grants and the
    /// administrator account, unless they exist.
    SeedUsersAndRoles,
    /// Seed the developer role and its hidden account.
    SeedDeveloper,
}

/// One rung of the ladder.
#[derive(Debug, Clone, Copy)]
pub struct MigrationStep {
    /// The version recorded once the step has been applied.
    pub version: i64,
    /// The schema statements, run as one batch.
    pub sql: &'static str,
    /// The step rebuilds a table, with referential integrity switched off
    /// while it runs.
    pub rebuilds_table: bool,
    /// What the step does to the data after its statements.
    pub backfill: Backfill,
}

/// A ladder whose step at position `i` records version `i + 1`.
pub open spec fn ladder_wf(ladder: Seq<MigrationStep>) -> bool {
    forall|i: int| 0 <= i < ladder.len() ==> #[trigger] ladder[i].version == i + 1
}

/// Position in the ladder of the first step that a store at `current` lacks.
pub open spec fn first_pending(ladder: Seq<MigrationStep>, current: int) -> int {
    if current < 0 {
        0
    } else if current > ladder.len() {
        ladder.len() as int
    } else {
        current
    }
}

/// The steps that a store at version `current` still needs, in order.
pub open spec fn pending_spec(ladder: Seq<MigrationStep>, current: int) -> Seq<MigrationStep> {
    ladder.subrange(first_pending(ladder, current), ladder.len() as int)
}

/// The version that a store at `current` records after migration.
pub open spec fn migrated_version(ladder: Seq<MigrationStep>, current: int) -> int {
    if current > ladder.len() {
        current
    } else {
        ladder.len() as int
    }
}

/// The ladder of this code, oldest step first.
pub fn migration_steps() -> (r: Vec<MigrationStep>)
    ensures
        r@.len() == SCHEMA_VERSION,
        ladder_wf(r@),
{
    let r = vec![
        MigrationStep {
            version: 1,
            sql: r#"CREATE TABLE IF NOT EXISTS vehicles ( id TEXT PRIMARY KEY, ticket_code TEXT NOT NULL, plate TEXT NOT NULL, vehicle_type TEXT NOT NULL, observations TEXT, entry_time TEXT NOT NULL, exit_time TEXT, status TEXT NOT NULL, total_amount REAL, debt REAL, special_rate REAL ); CREATE INDEX IF NOT EXISTS idx_vehicles_ticket ON vehicles(ticket_code); CREATE INDEX IF NOT EXISTS idx_vehicles_plate ON vehicles(plate); CREATE INDEX IF NOT EXISTS idx_vehicles_status ON vehicles(status); CREATE INDEX IF NOT EXISTS idx_vehicles_entry_time ON vehicles(entry_time); CREATE TABLE IF NOT EXISTS transactions ( id TEXT PRIMARY KEY, vehicle_id TEXT NOT NULL, amount REAL NOT NULL, method TEXT NOT NULL, created_at TEXT NOT NULL, FOREIGN KEY (vehicle_id) REFERENCES vehicles(id) ); CREATE INDEX IF NOT EXISTS idx_transactions_vehicle ON transactions(vehicle_id); CREATE INDEX IF NOT EXISTS idx_transactions_created ON transactions(created_at);"#,
            rebuilds_table: false,
            backfill: Backfill::Nothing,
        },
        MigrationStep {
            version: 2,
            sql: r#"DROP TABLE IF EXISTS vehicles_new; CREATE TABLE vehicles_new ( id TEXT PRIMARY KEY, ticket_code TEXT NOT NULL, plate TEXT NOT NULL, vehicle_type TEXT NOT NULL, observations TEXT, entry_time TEXT NOT NULL, exit_time TEXT, status TEXT NOT NULL, total_amount REAL, debt REAL, special_rate REAL ); INSERT INTO vehicles_new SELECT id, ticket_code, plate, vehicle_type, observations, entry_time, exit_time, status, total_amount, debt, special_rate FROM vehicles; DROP TABLE vehicles; ALTER TABLE vehicles_new RENAME TO vehicles; CREATE INDEX IF NOT EXISTS idx_vehicles_ticket ON vehicles(ticket_code); CREATE INDEX IF NOT EXISTS idx_vehicles_plate ON vehicles(plate); CREATE INDEX IF NOT EXISTS idx_vehicles_status ON vehicles(status); CREATE INDEX IF NOT EXISTS idx_vehicles_entry_time ON vehicles(entry_time);"#,
            rebuilds_table: true,
            backfill: Backfill::Nothing,
        },
        MigrationStep {
            version: 3,
            sql: r#"CREATE INDEX IF NOT EXISTS idx_vehicles_plate_type ON vehicles(plate, vehicle_type);"#,
            rebuilds_table: false,
            backfill: Backfill::Nothing,
        },
        MigrationStep {
            version: 4,
            sql: r#"CREATE TABLE IF NOT EXISTS shift_closures ( id TEXT PRIMARY KEY, closed_at TEXT NOT NULL, expected_total REAL NOT NULL, cash_total REAL NOT NULL, card_total REAL NOT NULL, transfer_total REAL NOT NULL, arqueo_cash REAL, discrepancy REAL NOT NULL, total_transactions INTEGER NOT NULL, notes TEXT ); CREATE INDEX IF NOT EXISTS idx_shift_closures_closed_at ON shift_closures(closed_at);"#,
            rebuilds_table: false,
            backfill: Backfill::Nothing,
        },
        MigrationStep {
            version: 5,
            sql: r#"CREATE TABLE IF NOT EXISTS roles ( id TEXT PRIMARY KEY, name TEXT NOT NULL UNIQUE ); CREATE TABLE IF NOT EXISTS role_permissions ( role_id TEXT NOT NULL, permission TEXT NOT NULL, PRIMARY KEY (role_id, permission), FOREIGN KEY (role_id) REFERENCES roles(id) ); CREATE TABLE IF NOT EXISTS users ( id TEXT PRIMARY KEY, username TEXT NOT NULL UNIQUE, password_hash TEXT NOT NULL, display_name TEXT NOT NULL, role_id TEXT NOT NULL, created_at TEXT NOT NULL, FOREIGN KEY (role_id) REFERENCES roles(id) ); CREATE INDEX IF NOT EXISTS idx_users_username ON users(username); CREATE INDEX IF NOT EXISTS idx_users_role ON users(role_id); CREATE INDEX IF NOT EXISTS idx_role_permissions_role ON role_permissions(role_id);"#,
            rebuilds_table: false,
            backfill: Backfill::SeedUsersAndRoles,
        },
        MigrationStep {
            version: 6,
            sql: r#"INSERT OR IGNORE INTO role_permissions (role_id, permission) VALUES ('role_admin', 'dev:console:access');"#,
            rebuilds_table: false,
            backfill: Backfill::Nothing,
        },
        MigrationStep {
            version: 7,
            sql: r#"CREATE TABLE IF NOT EXISTS drive_config ( key TEXT PRIMARY KEY, value TEXT );"#,
            rebuilds_table: false,
            backfill: Backfill::Nothing,
        },
        MigrationStep {
            version: 8,
            sql: r#"ALTER TABLE vehicles ADD COLUMN plate_upper TEXT; UPDATE vehicles SET plate_upper = UPPER(TRIM(COALESCE(plate, ''))) WHERE plate_upper IS NULL; CREATE INDEX IF NOT EXISTS idx_vehicles_plate_upper ON vehicles(plate_upper); CREATE INDEX IF NOT EXISTS idx_vehicles_status_exit_time ON vehicles(status, exit_time);"#,
            rebuilds_table: false,
            backfill: Backfill::Nothing,
        },
        MigrationStep {
            version: 9,
            sql: r#""#,
            rebuilds_table: false,
            backfill: Backfill::Nothing,
        },
        MigrationStep {
            version: 10,
            sql: r#"CREATE TABLE IF NOT EXISTS custom_tariffs ( id TEXT PRIMARY KEY, plate_or_ref TEXT NOT NULL, description TEXT, amount REAL NOT NULL, created_at TEXT NOT NULL ); CREATE INDEX IF NOT EXISTS idx_custom_tariffs_plate_or_ref ON custom_tariffs(plate_or_ref);"#,
            rebuilds_table: false,
            backfill: Backfill::Nothing,
        },
        MigrationStep {
            version: 11,
            sql: r#"CREATE TABLE IF NOT EXISTS default_rates ( vehicle_type TEXT PRIMARY KEY, amount REAL NOT NULL ); INSERT OR IGNORE INTO default_rates (vehicle_type, amount) VALUES ('car', 50), ('motorcycle', 30), ('truck', 80), ('bicycle', 15);"#,
            rebuilds_table: false,
            backfill: Backfill::Nothing,
        },
        MigrationStep {
            version: 12,
            sql: r#"ALTER TABLE custom_tariffs ADD COLUMN vehicle_type TEXT; UPDATE custom_tariffs SET vehicle_type = 'car' WHERE vehicle_type IS NULL; INSERT INTO custom_tariffs (id, vehicle_type, plate_or_ref, description, amount, created_at) SELECT 'default_car', vehicle_type, '', NULL, amount, datetime('now') FROM default_rates WHERE vehicle_type = 'car'; INSERT INTO custom_tariffs (id, vehicle_type, plate_or_ref, description, amount, created_at) SELECT 'default_motorcycle', vehicle_type, '', NULL, amount, datetime('now') FROM default_rates WHERE vehicle_type = 'motorcycle'; INSERT INTO custom_tariffs (id, vehicle_type, plate_or_ref, description, amount, created_at) SELECT 'default_truck', vehicle_type, '', NULL, amount, datetime('now') FROM default_rates WHERE vehicle_type = 'truck'; INSERT INTO custom_tariffs (id, vehicle_type, plate_or_ref, description, amount, created_at) SELECT 'default_bicycle', vehicle_type, '', NULL, amount, datetime('now') FROM default_rates WHERE vehicle_type = 'bicycle'; DELETE FROM custom_tariffs WHERE (plate_or_ref IS NULL OR plate_or_ref = '') AND vehicle_type IN ('car','motorcycle','truck','bicycle') AND id NOT LIKE 'default_%'; DROP TABLE IF EXISTS default_rates; CREATE UNIQUE INDEX IF NOT EXISTS idx_custom_tariffs_vehicle_plate ON custom_tariffs(vehicle_type, COALESCE(plate_or_ref, ''));"#,
            rebuilds_table: false,
            backfill: Backfill::Nothing,
        },
        MigrationStep {
            version: 13,
            sql: r#"ALTER TABLE custom_tariffs ADD COLUMN name TEXT;"#,
            rebuilds_table: false,
            backfill: Backfill::Nothing,
        },
        MigrationStep {
            version: 14,
            sql: r#"ALTER TABLE custom_tariffs ADD COLUMN rate_unit TEXT; UPDATE custom_tariffs SET rate_unit = 'hour' WHERE rate_unit IS NULL;"#,
            rebuilds_table: false,
            backfill: Backfill::Nothing,
        },
        MigrationStep {
            version: 15,
            sql: r#"ALTER TABLE custom_tariffs ADD COLUMN rate_duration_hours INTEGER; ALTER TABLE custom_tariffs ADD COLUMN rate_duration_minutes INTEGER; UPDATE custom_tariffs SET rate_duration_hours = 1, rate_duration_minutes = 0 WHERE rate_unit IS NULL OR rate_unit = 'hour'; UPDATE custom_tariffs SET rate_duration_hours = 0, rate_duration_minutes = 1 WHERE rate_unit = 'minute'; UPDATE custom_tariffs SET rate_duration_hours = 1, rate_duration_minutes = 0 WHERE rate_duration_hours IS NULL; UPDATE custom_tariffs SET rate_duration_minutes = 0 WHERE rate_duration_minutes IS NULL;"#,
            rebuilds_table: false,
            backfill: Backfill::Nothing,
        },
        MigrationStep {
            version: 16,
            sql: r#"CREATE TABLE IF NOT EXISTS barcodes ( id TEXT PRIMARY KEY, code TEXT NOT NULL UNIQUE, label TEXT, created_at TEXT NOT NULL, CHECK(LENGTH(code) = 8 AND CAST(code AS INTEGER) BETWEEN 10000000 AND 99999999) );"#,
            rebuilds_table: false,
            backfill: Backfill::Nothing,
        },
        MigrationStep {
            version: 17,
            sql: r#"CREATE TABLE IF NOT EXISTS barcodes_new ( id TEXT PRIMARY KEY, code TEXT NOT NULL UNIQUE, label TEXT, created_at TEXT NOT NULL, CHECK(LENGTH(code) >= 1 AND LENGTH(code) <= 24) ); INSERT INTO barcodes_new (id, code, label, created_at) SELECT id, code, label, created_at FROM barcodes; DROP TABLE barcodes; ALTER TABLE barcodes_new RENAME TO barcodes;"#,
            rebuilds_table: true,
            backfill: Backfill::Nothing,
        },
        MigrationStep {
            version: 18,
            sql: r#"ALTER TABLE users ADD COLUMN hidden INTEGER NOT NULL DEFAULT 0;"#,
            rebuilds_table: false,
            backfill: Backfill::SeedDeveloper,
        },
    ];
    r
}

/// The steps that a store at version `current` still needs, in ascending
/// order of version.
pub fn pending_steps(ladder: &Vec<MigrationStep>, current: i64) -> (r: Vec<MigrationStep>)
    ensures
        r@ == pending_spec(ladder@, current as int),
{
    let start: usize = if current < 0 {
        0
    } else if current as u64 > ladder.len() as u64 {
        ladder.len()
    } else {
        current as usize
    };
    let mut out: Vec<MigrationStep> = Vec::new();
    let mut i: usize = start;
    while i < ladder.len()
        invariant
            start == first_pending(ladder@, current as int),
            start <= i <= ladder@.len(),
            out@ == ladder@.subrange(start as int, i as int),
        decreases ladder@.len() - i,
    {
        out.push(ladder[i]);
        i = i + 1;
        assert(out@ =~= ladder@.subrange(start as int, i as int));
    }
    out
}

/// The version that a store at `current` records once every pending step
/// has been applied; a store newer than the ladder keeps its version.
pub fn version_after_migration(ladder: &Vec<MigrationStep>, current: i64) -> (r: i64)
    requires
        ladder@.len() <= i64::MAX,
    ensures
        r == migrated_version(ladder@, current as int),
{
    if current as i128 > ladder.len() as i128 {
        current
    } else {
        ladder.len() as i64
    }
}

/// The pending steps are exactly those whose version exceeds the store's,
/// each once, in ascending order with no gap.
pub proof fn lemma_pending_are_newer(ladder: Seq<MigrationStep>, current: int)
    requires
        ladder_wf(ladder),
    ensures
        forall|i: int|
            0 <= i < pending_spec(ladder, current).len() ==> #[trigger] pending_spec(ladder, current)[i].version
                == first_pending(ladder, current) + 1 + i,
        forall|i: int|
            0 <= i < pending_spec(ladder, current).len() ==> #[trigger] pending_spec(ladder, current)[i].version
                > current,
        forall|j: int|
            0 <= j < ladder.len() && #[trigger] ladder[j].version > current ==> pending_spec(ladder, current).contains(
                ladder[j],
            ),
{
    let p = pending_spec(ladder, current);
    let s = first_pending(ladder, current);
    assert forall|j: int| 0 <= j < ladder.len() && #[trigger] ladder[j].version > current implies p.contains(
        ladder[j],
    ) by {
        assert(p[j - s] == ladder[j]);
    }
}

/// Migrating from an old version passes through every later version: the
/// steps from `old` are the steps from `old` to `mid`, then the steps from
/// `mid`.
pub proof fn lemma_migration_composes(ladder: Seq<MigrationStep>, old: int, mid: int)
    requires
        ladder_wf(ladder),
        0 <= old <= mid <= ladder.len(),
    ensures
        pending_spec(ladder, old) == ladder.subrange(old, mid) + pending_spec(ladder, mid),
        migrated_version(ladder, old) == migrated_version(ladder, mid),
{
    assert(pending_spec(ladder, old) =~= ladder.subrange(old, mid) + pending_spec(ladder, mid));
}

/// Migrating a second time applies no step and adds no grant: the version
/// reached is final and a synchronised grant set stays as it is.
pub proof fn lemma_migrate_twice(
    ladder: Seq<MigrationStep>,
    current: int,
    grants: Seq<Seq<char>>,
    target: Seq<Seq<char>>,
)
    requires
        ladder_wf(ladder),
    ensures
        pending_spec(ladder, migrated_version(ladder, current)).len() == 0,
        migrated_version(ladder, migrated_version(ladder, current)) == migrated_version(ladder, current),
        sync_spec(sync_spec(grants, target), target) == sync_spec(grants, target),
{
    lemma_sync_idempotent(grants, target);
}

} // verus!
