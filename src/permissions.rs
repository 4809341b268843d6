//! The permission catalog: every permission string that the code knows, in
//! the form `domain:resource:action`, and the grant sets of the built-in roles.
use vstd::prelude::*;

verus! {
pub const VEHICULOS_ENTRIES_READ: &'static str = "vehiculos:entries:read";
pub const VEHICULOS_ENTRIES_CREATE: &'static str = "vehiculos:entries:create";
pub const VEHICULOS_ENTRIES_MODIFY: &'static str = "vehiculos:entries:modify";
pub const VEHICULOS_ENTRIES_DELETE: &'static str = "vehiculos:entries:delete";
pub const VEHICULOS_ENTRIES_REMOVE_FROM_PARKING: &'static str = "vehiculos:entries:remove_from_parking";
pub const CAJA_TREASURY_READ: &'static str = "caja:treasury:read";
pub const CAJA_DEBTORS_READ: &'static str = "caja:debtors:read";
pub const CAJA_TRANSACTIONS_READ: &'static str = "caja:transactions:read";
pub const CAJA_TRANSACTIONS_CREATE: &'static str = "caja:transactions:create";
pub const CAJA_TRANSACTIONS_MODIFY: &'static str = "caja:transactions:modify";
pub const CAJA_SHIFT_CLOSE: &'static str = "caja:shift:close";
pub const METRICAS_DASHBOARD_READ: &'static str = "metricas:dashboard:read";
pub const METRICAS_REPORTS_EXPORT: &'static str = "metricas:reports:export";
pub const ROLES_USERS_READ: &'static str = "roles:users:read";
pub const ROLES_USERS_CREATE: &'static str = "roles:users:create";
pub const ROLES_USERS_MODIFY: &'static str = "roles:users:modify";
pub const ROLES_USERS_DELETE: &'static str = "roles:users:delete";
pub const ROLES_USERS_ASSIGN: &'static str = "roles:users:assign";
pub const ROLES_PERMISSIONS_READ: &'static str = "roles:permissions:read";
pub const ROLES_PERMISSIONS_MODIFY: &'static str = "roles:permissions:modify";
pub const BACKUP_LIST_READ: &'static str = "backup:list:read";
pub const BACKUP_CREATE: &'static str = "backup:create";
pub const BACKUP_RESTORE: &'static str = "backup:restore";
pub const BACKUP_CONFIG_READ: &'static str = "backup:config:read";
pub const BACKUP_CONFIG_MODIFY: &'static str = "backup:config:modify";
pub const BARCODES_READ: &'static str = "barcodes:read";
pub const BARCODES_CREATE: &'static str = "barcodes:create";
pub const BARCODES_DELETE: &'static str = "barcodes:delete";
pub const DEV_CONSOLE_ACCESS: &'static str = "dev:console:access";

/// Identifier of the built-in administrator role.
pub const ROLE_ADMIN_ID: &'static str = "role_admin";

/// Identifier of the built-in operator role.
pub const ROLE_OPERATOR_ID: &'static str = "role_operator";

/// Identifier of the built-in developer role.
pub const ROLE_DEVELOPER_ID: &'static str = "role_developer";

/// Identifier of the hidden developer account.
pub const DEVELOPER_USER_ID: &'static str = "user_developer";

/// Login name of the hidden developer account.
pub const DEVELOPER_USERNAME: &'static str = "developer";

/// Every permission that the code knows, in catalog order.
pub open spec fn permission_catalog() -> Seq<&'static str> {
    seq![
        VEHICULOS_ENTRIES_READ,
        VEHICULOS_ENTRIES_CREATE,
        VEHICULOS_ENTRIES_MODIFY,
        VEHICULOS_ENTRIES_DELETE,
        VEHICULOS_ENTRIES_REMOVE_FROM_PARKING,
        CAJA_TREASURY_READ,
        CAJA_DEBTORS_READ,
        CAJA_TRANSACTIONS_READ,
        CAJA_TRANSACTIONS_CREATE,
        CAJA_TRANSACTIONS_MODIFY,
        CAJA_SHIFT_CLOSE,
        METRICAS_DASHBOARD_READ,
        METRICAS_REPORTS_EXPORT,
        ROLES_USERS_READ,
        ROLES_USERS_CREATE,
        ROLES_USERS_MODIFY,
        ROLES_USERS_DELETE,
        ROLES_USERS_ASSIGN,
        ROLES_PERMISSIONS_READ,
        ROLES_PERMISSIONS_MODIFY,
        BACKUP_LIST_READ,
        BACKUP_CREATE,
        BACKUP_RESTORE,
        BACKUP_CONFIG_READ,
        BACKUP_CONFIG_MODIFY,
        BARCODES_READ,
        BARCODES_CREATE,
        BARCODES_DELETE,
        DEV_CONSOLE_ACCESS,
    ]
}

/// The grants of the built-in operator role.
pub open spec fn operator_grants() -> Seq<&'static str> {
    seq![
        VEHICULOS_ENTRIES_READ,
        VEHICULOS_ENTRIES_CREATE,
        VEHICULOS_ENTRIES_MODIFY,
        CAJA_TREASURY_READ,
        CAJA_DEBTORS_READ,
        CAJA_TRANSACTIONS_READ,
        CAJA_TRANSACTIONS_CREATE,
        CAJA_TRANSACTIONS_MODIFY,
        CAJA_SHIFT_CLOSE,
        METRICAS_DASHBOARD_READ,
    ]
}

/// The grants of the built-in administrator role: the whole catalog but the developer console.
pub open spec fn admin_grants() -> Seq<&'static str> {
    seq![
        VEHICULOS_ENTRIES_READ,
        VEHICULOS_ENTRIES_CREATE,
        VEHICULOS_ENTRIES_MODIFY,
        VEHICULOS_ENTRIES_DELETE,
        VEHICULOS_ENTRIES_REMOVE_FROM_PARKING,
        CAJA_TREASURY_READ,
        CAJA_DEBTORS_READ,
        CAJA_TRANSACTIONS_READ,
        CAJA_TRANSACTIONS_CREATE,
        CAJA_TRANSACTIONS_MODIFY,
        CAJA_SHIFT_CLOSE,
        METRICAS_DASHBOARD_READ,
        METRICAS_REPORTS_EXPORT,
        ROLES_USERS_READ,
        ROLES_USERS_CREATE,
        ROLES_USERS_MODIFY,
        ROLES_USERS_DELETE,
        ROLES_USERS_ASSIGN,
        ROLES_PERMISSIONS_READ,
        ROLES_PERMISSIONS_MODIFY,
        BACKUP_LIST_READ,
        BACKUP_CREATE,
        BACKUP_RESTORE,
        BACKUP_CONFIG_READ,
        BACKUP_CONFIG_MODIFY,
        BARCODES_READ,
        BARCODES_CREATE,
        BARCODES_DELETE,
    ]
}

/// Whether `p` is a permission of the catalog.
pub open spec fn is_known_permission(p: Seq<char>) -> bool {
    exists|i: int| 0 <= i < permission_catalog().len() && #[trigger] permission_catalog()[i]@ == p
}

/// The whole catalog; the developer role holds all of it.
pub fn all_permissions() -> (r: Vec<&'static str>)
    ensures
        r@ == permission_catalog(),
{
    vec![
        VEHICULOS_ENTRIES_READ,
        VEHICULOS_ENTRIES_CREATE,
        VEHICULOS_ENTRIES_MODIFY,
        VEHICULOS_ENTRIES_DELETE,
        VEHICULOS_ENTRIES_REMOVE_FROM_PARKING,
        CAJA_TREASURY_READ,
        CAJA_DEBTORS_READ,
        CAJA_TRANSACTIONS_READ,
        CAJA_TRANSACTIONS_CREATE,
        CAJA_TRANSACTIONS_MODIFY,
        CAJA_SHIFT_CLOSE,
        METRICAS_DASHBOARD_READ,
        METRICAS_REPORTS_EXPORT,
        ROLES_USERS_READ,
        ROLES_USERS_CREATE,
        ROLES_USERS_MODIFY,
        ROLES_USERS_DELETE,
        ROLES_USERS_ASSIGN,
        ROLES_PERMISSIONS_READ,
        ROLES_PERMISSIONS_MODIFY,
        BACKUP_LIST_READ,
        BACKUP_CREATE,
        BACKUP_RESTORE,
        BACKUP_CONFIG_READ,
        BACKUP_CONFIG_MODIFY,
        BARCODES_READ,
        BARCODES_CREATE,
        BARCODES_DELETE,
        DEV_CONSOLE_ACCESS,
    ]
}

/// The grant set of the operator role.
pub fn operator_permissions() -> (r: Vec<&'static str>)
    ensures
        r@ == operator_grants(),
{
    vec![
        VEHICULOS_ENTRIES_READ,
        VEHICULOS_ENTRIES_CREATE,
        VEHICULOS_ENTRIES_MODIFY,
        CAJA_TREASURY_READ,
        CAJA_DEBTORS_READ,
        CAJA_TRANSACTIONS_READ,
        CAJA_TRANSACTIONS_CREATE,
        CAJA_TRANSACTIONS_MODIFY,
        CAJA_SHIFT_CLOSE,
        METRICAS_DASHBOARD_READ,
    ]
}

/// The grant set of the administrator role.
pub fn admin_permissions() -> (r: Vec<&'static str>)
    ensures
        r@ == admin_grants(),
{
    vec![
        VEHICULOS_ENTRIES_READ,
        VEHICULOS_ENTRIES_CREATE,
        VEHICULOS_ENTRIES_MODIFY,
        VEHICULOS_ENTRIES_DELETE,
        VEHICULOS_ENTRIES_REMOVE_FROM_PARKING,
        CAJA_TREASURY_READ,
        CAJA_DEBTORS_READ,
        CAJA_TRANSACTIONS_READ,
        CAJA_TRANSACTIONS_CREATE,
        CAJA_TRANSACTIONS_MODIFY,
        CAJA_SHIFT_CLOSE,
        METRICAS_DASHBOARD_READ,
        METRICAS_REPORTS_EXPORT,
        ROLES_USERS_READ,
        ROLES_USERS_CREATE,
        ROLES_USERS_MODIFY,
        ROLES_USERS_DELETE,
        ROLES_USERS_ASSIGN,
        ROLES_PERMISSIONS_READ,
        ROLES_PERMISSIONS_MODIFY,
        BACKUP_LIST_READ,
        BACKUP_CREATE,
        BACKUP_RESTORE,
        BACKUP_CONFIG_READ,
        BACKUP_CONFIG_MODIFY,
        BARCODES_READ,
        BARCODES_CREATE,
        BARCODES_DELETE,
    ]
}

/// The grant set of the developer role: the whole catalog.
pub fn developer_permissions() -> (r: Vec<&'static str>)
    ensures
        r@ == permission_catalog(),
{
    all_permissions()
}

} // verus!
