//! The facility's state and its operations: each checks the caller's
//! permission first, and either applies all of its effect or, on any error,
//! none of it.
use vstd::prelude::*;

use crate::access::{AccessError, AppState};
use crate::barcodes::{code_ok, code_registered, create_barcode, ensure_barcode_exists_for_ticket, Barcode, BarcodeError};
use crate::ids::{generate_id, PREFIX_BARCODE, PREFIX_CUSTOM_TARIFF, PREFIX_SHIFT_CLOSURE, PREFIX_TRANSACTION, PREFIX_VEHICLE};
use crate::permissions::{
    BARCODES_CREATE, CAJA_SHIFT_CLOSE, CAJA_TRANSACTIONS_CREATE, CAJA_TRANSACTIONS_MODIFY, CAJA_TREASURY_READ,
    VEHICULOS_ENTRIES_CREATE, VEHICULOS_ENTRIES_REMOVE_FROM_PARKING,
};
use crate::tariffs::{
    create_custom_tariff, default_rate_spec, resolve_default_rate, tariffs_unique, update_custom_tariff,
    CreateCustomTariffArgs, CustomTariff, TariffError, UpdateCustomTariffArgs,
};
use crate::text::{copy_opt_string, same_text, trim_of, trim_text, upper_of};
use crate::treasury::{
    close_shift, get_treasury, lower_method_spec, parse_payment_method, PaymentMethod, ShiftClosure, Transaction,
    TreasuryData, DAY_MS,
};
use crate::vehicles::{
    billed_hours, billed_hours_spec, carries_plate, check_entry, debt_of, normalize_plate_for_index, plate_debt,
    settle_payment, settle_spec, ticket_active, vehicle_type_has_plate, EntryError, Vehicle, VehicleStatus,
    VehicleType,
};

verus! {

/// Why an operation was turned down.
#[derive(Debug, Clone, Copy, PartialEq, Eq, Structural)]
pub enum ParkingError {
    /// The caller lacks the permission the operation requires.
    Access(AccessError),
    /// An entry was turned down.
    Entry(EntryError),
    /// No active session matches.
    NotFound,
    /// An amount does not fit its type.
    AmountOverflow,
    /// Neither a session id nor a ticket code was given.
    MissingIdentifier,
    /// Both a session id and a ticket code were given.
    BothIdentifiers,
    /// A tariff change was turned down.
    Tariff(TariffError),
    /// A barcode was turned down.
    Barcode(BarcodeError),
}

/// Everything the facility stores.
#[derive(Debug)]
pub struct ParkingLot {
    pub vehicles: Vec<Vehicle>,
    pub transactions: Vec<Transaction>,
    pub tariffs: Vec<CustomTariff>,
    pub barcodes: Vec<Barcode>,
    pub closures: Vec<ShiftClosure>,
}

/// Whether two sessions may not both be active: they share a ticket code, or
/// a non-empty plate.
pub open spec fn clash(a: Vehicle, b: Vehicle) -> bool {
    a.ticket_code@ == b.ticket_code@ || (a.plate@.len() > 0 && a.plate@ == b.plate@)
}

/// At most one active session per ticket code, and per non-empty plate.
#[verifier::opaque]
pub open spec fn sessions_wf(s: Seq<Vehicle>) -> bool {
    forall|i: int, j: int|
        0 <= i < s.len() && 0 <= j < s.len() && i != j && #[trigger] s[i].status == VehicleStatus::Active
            && #[trigger] s[j].status == VehicleStatus::Active ==> !clash(s[i], s[j])
}

/// The session that an accepted entry creates.
pub open spec fn entered(
    v: Vehicle,
    code: Seq<char>,
    plate: Seq<char>,
    vehicle_type: VehicleType,
    observations: Option<String>,
    debt: nat,
    now: u64,
) -> bool {
    &&& v.ticket_code@ == code
    &&& v.plate@ == plate
    &&& v.vehicle_type == vehicle_type
    &&& v.observations == observations
    &&& v.entry_time == now
    &&& v.exit_time is None
    &&& v.status == VehicleStatus::Active
    &&& v.total_amount is None
    &&& v.special_rate is None
    &&& v.debt == (if debt > 0 {
        Some(debt as u64)
    } else {
        None
    })
}

/// The rate at which a session is billed: its own special rate, else the
/// effective default rate of its kind.
pub open spec fn rate_for(v: Vehicle, tariffs: Seq<CustomTariff>) -> int {
    match v.special_rate {
        Some(r) => r as int,
        None => default_rate_spec(tariffs, v.vehicle_type) as int,
    }
}

/// The cost of a stay by time: the billed hours at the session's rate.
#[verifier::opaque]
pub open spec fn time_cost(v: Vehicle, tariffs: Seq<CustomTariff>, now: u64) -> int {
    billed_hours_spec(v.entry_time as int, now as int) * rate_for(v, tariffs)
}

/// The parking cost of a session leaving at `now`: the caller's override
/// when given, else the billed hours at the session's rate.
pub open spec fn exit_cost(v: Vehicle, tariffs: Seq<CustomTariff>, now: u64, override_cost: Option<u64>) -> int {
    match override_cost {
        Some(c) => c as int,
        None => time_cost(v, tariffs, now),
    }
}

/// Whether `i` is the first active session with this ticket code.
pub open spec fn first_active_ticket(s: Seq<Vehicle>, code: Seq<char>, i: int) -> bool {
    &&& 0 <= i < s.len()
    &&& s[i].ticket_code@ == code
    &&& s[i].status == VehicleStatus::Active
    &&& forall|k: int| 0 <= k < i ==> !(#[trigger] s[k].ticket_code@ == code && s[k].status == VehicleStatus::Active)
}

/// Whether `i` is the first active session with this id.
pub open spec fn first_active_id(s: Seq<Vehicle>, id: Seq<char>, i: int) -> bool {
    &&& 0 <= i < s.len()
    &&& s[i].id@ == id
    &&& s[i].status == VehicleStatus::Active
    &&& forall|k: int| 0 <= k < i ==> !(#[trigger] s[k].id@ == id && s[k].status == VehicleStatus::Active)
}

/// Whether a session with this id is active.
pub open spec fn id_active(s: Seq<Vehicle>, id: Seq<char>) -> bool {
    exists|i: int| 0 <= i < s.len() && #[trigger] s[i].id@ == id && s[i].status == VehicleStatus::Active
}

/// A session with its debt cleared.
pub open spec fn without_debt(v: Vehicle) -> Vehicle {
    Vehicle {
        id: v.id,
        ticket_code: v.ticket_code,
        plate: v.plate,
        vehicle_type: v.vehicle_type,
        observations: v.observations,
        entry_time: v.entry_time,
        exit_time: v.exit_time,
        status: v.status,
        total_amount: v.total_amount,
        debt: None,
        special_rate: v.special_rate,
    }
}

/// A session once it has exited at `now`, charged `charged` and left owing
/// `remaining`.
pub open spec fn exited(v: Vehicle, now: u64, charged: int, remaining: int) -> Vehicle {
    Vehicle {
        id: v.id,
        ticket_code: v.ticket_code,
        plate: v.plate,
        vehicle_type: v.vehicle_type,
        observations: v.observations,
        entry_time: v.entry_time,
        exit_time: Some(now),
        status: VehicleStatus::Completed,
        total_amount: Some(charged as u64),
        debt: if remaining > 0 {
            Some(remaining as u64)
        } else {
            None
        },
        special_rate: v.special_rate,
    }
}

/// A session once it has been removed at `now`, without charge.
pub open spec fn removed(v: Vehicle, now: u64) -> Vehicle {
    Vehicle {
        id: v.id,
        ticket_code: v.ticket_code,
        plate: v.plate,
        vehicle_type: v.vehicle_type,
        observations: v.observations,
        entry_time: v.entry_time,
        exit_time: Some(now),
        status: VehicleStatus::Removed,
        total_amount: None,
        debt: None,
        special_rate: v.special_rate,
    }
}

/// What an exit that settles everything does to another session: one of
/// the same plate owing something owes nothing after.
pub open spec fn after_full_payment(other: Vehicle, plate: Seq<char>) -> Vehicle {
    if other.plate@ == plate && debt_of(other) > 0 {
        without_debt(other)
    } else {
        other
    }
}

/// What an accepted exit did: the session at `i` is the first active one
/// with the ticket code; it is closed with the settlement of its total due;
/// every other session is kept, but for the debts of its plate, cleared when
/// nothing remains owed; one transaction records the amount charged.
pub open spec fn exit_applied(
    before: ParkingLot,
    after: ParkingLot,
    v: Vehicle,
    i: int,
    code: Seq<char>,
    partial_payment: Option<u64>,
    payment_method: Option<&str>,
    custom_parking_cost: Option<u64>,
    now: u64,
) -> bool {
    let old_v = before.vehicles@[i];
    let due = exit_cost(old_v, before.tariffs@, now, custom_parking_cost) + debt_of(old_v);
    let charged = settle_spec(due, partial_payment).0;
    let remaining = settle_spec(due, partial_payment).1;
    &&& first_active_ticket(before.vehicles@, code, i)
    &&& due <= u64::MAX
    &&& v == exited(old_v, now, charged, remaining)
    &&& after.vehicles@.len() == before.vehicles@.len()
    &&& after.vehicles@[i] == v
    &&& forall|k: int|
        0 <= k < before.vehicles@.len() && k != i ==> #[trigger] after.vehicles@[k] == if remaining == 0
            && old_v.plate@.len() > 0 {
            after_full_payment(before.vehicles@[k], old_v.plate@)
        } else {
            before.vehicles@[k]
        }
    &&& after.transactions@.len() == before.transactions@.len() + 1
    &&& after.transactions@.drop_last() == before.transactions@
    &&& after.transactions@.last().vehicle_id == old_v.id
    &&& after.transactions@.last().amount == charged
    &&& after.transactions@.last().method == lower_method_spec(payment_method)
    &&& after.transactions@.last().created_at == now
    &&& after.tariffs == before.tariffs
    &&& after.barcodes == before.barcodes
    &&& after.closures == before.closures
}

/// Sessions keep their ticket, plate and kind, and none becomes active.
pub open spec fn no_revival(before: Seq<Vehicle>, after: Seq<Vehicle>) -> bool {
    &&& before.len() == after.len()
    &&& forall|k: int|
        0 <= k < before.len() ==> (#[trigger] after[k]).ticket_code@ == before[k].ticket_code@ && after[k].plate@
            == before[k].plate@ && after[k].vehicle_type == before[k].vehicle_type && (after[k].status
            == VehicleStatus::Active ==> before[k].status == VehicleStatus::Active)
}

/// There is one first active session with a ticket code.
proof fn lemma_first_active_ticket_unique(s: Seq<Vehicle>, code: Seq<char>, i: int, j: int)
    requires
        first_active_ticket(s, code, i),
        first_active_ticket(s, code, j),
    ensures
        i == j,
{
    if i < j {
        assert(!(s[i].ticket_code@ == code && s[i].status == VehicleStatus::Active));
    } else if j < i {
        assert(!(s[j].ticket_code@ == code && s[j].status == VehicleStatus::Active));
    }
}

/// There is one first active session with an id.
proof fn lemma_first_active_id_unique(s: Seq<Vehicle>, id: Seq<char>, i: int, j: int)
    requires
        first_active_id(s, id, i),
        first_active_id(s, id, j),
    ensures
        i == j,
{
    if i < j {
        assert(!(s[i].id@ == id && s[i].status == VehicleStatus::Active));
    } else if j < i {
        assert(!(s[j].id@ == id && s[j].status == VehicleStatus::Active));
    }
}

/// Closing or clearing sessions keeps the invariant.
proof fn lemma_no_revival_keeps_wf(before: Seq<Vehicle>, after: Seq<Vehicle>)
    requires
        sessions_wf(before),
        no_revival(before, after),
    ensures
        sessions_wf(after),
{
    reveal(sessions_wf);
    assert forall|i: int, j: int|
        0 <= i < after.len() && 0 <= j < after.len() && i != j && #[trigger] after[i].status == VehicleStatus::Active
            && #[trigger] after[j].status == VehicleStatus::Active implies !clash(after[i], after[j]) by {
        assert(before[i].status == VehicleStatus::Active);
        assert(before[j].status == VehicleStatus::Active);
        assert(!clash(before[i], before[j]));
    }
}

/// Position of the first active session with this ticket code.
fn find_active_ticket(s: &Vec<Vehicle>, code: &str) -> (r: Option<usize>)
    ensures
        match r {
            Some(i) => first_active_ticket(s@, code@, i as int),
            None => !ticket_active(s@, code@),
        },
{
    let mut i: usize = 0;
    while i < s.len()
        invariant
            i <= s@.len(),
            forall|k: int|
                0 <= k < i ==> !(#[trigger] s@[k].ticket_code@ == code@ && s@[k].status == VehicleStatus::Active),
        decreases s@.len() - i,
    {
        if s[i].status == VehicleStatus::Active && same_text(s[i].ticket_code.as_str(), code) {
            return Some(i);
        }
        i = i + 1;
    }
    None
}

/// Position of the first active session with this id.
fn find_active_id(s: &Vec<Vehicle>, id: &str) -> (r: Option<usize>)
    ensures
        match r {
            Some(i) => first_active_id(s@, id@, i as int),
            None => !id_active(s@, id@),
        },
{
    let mut i: usize = 0;
    while i < s.len()
        invariant
            i <= s@.len(),
            forall|k: int| 0 <= k < i ==> !(#[trigger] s@[k].id@ == id@ && s@[k].status == VehicleStatus::Active),
        decreases s@.len() - i,
    {
        if s[i].status == VehicleStatus::Active && same_text(s[i].id.as_str(), id) {
            return Some(i);
        }
        i = i + 1;
    }
    None
}

/// The parking cost of a session leaving at `now`; `None` when it does not
/// fit an amount.
fn cost_of_exit(v: &Vehicle, tariffs: &Vec<CustomTariff>, now: u64, override_cost: Option<u64>) -> (r: Option<u64>)
    ensures
        r is None <==> exit_cost(*v, tariffs@, now, override_cost) > u64::MAX,
        r matches Some(c) ==> c == exit_cost(*v, tariffs@, now, override_cost),
{
    match override_cost {
        Some(c) => Some(c),
        None => {
            reveal(time_cost);
            let hours = billed_hours(v.entry_time, now);
            let rate = match v.special_rate {
                Some(r) => r,
                None => resolve_default_rate(tariffs, v.vehicle_type),
            };
            if rate != 0 && hours > u64::MAX / rate {
                proof {
                    assert(hours * rate > u64::MAX) by (nonlinear_arith)
                        requires
                            rate > 0,
                            hours > u64::MAX / rate,
                    ;
                }
                None
            } else {
                proof {
                    assert(hours * rate <= u64::MAX) by (nonlinear_arith)
                        requires
                            rate == 0 || hours <= u64::MAX / rate,
                    ;
                }
                Some(hours * rate)
            }
        },
    }
}

/// Clears the debt of every session of `plate` but the one at `skip`.
fn clear_plate_debts(vehicles: &mut Vec<Vehicle>, skip: usize, plate: &str)
    requires
        skip < old(vehicles)@.len(),
    ensures
        final(vehicles)@.len() == old(vehicles)@.len(),
        final(vehicles)@[skip as int] == old(vehicles)@[skip as int],
        forall|j: int|
            0 <= j < old(vehicles)@.len() && j != skip ==> #[trigger] final(vehicles)@[j] == after_full_payment(
                old(vehicles)@[j],
                plate@,
            ),
{
    let ghost before = vehicles@;
    let n = vehicles.len();
    let mut k: usize = 0;
    while k < n
        invariant
            n == vehicles@.len(),
            n == before.len(),
            k <= n,
            (skip as int) < n,
            forall|j: int| 0 <= j < k && j != skip ==> #[trigger] vehicles@[j] == after_full_payment(before[j], plate@),
            forall|j: int| (k <= j < n || j == skip) ==> #[trigger] vehicles@[j] == before[j],
        decreases n - k,
    {
        if k != skip {
            let owes = match vehicles[k].debt {
                Some(d) => d > 0,
                None => false,
            };
            if owes && same_text(vehicles[k].plate.as_str(), plate) {
                let mut w = vehicles[k].snapshot();
                w.debt = None;
                vehicles.set(k, w);
            }
        }
        k = k + 1;
    }
}

/// The record of a session once it has exited.
fn exit_record(v: &Vehicle, now: u64, charged: u64, remaining: u64) -> (r: Vehicle)
    ensures
        r == exited(*v, now, charged as int, remaining as int),
{
    Vehicle {
        id: v.id.clone(),
        ticket_code: v.ticket_code.clone(),
        plate: v.plate.clone(),
        vehicle_type: v.vehicle_type,
        observations: copy_opt_string(&v.observations),
        entry_time: v.entry_time,
        exit_time: Some(now),
        status: VehicleStatus::Completed,
        total_amount: Some(charged),
        debt: if remaining > 0 {
            Some(remaining)
        } else {
            None
        },
        special_rate: v.special_rate,
    }
}

/// Whether an optional identifier was given: present and not empty once
/// trimmed.
pub open spec fn given(s: Option<&str>) -> bool {
    s is Some && trim_of(s->0@).len() > 0
}

/// An optional identifier, trimmed, when it was given.
fn given_text(s: Option<&str>) -> (r: Option<&str>)
    ensures
        r is Some <==> given(s),
        r matches Some(t) ==> t@ == trim_of(s->0@),
{
    match s {
        Some(t) => {
            let tt = trim_text(t);
            if tt.unicode_len() > 0 {
                Some(tt)
            } else {
                None
            }
        },
        None => None,
    }
}

/// What the treasury of the day holding `now` is over these payments.
pub open spec fn treasury_of(txs: Seq<Transaction>, now: u64, o: Option<TreasuryData>) -> bool {
    let lo = crate::treasury::day_start_spec(now as int);
    let hi = lo + DAY_MS;
    match o {
        None => crate::treasury::window_total(txs, lo, hi) > u64::MAX,
        Some(d) => {
            &&& d.expected_cash == crate::treasury::window_total(txs, lo, hi)
            &&& d.total_transactions == crate::treasury::window_count(txs, lo, hi)
            &&& d.payment_breakdown.cash == crate::treasury::method_total(txs, PaymentMethod::Cash, lo, hi)
            &&& d.payment_breakdown.card == crate::treasury::method_total(txs, PaymentMethod::Card, lo, hi)
            &&& d.payment_breakdown.transfer == crate::treasury::method_total(txs, PaymentMethod::Transfer, lo, hi)
        },
    }
}

/// The key of a plate as given: trimmed and upper-cased, empty when blank.
pub open spec fn plate_key(plate: Seq<char>) -> Seq<char> {
    if trim_of(plate).len() == 0 {
        Seq::empty()
    } else {
        upper_of(trim_of(plate))
    }
}

/// The conflict that turns an entry down, checked in order, if any: the
/// ticket is in use; the plate is parked; the plate was recorded under
/// another kind (for a kind that carries a plate); the inherited debt does
/// not fit.
pub open spec fn check_entry_spec(s: Seq<Vehicle>, code: Seq<char>, key: Seq<char>, v: VehicleType) -> Option<
    EntryError,
> {
    if crate::vehicles::ticket_active(s, code) {
        Some(EntryError::TicketInUse)
    } else if key.len() > 0 && crate::vehicles::plate_active(s, key) {
        Some(EntryError::PlateAlreadyParked)
    } else if carries_plate(v) && key.len() > 0 && crate::vehicles::plate_type_conflict(s, key, v) {
        Some(EntryError::PlateTypeMismatch { registered_as: v })
    } else if key.len() > 0 && plate_debt(s, key) > u64::MAX {
        Some(EntryError::DebtOverflow)
    } else {
        None
    }
}

impl ParkingLot {
    /// An empty facility.
    pub fn new() -> (r: ParkingLot)
        ensures
            r.vehicles@.len() == 0,
            r.transactions@.len() == 0,
            r.tariffs@.len() == 0,
            r.barcodes@.len() == 0,
            r.closures@.len() == 0,
            r.wf(),
    {
        proof {
            reveal(sessions_wf);
        }
        ParkingLot {
            vehicles: Vec::new(),
            transactions: Vec::new(),
            tariffs: Vec::new(),
            barcodes: Vec::new(),
            closures: Vec::new(),
        }
    }

    /// The invariant that every operation keeps.
    pub open spec fn wf(&self) -> bool {
        sessions_wf(self.vehicles@)
    }

    /// Registers a vehicle's entry at `now`. The ticket code and the plate are
    /// trimmed, and the plate upper-cased. In order: the caller needs the
    /// entry-creation permission; the code must not be empty; a kind that
    /// carries a plate needs one; no active session may hold the code; for
    /// such a kind, no active session may hold the plate and no session of
    /// the plate may be of another kind. The new session is active and
    /// inherits the positive debts of every session of its plate. A ticket
    /// code in barcode format is registered when new.
    pub fn register_entry(
        &mut self,
        access: &AppState,
        plate: &str,
        vehicle_type: VehicleType,
        observations: Option<String>,
        ticket_code: &str,
        now: u64,
    ) -> (r: Result<Vehicle, ParkingError>)
        ensures
            !access.allows(VEHICULOS_ENTRIES_CREATE@) ==> r is Err && r->Err_0 is Access,
            access.allows(VEHICULOS_ENTRIES_CREATE@) && trim_of(ticket_code@).len() == 0 ==> r == Err::<
                Vehicle,
                ParkingError,
            >(ParkingError::Entry(EntryError::EmptyTicketCode)),
            access.allows(VEHICULOS_ENTRIES_CREATE@) && trim_of(ticket_code@).len() > 0 && carries_plate(
                vehicle_type,
            ) && trim_of(plate@).len() == 0 ==> r == Err::<Vehicle, ParkingError>(
                ParkingError::Entry(EntryError::PlateRequired),
            ),
            access.allows(VEHICULOS_ENTRIES_CREATE@) && trim_of(ticket_code@).len() > 0 && !(carries_plate(
                vehicle_type,
            ) && trim_of(plate@).len() == 0) ==> match check_entry_spec(
                old(self).vehicles@,
                trim_of(ticket_code@),
                plate_key(plate@),
                vehicle_type,
            ) {
                Some(e) => r is Err && (r->Err_0 == ParkingError::Entry(e) || (e is PlateTypeMismatch
                    && r->Err_0 is Entry && r->Err_0->Entry_0 is PlateTypeMismatch)),
                None => r is Ok,
            },
            r is Err ==> *final(self) == *old(self),
            old(self).wf() ==> final(self).wf(),
            r matches Ok(v) ==> {
                let key = if trim_of(plate@).len() == 0 {
                    Seq::<char>::empty()
                } else {
                    upper_of(trim_of(plate@))
                };
                &&& access.allows(VEHICULOS_ENTRIES_CREATE@)
                &&& final(self).vehicles@ == old(self).vehicles@.push(v)
                &&& entered(
                    v,
                    trim_of(ticket_code@),
                    key,
                    vehicle_type,
                    observations,
                    if key.len() > 0 {
                        plate_debt(old(self).vehicles@, key)
                    } else {
                        0
                    },
                    now,
                )
                &&& final(self).transactions == old(self).transactions
                &&& final(self).tariffs == old(self).tariffs
                &&& final(self).closures == old(self).closures
                &&& (code_ok(trim_of(ticket_code@)) && !code_registered(old(self).barcodes@, trim_of(ticket_code@)))
                    ==> final(self).barcodes@.drop_last() == old(self).barcodes@
                &&& !(code_ok(trim_of(ticket_code@)) && !code_registered(
                    old(self).barcodes@,
                    trim_of(ticket_code@),
                )) ==> final(self).barcodes@ == old(self).barcodes@
            },
    {
        if let Err(e) = access.check_permission(VEHICULOS_ENTRIES_CREATE) {
            return Err(ParkingError::Access(e));
        }
        let code = trim_text(ticket_code);
        if code.unicode_len() == 0 {
            return Err(ParkingError::Entry(EntryError::EmptyTicketCode));
        }
        let trimmed = trim_text(plate);
        if vehicle_type_has_plate(&vehicle_type) && trimmed.unicode_len() == 0 {
            return Err(ParkingError::Entry(EntryError::PlateRequired));
        }
        let key = normalize_plate_for_index(plate);
        proof {
            if trim_of(plate@).len() == 0 {
                assert(key@ =~= Seq::<char>::empty());
            }
        }
        let debt = match check_entry(&self.vehicles, code, key.as_str(), vehicle_type) {
            Ok(d) => d,
            Err(e) => return Err(ParkingError::Entry(e)),
        };
        let v = Vehicle {
            id: generate_id(PREFIX_VEHICLE),
            ticket_code: String::from_str(code),
            plate: key,
            vehicle_type,
            observations,
            entry_time: now,
            exit_time: None,
            status: VehicleStatus::Active,
            total_amount: None,
            debt: if debt > 0 {
                Some(debt)
            } else {
                None
            },
            special_rate: None,
        };
        let out = v.snapshot();
        let ghost before = self.vehicles@;
        self.vehicles.push(v);
        proof {
            let s = self.vehicles@;
            reveal(sessions_wf);
            if sessions_wf(before) {
                assert forall|i: int, j: int|
                    0 <= i < s.len() && 0 <= j < s.len() && i != j && #[trigger] s[i].status
                        == VehicleStatus::Active && #[trigger] s[j].status == VehicleStatus::Active implies !clash(
                    s[i],
                    s[j],
                ) by {
                    if i == before.len() {
                        assert(s[j] == before[j]);
                        lemma_no_clash_with_entry(before, j, out);
                    } else if j == before.len() {
                        assert(s[i] == before[i]);
                        lemma_no_clash_with_entry(before, i, out);
                    } else {
                        assert(s[i] == before[i] && s[j] == before[j]);
                    }
                }
            }
        }
        ensure_barcode_exists_for_ticket(&mut self.barcodes, code, generate_id(PREFIX_BARCODE), now);
        Ok(out)
    }

    /// Settles the exit of the active session with this ticket code
    /// (trimmed) at `now`. The caller needs the transaction-creation
    /// permission. The cost is the caller's override when given, else the
    /// hours billed at the session's rate; the total due adds the debt the
    /// session inherited. A partial payment below the total is charged as it
    /// is and the rest stays as debt; otherwise the total is charged and, when
    /// the plate is not empty, every session of the plate is cleared of debt.
    /// Exactly one payment transaction is recorded.
    pub fn process_exit(
        &mut self,
        access: &AppState,
        ticket_code: &str,
        partial_payment: Option<u64>,
        payment_method: Option<&str>,
        custom_parking_cost: Option<u64>,
        now: u64,
    ) -> (r: Result<Vehicle, ParkingError>)
        ensures
            !access.allows(CAJA_TRANSACTIONS_CREATE@) ==> r is Err && r->Err_0 is Access,
            access.allows(CAJA_TRANSACTIONS_CREATE@) ==> (r == Err::<Vehicle, ParkingError>(ParkingError::NotFound)
                <==> !ticket_active(old(self).vehicles@, trim_of(ticket_code@))),
            r is Err ==> *final(self) == *old(self),
            old(self).wf() ==> final(self).wf(),
            r == Err::<Vehicle, ParkingError>(ParkingError::AmountOverflow) ==> exists|i: int|
                first_active_ticket(old(self).vehicles@, trim_of(ticket_code@), i) && exit_cost(
                    old(self).vehicles@[i],
                    old(self).tariffs@,
                    now,
                    custom_parking_cost,
                ) + debt_of(old(self).vehicles@[i]) > u64::MAX,
            (access.allows(CAJA_TRANSACTIONS_CREATE@) && exists|i: int|
                #[trigger] first_active_ticket(old(self).vehicles@, trim_of(ticket_code@), i) && exit_cost(
                    old(self).vehicles@[i],
                    old(self).tariffs@,
                    now,
                    custom_parking_cost,
                ) + debt_of(old(self).vehicles@[i]) <= u64::MAX) ==> r is Ok,
            r matches Ok(v) ==> access.allows(CAJA_TRANSACTIONS_CREATE@) && exists|i: int|
                #[trigger] exit_applied(
                    *old(self),
                    *final(self),
                    v,
                    i,
                    trim_of(ticket_code@),
                    partial_payment,
                    payment_method,
                    custom_parking_cost,
                    now,
                ),
    {
        if let Err(e) = access.check_permission(CAJA_TRANSACTIONS_CREATE) {
            return Err(ParkingError::Access(e));
        }
        let code = trim_text(ticket_code);
        let i = match find_active_ticket(&self.vehicles, code) {
            Some(i) => i,
            None => return Err(ParkingError::NotFound),
        };
        let old_v = self.vehicles[i].snapshot();
        proof {
            assert forall|j: int| first_active_ticket(self.vehicles@, trim_of(ticket_code@), j) implies j == i by {
                lemma_first_active_ticket_unique(self.vehicles@, trim_of(ticket_code@), i as int, j);
            }
        }
        let cost = match cost_of_exit(&old_v, &self.tariffs, now, custom_parking_cost) {
            Some(c) => c,
            None => return Err(ParkingError::AmountOverflow),
        };
        let debt: u64 = match old_v.debt {
            Some(d) => d,
            None => 0,
        };
        let st = match settle_payment(cost, debt, partial_payment) {
            Some(st) => st,
            None => return Err(ParkingError::AmountOverflow),
        };
        let method = parse_payment_method(payment_method);
        let ghost before = self.vehicles@;
        let clear = st.remaining_debt == 0 && old_v.plate.as_str().unicode_len() > 0;
        if clear {
            clear_plate_debts(&mut self.vehicles, i, old_v.plate.as_str());
        }
        let updated = exit_record(&old_v, now, st.charged, st.remaining_debt);
        let out = updated.snapshot();
        self.vehicles.set(i, updated);
        let tx = Transaction {
            id: generate_id(PREFIX_TRANSACTION),
            vehicle_id: old_v.id.clone(),
            amount: st.charged,
            method,
            created_at: now,
        };
        self.transactions.push(tx);
        proof {
            let after = self.vehicles@;
            assert(self.transactions@.drop_last() =~= old(self).transactions@);
            assert forall|k: int| 0 <= k < before.len() implies (#[trigger] after[k]).ticket_code@
                == before[k].ticket_code@ && after[k].plate@ == before[k].plate@ && after[k].vehicle_type
                == before[k].vehicle_type && (after[k].status == VehicleStatus::Active ==> before[k].status
                == VehicleStatus::Active) by {
                if k != i {
                    assert(after[k] == if clear {
                        after_full_payment(before[k], old_v.plate@)
                    } else {
                        before[k]
                    });
                }
            }
            if sessions_wf(before) {
                lemma_no_revival_keeps_wf(before, after);
            }
            assert(first_active_ticket(before, trim_of(ticket_code@), i as int));
            assert(before[i as int] == old_v);
            assert(exit_applied(
                *old(self),
                *self,
                out,
                i as int,
                trim_of(ticket_code@),
                partial_payment,
                payment_method,
                custom_parking_cost,
                now,
            ));
        }
        Ok(out)
    }

    /// Takes the active session with the given id or ticket code (trimmed;
    /// exactly one of the two) off the lot at `now`, without charge: it is
    /// removed, owes nothing and records no amount. No transaction is made.
    pub fn remove_from_parking(
        &mut self,
        access: &AppState,
        vehicle_id: Option<&str>,
        ticket_code: Option<&str>,
        now: u64,
    ) -> (r: Result<Vehicle, ParkingError>)
        ensures
            !access.allows(VEHICULOS_ENTRIES_REMOVE_FROM_PARKING@) ==> r is Err && r->Err_0 is Access,
            access.allows(VEHICULOS_ENTRIES_REMOVE_FROM_PARKING@) && given(vehicle_id) && given(ticket_code) ==> r
                == Err::<Vehicle, ParkingError>(ParkingError::BothIdentifiers),
            access.allows(VEHICULOS_ENTRIES_REMOVE_FROM_PARKING@) && !given(vehicle_id) && !given(ticket_code) ==> r
                == Err::<Vehicle, ParkingError>(ParkingError::MissingIdentifier),
            access.allows(VEHICULOS_ENTRIES_REMOVE_FROM_PARKING@) && given(vehicle_id) && !given(ticket_code) ==> (r
                == Err::<Vehicle, ParkingError>(ParkingError::NotFound) <==> !id_active(
                old(self).vehicles@,
                trim_of(vehicle_id->0@),
            )),
            access.allows(VEHICULOS_ENTRIES_REMOVE_FROM_PARKING@) && !given(vehicle_id) && given(ticket_code) ==> (r
                == Err::<Vehicle, ParkingError>(ParkingError::NotFound) <==> !ticket_active(
                old(self).vehicles@,
                trim_of(ticket_code->0@),
            )),
            access.allows(VEHICULOS_ENTRIES_REMOVE_FROM_PARKING@) && given(vehicle_id) && !given(ticket_code) && id_active(
                old(self).vehicles@,
                trim_of(vehicle_id->0@),
            ) ==> r is Ok,
            access.allows(VEHICULOS_ENTRIES_REMOVE_FROM_PARKING@) && !given(vehicle_id) && given(ticket_code)
                && ticket_active(old(self).vehicles@, trim_of(ticket_code->0@)) ==> r is Ok,
            r is Err ==> *final(self) == *old(self),
            old(self).wf() ==> final(self).wf(),
            r matches Ok(v) ==> exists|i: int|
                0 <= i < old(self).vehicles@.len() && (if given(vehicle_id) {
                    first_active_id(old(self).vehicles@, trim_of(vehicle_id->0@), i)
                } else {
                    first_active_ticket(old(self).vehicles@, trim_of(ticket_code->0@), i)
                }) && v == removed(old(self).vehicles@[i], now) && #[trigger] final(self).vehicles@
                    == old(self).vehicles@.update(i, v),
            r is Ok ==> final(self).transactions == old(self).transactions && final(self).tariffs == old(
                self,
            ).tariffs && final(self).barcodes == old(self).barcodes && final(self).closures == old(self).closures,
    {
        if let Err(e) = access.check_permission(VEHICULOS_ENTRIES_REMOVE_FROM_PARKING) {
            return Err(ParkingError::Access(e));
        }
        let by_id = given_text(vehicle_id);
        let by_ticket = given_text(ticket_code);
        let i = match (by_id, by_ticket) {
            (Some(_), Some(_)) => return Err(ParkingError::BothIdentifiers),
            (None, None) => return Err(ParkingError::MissingIdentifier),
            (Some(id), None) => match find_active_id(&self.vehicles, id) {
                Some(i) => i,
                None => return Err(ParkingError::NotFound),
            },
            (None, Some(code)) => match find_active_ticket(&self.vehicles, code) {
                Some(i) => i,
                None => return Err(ParkingError::NotFound),
            },
        };
        let old_v = self.vehicles[i].snapshot();
        let updated = Vehicle {
            id: old_v.id.clone(),
            ticket_code: old_v.ticket_code.clone(),
            plate: old_v.plate.clone(),
            vehicle_type: old_v.vehicle_type,
            observations: copy_opt_string(&old_v.observations),
            entry_time: old_v.entry_time,
            exit_time: Some(now),
            status: VehicleStatus::Removed,
            total_amount: None,
            debt: None,
            special_rate: old_v.special_rate,
        };
        let out = updated.snapshot();
        let ghost before = self.vehicles@;
        self.vehicles.set(i, updated);
        proof {
            let after = self.vehicles@;
            assert forall|k: int| 0 <= k < before.len() implies (#[trigger] after[k]).ticket_code@
                == before[k].ticket_code@ && after[k].plate@ == before[k].plate@ && after[k].vehicle_type
                == before[k].vehicle_type && (after[k].status == VehicleStatus::Active ==> before[k].status
                == VehicleStatus::Active) by {
                if k != i {
                    assert(after[k] == before[k]);
                }
            }
            if sessions_wf(before) {
                lemma_no_revival_keeps_wf(before, after);
            }
        }
        Ok(out)
    }

    /// The active session holding a ticket code (trimmed), if any.
    pub fn find_by_ticket(&self, access: &AppState, ticket_code: &str) -> (r: Result<Option<Vehicle>, ParkingError>)
        ensures
            r is Err <==> !access.allows(crate::permissions::VEHICULOS_ENTRIES_READ@),
            r is Err ==> r->Err_0 is Access,
            r matches Ok(o) ==> (o is None <==> !ticket_active(self.vehicles@, trim_of(ticket_code@))),
            r matches Ok(Some(v)) ==> exists|i: int|
                first_active_ticket(self.vehicles@, trim_of(ticket_code@), i) && #[trigger] self.vehicles@[i] == v,
    {
        if let Err(e) = access.check_permission(crate::permissions::VEHICULOS_ENTRIES_READ) {
            return Err(ParkingError::Access(e));
        }
        match find_active_ticket(&self.vehicles, trim_text(ticket_code)) {
            Some(i) => Ok(Some(self.vehicles[i].snapshot())),
            None => Ok(None),
        }
    }

    /// The effective default rate of a kind.
    pub fn default_rate(&self, vehicle_type: VehicleType) -> (r: u64)
        ensures
            r == default_rate_spec(self.tariffs@, vehicle_type),
    {
        resolve_default_rate(&self.tariffs, vehicle_type)
    }

    /// The treasury of the current UTC day; needs the treasury-read
    /// permission. Nothing changes.
    pub fn treasury(&self, access: &AppState, now: u64) -> (r: Result<TreasuryData, ParkingError>)
        requires
            now <= u64::MAX - DAY_MS,
        ensures
            r is Err && r->Err_0 is Access <==> !access.allows(CAJA_TREASURY_READ@),
            r matches Ok(d) ==> d.payment_breakdown.cash + d.payment_breakdown.card + d.payment_breakdown.transfer
                == d.expected_cash && d.expected_cash == d.actual_cash && d.discrepancy == 0,
            r matches Ok(d) ==> exists|o: Option<TreasuryData>| o == Some(d) && #[trigger] treasury_of(self.transactions@, now, o),
            r == Err::<TreasuryData, ParkingError>(ParkingError::AmountOverflow) ==> treasury_of(self.transactions@, now, None),
            access.allows(CAJA_TREASURY_READ@) && crate::treasury::window_total(
                self.transactions@,
                crate::treasury::day_start_spec(now as int),
                crate::treasury::day_start_spec(now as int) + DAY_MS,
            ) <= u64::MAX ==> r is Ok,
    {
        if let Err(e) = access.check_permission(CAJA_TREASURY_READ) {
            return Err(ParkingError::Access(e));
        }
        let t = get_treasury(&self.transactions, now);
        proof {
            assert(treasury_of(self.transactions@, now, t));
        }
        match t {
            Some(d) => Ok(d),
            None => Err(ParkingError::AmountOverflow),
        }
    }

    /// Closes the open shift at `now`; needs the shift-close permission.
    pub fn close_shift(&mut self, access: &AppState, arqueo_cash: Option<u64>, notes: Option<String>, now: u64) -> (r:
        Result<ShiftClosure, ParkingError>)
        requires
            now < u64::MAX,
        ensures
            !access.allows(CAJA_SHIFT_CLOSE@) ==> r is Err && r->Err_0 is Access,
            r is Err ==> *final(self) == *old(self),
            r matches Ok(c) ==> final(self).closures@ == old(self).closures@.push(c) && final(self).vehicles
                == old(self).vehicles && final(self).transactions == old(self).transactions,
            r matches Ok(c) ==> c.notes == notes && crate::treasury::closure_figures(
                old(self).transactions@,
                old(self).closures@,
                now,
                arqueo_cash,
                c,
            ),
            access.allows(CAJA_SHIFT_CLOSE@) && crate::treasury::window_total(
                old(self).transactions@,
                crate::treasury::shift_start_spec(old(self).closures@, now as int) + 1,
                now + 1,
            ) <= u64::MAX ==> r is Ok,
            old(self).wf() ==> final(self).wf(),
    {
        if let Err(e) = access.check_permission(CAJA_SHIFT_CLOSE) {
            return Err(ParkingError::Access(e));
        }
        match close_shift(&mut self.closures, &self.transactions, arqueo_cash, notes, generate_id(PREFIX_SHIFT_CLOSURE), now) {
            Some(c) => Ok(c),
            None => Err(ParkingError::AmountOverflow),
        }
    }

    /// Adds a custom tariff; needs the transaction-creation permission. A
    /// second tariff for the same kind and key is turned down.
    pub fn create_custom_tariff(&mut self, access: &AppState, args: CreateCustomTariffArgs, now: u64) -> (r: Result<
        CustomTariff,
        ParkingError,
    >)
        ensures
            !access.allows(CAJA_TRANSACTIONS_CREATE@) ==> r is Err && r->Err_0 is Access,
            r is Err ==> *final(self) == *old(self),
            r matches Err(ParkingError::Tariff(e)) ==> e != TariffError::NotFound,
            r matches Ok(t) ==> final(self).tariffs@ == old(self).tariffs@.push(t) && final(self).vehicles == old(
                self,
            ).vehicles && t.created_at == now && crate::tariffs::created_fields(args, t),
            access.allows(CAJA_TRANSACTIONS_CREATE@) ==> match crate::tariffs::create_custom_tariff_outcome(old(self).tariffs@, args) {
                Some(e) => r == Err::<CustomTariff, ParkingError>(ParkingError::Tariff(e)),
                None => r is Ok,
            },
            tariffs_unique(old(self).tariffs@) ==> tariffs_unique(final(self).tariffs@),
            old(self).wf() ==> final(self).wf(),
    {
        if let Err(e) = access.check_permission(CAJA_TRANSACTIONS_CREATE) {
            return Err(ParkingError::Access(e));
        }
        match create_custom_tariff(&mut self.tariffs, args, generate_id(PREFIX_CUSTOM_TARIFF), now) {
            Ok(t) => Ok(t),
            Err(e) => Err(ParkingError::Tariff(e)),
        }
    }

    /// Changes a custom tariff; needs the transaction-modify permission.
    pub fn update_custom_tariff(&mut self, access: &AppState, args: UpdateCustomTariffArgs) -> (r: Result<
        CustomTariff,
        ParkingError,
    >)
        ensures
            !access.allows(CAJA_TRANSACTIONS_MODIFY@) ==> r is Err && r->Err_0 is Access,
            access.allows(CAJA_TRANSACTIONS_MODIFY@) ==> match crate::tariffs::update_outcome(old(self).tariffs@, args) {
                Some(e) => r == Err::<CustomTariff, ParkingError>(ParkingError::Tariff(e)),
                None => r is Ok,
            },
            r is Err ==> *final(self) == *old(self),
            r matches Ok(t) ==> crate::tariffs::update_applied(old(self).tariffs@, final(self).tariffs@, args, t)
                && final(self).vehicles == old(self).vehicles,
            tariffs_unique(old(self).tariffs@) ==> tariffs_unique(final(self).tariffs@),
            old(self).wf() ==> final(self).wf(),
    {
        if let Err(e) = access.check_permission(CAJA_TRANSACTIONS_MODIFY) {
            return Err(ParkingError::Access(e));
        }
        match update_custom_tariff(&mut self.tariffs, args) {
            Ok(t) => Ok(t),
            Err(e) => Err(ParkingError::Tariff(e)),
        }
    }

    /// Registers a scan code; needs the barcode-creation permission.
    pub fn create_barcode(&mut self, access: &AppState, code: &str, label: Option<String>, now: u64) -> (r: Result<
        Barcode,
        ParkingError,
    >)
        ensures
            !access.allows(BARCODES_CREATE@) ==> r is Err && r->Err_0 is Access,
            r is Err ==> *final(self) == *old(self),
            access.allows(BARCODES_CREATE@) ==> (r is Ok <==> code_ok(code@) && !code_registered(
                old(self).barcodes@,
                trim_of(code@),
            )),
            r matches Ok(b) ==> final(self).barcodes@ == old(self).barcodes@.push(b) && b.code@ == trim_of(code@),
            old(self).wf() ==> final(self).wf(),
    {
        if let Err(e) = access.check_permission(BARCODES_CREATE) {
            return Err(ParkingError::Access(e));
        }
        match create_barcode(&mut self.barcodes, code, label, generate_id(PREFIX_BARCODE), now) {
            Ok(b) => Ok(b),
            Err(e) => Err(ParkingError::Barcode(e)),
        }
    }
}

/// In a well-formed facility, two active sessions never share a non-empty
/// plate, nor a ticket code.
pub proof fn lemma_one_active_per_plate(lot: ParkingLot, i: int, j: int)
    requires
        lot.wf(),
        0 <= i < lot.vehicles@.len(),
        0 <= j < lot.vehicles@.len(),
        lot.vehicles@[i].status == VehicleStatus::Active,
        lot.vehicles@[j].status == VehicleStatus::Active,
        lot.vehicles@[i].ticket_code@ == lot.vehicles@[j].ticket_code@ || (lot.vehicles@[i].plate@.len() > 0
            && lot.vehicles@[i].plate@ == lot.vehicles@[j].plate@),
    ensures
        i == j,
{
    reveal(sessions_wf);
    if i != j {
        assert(!clash(lot.vehicles@[i], lot.vehicles@[j]));
    }
}

/// An exit that leaves nothing owed, on a session with a plate, leaves every
/// session of that plate owing nothing.
pub proof fn lemma_full_payment_clears_plate(
    before: ParkingLot,
    after: ParkingLot,
    v: Vehicle,
    i: int,
    code: Seq<char>,
    partial_payment: Option<u64>,
    payment_method: Option<&str>,
    custom_parking_cost: Option<u64>,
    now: u64,
)
    requires
        exit_applied(before, after, v, i, code, partial_payment, payment_method, custom_parking_cost, now),
        debt_of(v) == 0,
        v.plate@.len() > 0,
    ensures
        forall|k: int|
            0 <= k < after.vehicles@.len() && #[trigger] after.vehicles@[k].plate@ == v.plate@ ==> debt_of(
                after.vehicles@[k],
            ) == 0,
{
    let old_v = before.vehicles@[i];
    let due = exit_cost(old_v, before.tariffs@, now, custom_parking_cost) + debt_of(old_v);
    assert forall|k: int|
        0 <= k < after.vehicles@.len() && #[trigger] after.vehicles@[k].plate@ == v.plate@ implies debt_of(
        after.vehicles@[k],
    ) == 0 by {
        if k != i {
            assert(settle_spec(due, partial_payment).1 == 0);
            assert(after.vehicles@[k] == after_full_payment(before.vehicles@[k], old_v.plate@));
        }
    }
}

/// An entry accepted against the sessions clashes with none that is active.
proof fn lemma_no_clash_with_entry(before: Seq<Vehicle>, j: int, v: Vehicle)
    requires
        0 <= j < before.len(),
        before[j].status == VehicleStatus::Active,
        !crate::vehicles::ticket_active(before, v.ticket_code@),
        !(v.plate@.len() > 0 && crate::vehicles::plate_active(before, v.plate@)),
    ensures
        !clash(before[j], v),
        !clash(v, before[j]),
{
    if before[j].ticket_code@ == v.ticket_code@ {
        assert(crate::vehicles::ticket_active(before, v.ticket_code@));
    }
    if v.plate@.len() > 0 && before[j].plate@ == v.plate@ {
        assert(crate::vehicles::plate_active(before, v.plate@));
    }
}

} // verus!
