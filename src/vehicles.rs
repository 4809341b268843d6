//! Parking sessions: vehicle kinds and states, plate normalisation, and the
//! pure rules of entry (which conflicts reject it, what debt it inherits) and
//! of exit (billed hours, cost, settlement of a payment).
use vstd::prelude::*;

use crate::text::{copy_opt_string, same_text, to_upper_text, trim_text, trim_of, upper_of};

verus! {

/// The kind of a parked vehicle.
#[derive(Debug, Clone, Copy, PartialEq, Eq, Structural)]
pub enum VehicleType {
    Car,
    Motorcycle,
    Truck,
    Bicycle,
}

/// The lifecycle state of a session: active until it exits (completed) or is
/// taken off the lot without charge (removed).
#[derive(Debug, Clone, Copy, PartialEq, Eq, Structural)]
pub enum VehicleStatus {
    Active,
    Completed,
    Removed,
}

/// One parking session. Times are milliseconds since the Unix epoch; amounts
/// are whole currency units. `plate` is held in its normalised form.
#[derive(Debug, Clone)]
pub struct Vehicle {
    pub id: String,
    pub ticket_code: String,
    pub plate: String,
    pub vehicle_type: VehicleType,
    pub observations: Option<String>,
    pub entry_time: u64,
    pub exit_time: Option<u64>,
    pub status: VehicleStatus,
    pub total_amount: Option<u64>,
    pub debt: Option<u64>,
    pub special_rate: Option<u64>,
}

impl Vehicle {
    /// A copy of this record.
    pub fn snapshot(&self) -> (r: Vehicle)
        ensures
            r == *self,
    {
        Vehicle {
            id: self.id.clone(),
            ticket_code: self.ticket_code.clone(),
            plate: self.plate.clone(),
            vehicle_type: self.vehicle_type,
            observations: copy_opt_string(&self.observations),
            entry_time: self.entry_time,
            exit_time: self.exit_time,
            status: self.status,
            total_amount: self.total_amount,
            debt: self.debt,
            special_rate: self.special_rate,
        }
    }
}

/// The stored name of a vehicle kind.
pub open spec fn kind_name(v: VehicleType) -> Seq<char> {
    match v {
        VehicleType::Car => "car"@,
        VehicleType::Motorcycle => "motorcycle"@,
        VehicleType::Truck => "truck"@,
        VehicleType::Bicycle => "bicycle"@,
    }
}

/// The kind that a stored name denotes; an unknown name reads as a car.
pub open spec fn type_of_name(s: Seq<char>) -> VehicleType {
    if s == "motorcycle"@ {
        VehicleType::Motorcycle
    } else if s == "truck"@ {
        VehicleType::Truck
    } else if s == "bicycle"@ {
        VehicleType::Bicycle
    } else {
        VehicleType::Car
    }
}

/// The stored name of a session state.
pub open spec fn status_name(s: VehicleStatus) -> Seq<char> {
    match s {
        VehicleStatus::Active => "active"@,
        VehicleStatus::Completed => "completed"@,
        VehicleStatus::Removed => "removed"@,
    }
}

/// The state that a stored name denotes; an unknown name reads as active.
pub open spec fn status_of_name(s: Seq<char>) -> VehicleStatus {
    if s == "completed"@ {
        VehicleStatus::Completed
    } else if s == "removed"@ {
        VehicleStatus::Removed
    } else {
        VehicleStatus::Active
    }
}

/// Kinds that carry a plate: a plate denotes one vehicle of that kind.
pub open spec fn carries_plate(v: VehicleType) -> bool {
    v != VehicleType::Bicycle
}

/// The stored name of a vehicle kind.
pub fn vehicle_type_to_str(v: &VehicleType) -> (r: &'static str)
    ensures
        r@ == kind_name(*v),
{
    match v {
        VehicleType::Car => "car",
        VehicleType::Motorcycle => "motorcycle",
        VehicleType::Truck => "truck",
        VehicleType::Bicycle => "bicycle",
    }
}

/// Reads a stored vehicle kind; an unknown name reads as a car.
pub fn vehicle_type_from_str(s: &str) -> (r: VehicleType)
    ensures
        r == type_of_name(s@),
{
    if same_text(s, "motorcycle") {
        VehicleType::Motorcycle
    } else if same_text(s, "truck") {
        VehicleType::Truck
    } else if same_text(s, "bicycle") {
        VehicleType::Bicycle
    } else {
        VehicleType::Car
    }
}

/// The kind that exactly one of the four names denotes.
pub open spec fn kind_from_name(s: Seq<char>) -> Option<VehicleType> {
    if s == "car"@ {
        Some(VehicleType::Car)
    } else if s == "motorcycle"@ {
        Some(VehicleType::Motorcycle)
    } else if s == "truck"@ {
        Some(VehicleType::Truck)
    } else if s == "bicycle"@ {
        Some(VehicleType::Bicycle)
    } else {
        None
    }
}

/// Reads a vehicle kind given by a caller: exactly one of the four names, or
/// nothing.
pub fn parse_vehicle_type(s: &str) -> (r: Option<VehicleType>)
    ensures
        r == kind_from_name(s@),
{
    if same_text(s, "car") {
        Some(VehicleType::Car)
    } else if same_text(s, "motorcycle") {
        Some(VehicleType::Motorcycle)
    } else if same_text(s, "truck") {
        Some(VehicleType::Truck)
    } else if same_text(s, "bicycle") {
        Some(VehicleType::Bicycle)
    } else {
        None
    }
}

/// The stored name of a session state.
pub fn status_to_str(s: &VehicleStatus) -> (r: &'static str)
    ensures
        r@ == status_name(*s),
{
    match s {
        VehicleStatus::Active => "active",
        VehicleStatus::Completed => "completed",
        VehicleStatus::Removed => "removed",
    }
}

/// Reads a stored session state; an unknown name reads as active.
pub fn status_from_str(s: &str) -> (r: VehicleStatus)
    ensures
        r == status_of_name(s@),
{
    if same_text(s, "completed") {
        VehicleStatus::Completed
    } else if same_text(s, "removed") {
        VehicleStatus::Removed
    } else {
        VehicleStatus::Active
    }
}

/// Whether sessions of this kind must give a plate.
pub fn vehicle_type_has_plate(v: &VehicleType) -> (r: bool)
    ensures
        r == carries_plate(*v),
{
    match v {
        VehicleType::Bicycle => false,
        _ => true,
    }
}

/// The key under which a plate is indexed: trimmed, then upper-cased.
pub fn normalize_plate_for_index(plate: &str) -> (r: String)
    ensures
        r@ == upper_of(trim_of(plate@)),
        trim_of(plate@).len() == 0 ==> r@.len() == 0,
{
    to_upper_text(trim_text(plate))
}

/// A prefix with the pattern characters `%`, `_` and `\` escaped.
pub open spec fn escape_like(s: Seq<char>) -> Seq<char>
    decreases s.len(),
{
    if s.len() == 0 {
        Seq::empty()
    } else {
        let c = s.last();
        let tail = if c == '%' || c == '_' || c == '\\' {
            seq!['\\', c]
        } else {
            seq![c]
        };
        escape_like(s.drop_last()) + tail
    }
}

/// A pattern that matches every text starting with `prefix`: the prefix with
/// its pattern characters escaped by `\`, then `%`.
pub fn like_escape_prefix(prefix: &str) -> (r: String)
    ensures
        r@ == escape_like(prefix@) + seq!['%'],
{
    let n = prefix.unicode_len();
    let mut out = String::new();
    let mut i: usize = 0;
    while i < n
        invariant
            n == prefix@.len(),
            i <= n,
            out@ == escape_like(prefix@.subrange(0, i as int)),
        decreases n - i,
    {
        let c = prefix.get_char(i);
        let piece = prefix.substring_char(i, i + 1);
        if c == '%' || c == '_' || c == '\\' {
            out.append("\\");
            proof {
                reveal_strlit("\\");
            }
        }
        out.append(piece);
        proof {
            let s = prefix@.subrange(0, i as int + 1);
            assert(s.drop_last() =~= prefix@.subrange(0, i as int));
            assert(s.last() == c);
            assert(piece@ =~= seq![c]);
        }
        i = i + 1;
    }
    out.append("%");
    proof {
        reveal_strlit("%");
        assert(prefix@.subrange(0, n as int) =~= prefix@);
    }
    out
}

/// What a session owes: its debt, zero when none is recorded.
pub open spec fn debt_of(v: Vehicle) -> nat {
    match v.debt {
        Some(d) => d as nat,
        None => 0,
    }
}

/// The debt that sessions of `plate` carry: the sum of their positive debts.
pub open spec fn plate_debt(s: Seq<Vehicle>, plate: Seq<char>) -> nat
    decreases s.len(),
{
    if s.len() == 0 {
        0
    } else {
        plate_debt(s.drop_last(), plate) + if s.last().plate@ == plate {
            debt_of(s.last())
        } else {
            0
        }
    }
}

/// Whether a session with this ticket code is active.
pub open spec fn ticket_active(s: Seq<Vehicle>, code: Seq<char>) -> bool {
    exists|i: int|
        0 <= i < s.len() && #[trigger] s[i].ticket_code@ == code && s[i].status == VehicleStatus::Active
}

/// Whether a session with this plate is active.
pub open spec fn plate_active(s: Seq<Vehicle>, plate: Seq<char>) -> bool {
    exists|i: int| 0 <= i < s.len() && #[trigger] s[i].plate@ == plate && s[i].status == VehicleStatus::Active
}

/// Whether some session of this plate, in any state, is of another kind.
pub open spec fn plate_type_conflict(s: Seq<Vehicle>, plate: Seq<char>, v: VehicleType) -> bool {
    exists|i: int| 0 <= i < s.len() && #[trigger] s[i].plate@ == plate && s[i].vehicle_type != v
}

/// Why an entry was turned down.
#[derive(Debug, Clone, Copy, PartialEq, Eq, Structural)]
pub enum EntryError {
    /// The ticket code is empty.
    EmptyTicketCode,
    /// The kind carries a plate and none was given.
    PlateRequired,
    /// An active session holds this ticket code: the card is in use.
    TicketInUse,
    /// An active session holds this plate: the vehicle is already parked.
    PlateAlreadyParked,
    /// The plate was registered before under another kind.
    PlateTypeMismatch { registered_as: VehicleType },
    /// The inherited debt does not fit an amount.
    DebtOverflow,
}

/// The preconditions of an entry, checked in order, against `sessions`: every
/// session that shares the ticket code or the plate. The ticket must not be
/// active; a non-empty plate must not be active, whatever the kind; for a
/// kind that carries a plate, no session of the plate may be of another
/// kind. On success, the debt that the new session inherits.
pub fn check_entry(sessions: &Vec<Vehicle>, code: &str, plate: &str, vehicle_type: VehicleType) -> (r: Result<
    u64,
    EntryError,
>)
    ensures
        ticket_active(sessions@, code@) <==> r == Err::<u64, EntryError>(EntryError::TicketInUse),
        !ticket_active(sessions@, code@) && plate@.len() > 0 && plate_active(sessions@, plate@) <==> r == Err::<
            u64,
            EntryError,
        >(EntryError::PlateAlreadyParked),
        r matches Err(EntryError::PlateTypeMismatch { registered_as }) ==> (!ticket_active(sessions@, code@)
            && carries_plate(vehicle_type) && plate@.len() > 0 && !plate_active(sessions@, plate@)
            && registered_as != vehicle_type && exists|i: int|
            0 <= i < sessions@.len() && #[trigger] sessions@[i].plate@ == plate@ && sessions@[i].vehicle_type
                == registered_as),
        !ticket_active(sessions@, code@) && carries_plate(vehicle_type) && plate@.len() > 0 && !plate_active(
            sessions@,
            plate@,
        ) && plate_type_conflict(sessions@, plate@, vehicle_type) ==> r is Err && r->Err_0
            is PlateTypeMismatch,
        r is Ok <==> (!ticket_active(sessions@, code@) && !(plate@.len() > 0 && plate_active(sessions@, plate@))
            && !(carries_plate(vehicle_type) && plate@.len() > 0 && plate_type_conflict(
            sessions@,
            plate@,
            vehicle_type,
        )) && (plate@.len() > 0 ==> plate_debt(sessions@, plate@) <= u64::MAX)),
        r is Ok ==> r->Ok_0 == (if plate@.len() > 0 {
            plate_debt(sessions@, plate@)
        } else {
            0
        }),
        r == Err::<u64, EntryError>(EntryError::DebtOverflow) ==> plate@.len() > 0 && plate_debt(sessions@, plate@)
            > u64::MAX,
        r != Err::<u64, EntryError>(EntryError::EmptyTicketCode),
        r != Err::<u64, EntryError>(EntryError::PlateRequired),
{
    let n = sessions.len();
    let mut i: usize = 0;
    while i < n
        invariant
            n == sessions@.len(),
            i <= n,
            forall|k: int|
                0 <= k < i ==> !(#[trigger] sessions@[k].ticket_code@ == code@ && sessions@[k].status
                    == VehicleStatus::Active),
        decreases n - i,
    {
        if same_text(sessions[i].ticket_code.as_str(), code) && sessions[i].status == VehicleStatus::Active {
            assert(sessions@[i as int].ticket_code@ == code@);
            return Err(EntryError::TicketInUse);
        }
        i = i + 1;
    }
    let has_plate = plate.unicode_len() > 0;
    if has_plate {
        let mut j: usize = 0;
        while j < n
            invariant
                n == sessions@.len(),
                j <= n,
                !ticket_active(sessions@, code@),
                plate@.len() > 0,
                forall|k: int|
                    0 <= k < j ==> !(#[trigger] sessions@[k].plate@ == plate@ && sessions@[k].status
                        == VehicleStatus::Active),
            decreases n - j,
        {
            if same_text(sessions[j].plate.as_str(), plate) && sessions[j].status == VehicleStatus::Active {
                assert(sessions@[j as int].plate@ == plate@);
                assert(plate_active(sessions@, plate@));
                return Err(EntryError::PlateAlreadyParked);
            }
            j = j + 1;
        }
    }
    if vehicle_type_has_plate(&vehicle_type) && has_plate {
        let mut j: usize = 0;
        while j < n
            invariant
                n == sessions@.len(),
                j <= n,
                !ticket_active(sessions@, code@),
                carries_plate(vehicle_type),
                plate@.len() > 0,
                !plate_active(sessions@, plate@),
                forall|k: int|
                    0 <= k < j ==> !(#[trigger] sessions@[k].plate@ == plate@ && sessions@[k].vehicle_type
                        != vehicle_type),
            decreases n - j,
        {
            if same_text(sessions[j].plate.as_str(), plate) && sessions[j].vehicle_type != vehicle_type {
                return Err(EntryError::PlateTypeMismatch { registered_as: sessions[j].vehicle_type });
            }
            j = j + 1;
        }
    }
    if !has_plate {
        return Ok(0);
    }
    let mut total: u64 = 0;
    let mut j: usize = 0;
    while j < n
        invariant
            n == sessions@.len(),
            j <= n,
            total as nat == plate_debt(sessions@.subrange(0, j as int), plate@),
            !ticket_active(sessions@, code@),
            !plate_active(sessions@, plate@),
            !(carries_plate(vehicle_type) && plate_type_conflict(sessions@, plate@, vehicle_type)),
            plate@.len() > 0,
        decreases n - j,
    {
        proof {
            let s = sessions@.subrange(0, j as int + 1);
            assert(s.drop_last() =~= sessions@.subrange(0, j as int));
            assert(s.last() == sessions@[j as int]);
        }
        if same_text(sessions[j].plate.as_str(), plate) {
            match sessions[j].debt {
                Some(d) => {
                    if d > u64::MAX - total {
                        proof {
                            lemma_plate_debt_prefix_grows(sessions@, plate@, j as int + 1);
                        }
                        return Err(EntryError::DebtOverflow);
                    }
                    total = total + d;
                },
                None => {},
            }
        }
        j = j + 1;
    }
    assert(sessions@.subrange(0, n as int) =~= sessions@);
    Ok(total)
}

/// The debt of a prefix of the sessions never exceeds that of all of them.
pub proof fn lemma_plate_debt_prefix_grows(s: Seq<Vehicle>, plate: Seq<char>, j: int)
    requires
        0 <= j <= s.len(),
    ensures
        plate_debt(s.subrange(0, j), plate) <= plate_debt(s, plate),
    decreases s.len() - j,
{
    if j < s.len() {
        lemma_plate_debt_prefix_grows(s, plate, j + 1);
        let t = s.subrange(0, j + 1);
        assert(t.drop_last() =~= s.subrange(0, j));
    } else {
        assert(s.subrange(0, j) =~= s);
    }
}

/// The debt that a plate carries is the sum of what its sessions owe: with
/// exactly two sessions of the plate owing `D1` and `D2`, it is `D1 + D2`.
pub proof fn lemma_debt_carry_over(s: Seq<Vehicle>, plate: Seq<char>, i: int, j: int)
    requires
        0 <= i < s.len(),
        0 <= j < s.len(),
        i != j,
        s[i].plate@ == plate,
        s[j].plate@ == plate,
        forall|k: int| 0 <= k < s.len() && k != i && k != j && #[trigger] s[k].plate@ == plate ==> debt_of(s[k]) == 0,
    ensures
        plate_debt(s, plate) == debt_of(s[i]) + debt_of(s[j]),
{
    lemma_debt_sum_outside(s, plate, i, j);
}

proof fn lemma_debt_sum_outside(s: Seq<Vehicle>, plate: Seq<char>, i: int, j: int)
    requires
        forall|k: int| 0 <= k < s.len() && k != i && k != j && #[trigger] s[k].plate@ == plate ==> debt_of(s[k]) == 0,
        i != j,
    ensures
        plate_debt(s, plate) == (if 0 <= i < s.len() && s[i].plate@ == plate {
            debt_of(s[i])
        } else {
            0
        }) + (if 0 <= j < s.len() && s[j].plate@ == plate {
            debt_of(s[j])
        } else {
            0
        }),
    decreases s.len(),
{
    if s.len() > 0 {
        let t = s.drop_last();
        assert forall|k: int| 0 <= k < t.len() && k != i && k != j && #[trigger] t[k].plate@ == plate implies debt_of(
            t[k],
        ) == 0 by {
            assert(s[k] == t[k]);
        }
        lemma_debt_sum_outside(t, plate, i, j);
        if 0 <= i < t.len() {
            assert(t[i] == s[i]);
        }
        if 0 <= j < t.len() {
            assert(t[j] == s[j]);
        }
    }
}

/// Hours billed for a stay: whole minutes elapsed (none when the clock went
/// back), rounded up to whole hours, at least one.
pub open spec fn billed_hours_spec(entry_ms: int, exit_ms: int) -> int {
    let minutes = if exit_ms > entry_ms {
        (exit_ms - entry_ms) / 60000
    } else {
        0
    };
    let hours = (minutes + 59) / 60;
    if hours < 1 {
        1
    } else {
        hours
    }
}

/// Hours billed for a stay from `entry_ms` to `exit_ms`.
pub fn billed_hours(entry_ms: u64, exit_ms: u64) -> (r: u64)
    ensures
        r as int == billed_hours_spec(entry_ms as int, exit_ms as int),
{
    let minutes: u64 = if exit_ms > entry_ms {
        (exit_ms - entry_ms) / 60000
    } else {
        0
    };
    let hours: u64 = (minutes + 59) / 60;
    if hours < 1 {
        1
    } else {
        hours
    }
}

/// Leaving at `T + 61` minutes bills two hours; any stay bills at least one.
pub proof fn lemma_cost_rounds_up(t: int, rate: int)
    ensures
        billed_hours_spec(t, t + 61 * 60000) == 2,
        billed_hours_spec(t, t + 61 * 60000) * rate == 2 * rate,
        billed_hours_spec(t, t) == 1,
        forall|a: int, b: int| billed_hours_spec(a, b) >= 1,
{
    assert((61 * 60000int) / 60000 == 61);
}

/// How a payment settles what is due: `(charged, remaining debt)`.
pub open spec fn settle_spec(due: int, partial: Option<u64>) -> (int, int) {
    match partial {
        Some(p) if (p as int) < due => (p as int, due - p),
        _ => (due, 0),
    }
}

/// A payment below the total due (cost plus inherited debt) is charged as it
/// is and leaves the rest owed; one of at least the total charges the total
/// and leaves nothing owed; with no payment given the total is charged.
pub proof fn lemma_partial_payment(cost: nat, inherited: nat, paid: u64)
    ensures
        ({
            let due = (cost + inherited) as int;
            &&& (paid as int) < due ==> settle_spec(due, Some(paid)) == (paid as int, due - paid)
            &&& (paid as int) >= due ==> settle_spec(due, Some(paid)) == (due, 0int)
            &&& settle_spec(due, None) == (due, 0int)
        }),
{
}

/// The outcome of settling an exit: what is charged and what stays owed.
#[derive(Debug, Clone, Copy, PartialEq, Eq, Structural)]
pub struct Settlement {
    pub charged: u64,
    pub remaining_debt: u64,
}

/// Settles a payment against the total due (parking cost plus inherited
/// debt): a partial payment below it is charged as it is and leaves the rest
/// as debt; otherwise the whole total is charged and no debt remains. `None`
/// when the total does not fit an amount.
pub fn settle_payment(parking_cost: u64, inherited_debt: u64, partial: Option<u64>) -> (r: Option<Settlement>)
    ensures
        r is None <==> parking_cost + inherited_debt > u64::MAX,
        r matches Some(st) ==> st.charged as int == settle_spec(parking_cost + inherited_debt, partial).0
            && st.remaining_debt as int == settle_spec(parking_cost + inherited_debt, partial).1
            && st.charged + st.remaining_debt == parking_cost + inherited_debt,
{
    if parking_cost > u64::MAX - inherited_debt {
        return None;
    }
    let due = parking_cost + inherited_debt;
    match partial {
        Some(p) => {
            if p < due {
                Some(Settlement { charged: p, remaining_debt: due - p })
            } else {
                Some(Settlement { charged: due, remaining_debt: 0 })
            }
        },
        None => Some(Settlement { charged: due, remaining_debt: 0 }),
    }
}

} // verus!
