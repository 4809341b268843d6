//! Tariffs: the built-in fallback rate of each vehicle kind, custom tariff
//! records (a default per kind and overrides per plate or reference, unique
//! per kind and key), and the resolution of a kind's effective default rate.
use vstd::prelude::*;

use crate::text::{copy_opt_string, lower_of, same_text, to_lower_text, trim_of, trim_text};
use crate::vehicles::{kind_from_name, parse_vehicle_type, VehicleType};

verus! {

/// The unit in which a custom tariff is quoted.
#[derive(Debug, Clone, Copy, PartialEq, Eq, Structural)]
pub enum RateUnit {
    Hour,
    Minute,
}

/// A custom tariff: the default rate of a kind when `plate_or_ref` is
/// `None`, else an override for that plate or reference.
#[derive(Debug, Clone)]
pub struct CustomTariff {
    pub id: String,
    pub vehicle_type: VehicleType,
    pub name: Option<String>,
    pub plate_or_ref: Option<String>,
    pub description: Option<String>,
    pub amount: u64,
    pub rate_unit: RateUnit,
    pub rate_duration_hours: i64,
    pub rate_duration_minutes: i64,
    pub created_at: u64,
}

impl CustomTariff {
    /// A copy of this record.
    pub fn snapshot(&self) -> (r: CustomTariff)
        ensures
            r == *self,
    {
        CustomTariff {
            id: self.id.clone(),
            vehicle_type: self.vehicle_type,
            name: copy_opt_string(&self.name),
            plate_or_ref: copy_opt_string(&self.plate_or_ref),
            description: copy_opt_string(&self.description),
            amount: self.amount,
            rate_unit: self.rate_unit,
            rate_duration_hours: self.rate_duration_hours,
            rate_duration_minutes: self.rate_duration_minutes,
            created_at: self.created_at,
        }
    }
}

/// What a caller gives to create a custom tariff.
#[derive(Debug, Clone)]
pub struct CreateCustomTariffArgs {
    pub vehicle_type: String,
    pub name: Option<String>,
    pub plate_or_ref: Option<String>,
    pub amount: u64,
    pub description: Option<String>,
    pub rate_unit: Option<String>,
    pub rate_duration_hours: Option<i64>,
    pub rate_duration_minutes: Option<i64>,
}

/// What a caller gives to change a custom tariff; `None` keeps a field.
#[derive(Debug, Clone)]
pub struct UpdateCustomTariffArgs {
    pub id: String,
    pub vehicle_type: Option<String>,
    pub name: Option<String>,
    pub plate_or_ref: Option<String>,
    pub amount: Option<u64>,
    pub description: Option<String>,
    pub rate_unit: Option<String>,
    pub rate_duration_hours: Option<i64>,
    pub rate_duration_minutes: Option<i64>,
}

/// Why a tariff change was turned down.
#[derive(Debug, Clone, Copy, PartialEq, Eq, Structural)]
pub enum TariffError {
    /// The kind is none of the four names.
    InvalidVehicleType,
    /// The rate lasts neither an hour nor a minute.
    ZeroDuration,
    /// A tariff already exists for this kind and key.
    Duplicate,
    /// No tariff has that id.
    NotFound,
}

/// The built-in rate of a kind, per hour.
pub open spec fn fallback_rate_spec(v: VehicleType) -> u64 {
    match v {
        VehicleType::Car => 50,
        VehicleType::Motorcycle => 30,
        VehicleType::Truck => 80,
        VehicleType::Bicycle => 15,
    }
}

/// The built-in rate of a kind, per hour.
pub fn fallback_rate(v: VehicleType) -> (r: u64)
    ensures
        r == fallback_rate_spec(v),
{
    match v {
        VehicleType::Car => 50,
        VehicleType::Motorcycle => 30,
        VehicleType::Truck => 80,
        VehicleType::Bicycle => 15,
    }
}

/// The key of a tariff: its plate or reference, empty for a kind's default.
pub open spec fn key_of(t: CustomTariff) -> Seq<char> {
    match t.plate_or_ref {
        Some(p) => p@,
        None => Seq::empty(),
    }
}

/// Whether a tariff is the default rate of kind `v`.
pub open spec fn is_default_for(t: CustomTariff, v: VehicleType) -> bool {
    t.vehicle_type == v && key_of(t).len() == 0
}

/// Whether a tariff, other than the one at position `skip`, holds kind `v`
/// and key `key`.
pub open spec fn key_taken(ts: Seq<CustomTariff>, v: VehicleType, key: Seq<char>, skip: Option<int>) -> bool {
    exists|i: int| 0 <= i < ts.len() && #[trigger] ts[i].vehicle_type == v && key_of(ts[i]) == key && skip != Some(i)
}

/// At most one tariff per kind and key.
pub open spec fn tariffs_unique(ts: Seq<CustomTariff>) -> bool {
    forall|i: int, j: int|
        0 <= i < ts.len() && 0 <= j < ts.len() && i != j && #[trigger] ts[i].vehicle_type == #[trigger] ts[j].vehicle_type
            ==> key_of(ts[i]) != key_of(ts[j])
}

/// The effective default rate of kind `v`: the amount of its default tariff
/// when there is one (the first, should several exist), else the built-in
/// rate.
pub open spec fn default_rate_spec(ts: Seq<CustomTariff>, v: VehicleType) -> u64 {
    if exists|i: int| 0 <= i < ts.len() && #[trigger] is_default_for(ts[i], v) {
        let i = choose|i: int|
            0 <= i < ts.len() && is_default_for(ts[i], v) && forall|k: int|
                0 <= k < i ==> !#[trigger] is_default_for(ts[k], v);
        ts[i].amount
    } else {
        fallback_rate_spec(v)
    }
}

/// Whether a tariff has no key.
fn has_empty_key(t: &CustomTariff) -> (r: bool)
    ensures
        r == (key_of(*t).len() == 0),
{
    match &t.plate_or_ref {
        Some(p) => p.as_str().unicode_len() == 0,
        None => true,
    }
}

/// The effective default rate of a kind.
pub fn resolve_default_rate(tariffs: &Vec<CustomTariff>, v: VehicleType) -> (r: u64)
    ensures
        r == default_rate_spec(tariffs@, v),
{
    let mut i: usize = 0;
    while i < tariffs.len()
        invariant
            i <= tariffs@.len(),
            forall|k: int| 0 <= k < i ==> !#[trigger] is_default_for(tariffs@[k], v),
        decreases tariffs@.len() - i,
    {
        if tariffs[i].vehicle_type == v && has_empty_key(&tariffs[i]) {
            proof {
                assert(is_default_for(tariffs@[i as int], v));
                let j = choose|j: int|
                    0 <= j < tariffs@.len() && is_default_for(tariffs@[j], v) && forall|k: int|
                        0 <= k < j ==> !#[trigger] is_default_for(tariffs@[k], v);
                if j < i {
                } else if j > i {
                    assert(!is_default_for(tariffs@[i as int], v));
                }
            }
            return tariffs[i].amount;
        }
        i = i + 1;
    }
    fallback_rate(v)
}

/// Whether a tariff, other than the one at position `skip`, holds kind `v`
/// and key `key`.
fn find_key(tariffs: &Vec<CustomTariff>, v: VehicleType, key: &str, skip: Option<usize>) -> (r: bool)
    ensures
        r == key_taken(tariffs@, v, key@, match skip {
            Some(s) => Some(s as int),
            None => None,
        }),
{
    let ghost sk = match skip {
        Some(s) => Some(s as int),
        None => None::<int>,
    };
    let mut i: usize = 0;
    while i < tariffs.len()
        invariant
            i <= tariffs@.len(),
            sk == match skip {
                Some(s) => Some(s as int),
                None => None,
            },
            forall|k: int|
                0 <= k < i ==> !(#[trigger] tariffs@[k].vehicle_type == v && key_of(tariffs@[k]) == key@ && sk
                    != Some(k)),
        decreases tariffs@.len() - i,
    {
        let t = &tariffs[i];
        let same_key = match &t.plate_or_ref {
            Some(p) => same_text(p.as_str(), key),
            None => key.unicode_len() == 0,
        };
        let skipped = match skip {
            Some(s) => s == i,
            None => false,
        };
        if t.vehicle_type == v && same_key && !skipped {
            proof {
                assert(key_of(tariffs@[i as int]) =~= key@);
            }
            return true;
        }
        proof {
            if tariffs@[i as int].vehicle_type == v && !skipped {
                if key_of(tariffs@[i as int]) == key@ {
                    assert(same_key);
                }
            }
        }
        i = i + 1;
    }
    false
}

/// A trimmed text, or nothing when it is empty once trimmed.
pub open spec fn trimmed_or_none(s: Option<String>) -> Option<Seq<char>> {
    match s {
        Some(t) => if trim_of(t@).len() > 0 {
            Some(trim_of(t@))
        } else {
            None
        },
        None => None,
    }
}

/// A text trimmed, or nothing when it is empty once trimmed.
pub fn non_empty_trimmed(s: &Option<String>) -> (r: Option<String>)
    ensures
        match r {
            Some(t) => trimmed_or_none(*s) == Some(t@),
            None => trimmed_or_none(*s) is None,
        },
{
    match s {
        Some(t) => {
            let tt = trim_text(t.as_str());
            if tt.unicode_len() > 0 {
                Some(String::from_str(tt))
            } else {
                None
            }
        },
        None => None,
    }
}

/// The rate unit that a caller's text names, once trimmed and lower-cased.
pub open spec fn unit_from_name(s: Seq<char>) -> Option<RateUnit> {
    if s == "hour"@ {
        Some(RateUnit::Hour)
    } else if s == "minute"@ {
        Some(RateUnit::Minute)
    } else {
        None
    }
}

/// Reads a rate unit given by a caller.
pub fn parse_rate_unit(s: &Option<String>) -> (r: Option<RateUnit>)
    ensures
        r == match *s {
            Some(t) => unit_from_name(lower_of(trim_of(t@))),
            None => None,
        },
{
    match s {
        Some(t) => {
            let l = to_lower_text(trim_text(t.as_str()));
            if same_text(l.as_str(), "hour") {
                Some(RateUnit::Hour)
            } else if same_text(l.as_str(), "minute") {
                Some(RateUnit::Minute)
            } else {
                None
            }
        },
        None => None,
    }
}

/// Reads a vehicle kind given by a caller, once trimmed and lower-cased.
pub fn parse_vehicle_type_arg(s: &str) -> (r: Option<VehicleType>)
    ensures
        r == kind_from_name(lower_of(trim_of(s@))),
{
    let l = to_lower_text(trim_text(s));
    parse_vehicle_type(l.as_str())
}

/// Hours of a rate's duration: as given, else one; never negative.
pub open spec fn duration_hours(h: Option<i64>) -> i64 {
    match h {
        Some(x) => if x < 0 {
            0
        } else {
            x
        },
        None => 1,
    }
}

/// Minutes of a rate's duration: as given, else none; kept within 0..=59.
pub open spec fn duration_minutes(m: Option<i64>) -> i64 {
    match m {
        Some(x) => if x < 0 {
            0
        } else if x > 59 {
            59
        } else {
            x
        },
        None => 0,
    }
}

fn clamp_hours(h: Option<i64>) -> (r: i64)
    ensures
        r == duration_hours(h),
{
    match h {
        Some(x) => if x < 0 {
            0
        } else {
            x
        },
        None => 1,
    }
}

fn clamp_minutes(m: Option<i64>) -> (r: i64)
    ensures
        r == duration_minutes(m),
{
    match m {
        Some(x) => if x < 0 {
            0
        } else if x > 59 {
            59
        } else {
            x
        },
        None => 0,
    }
}

/// The error with which a tariff creation is turned down, if any.
pub open spec fn create_custom_tariff_outcome(ts: Seq<CustomTariff>, args: CreateCustomTariffArgs) -> Option<TariffError> {
    let kind = kind_from_name(lower_of(trim_of(args.vehicle_type@)));
    if kind is None {
        Some(TariffError::InvalidVehicleType)
    } else if duration_hours(args.rate_duration_hours) == 0 && duration_minutes(
        args.rate_duration_minutes,
    ) == 0 {
        Some(TariffError::ZeroDuration)
    } else if key_taken(
        ts,
        kind->0,
        match trimmed_or_none(args.plate_or_ref) {
            Some(p) => p,
            None => Seq::empty(),
        },
        None,
    ) {
        Some(TariffError::Duplicate)
    } else {
        None
    }
}

/// The fields of a tariff after an update of `cur`: each field the caller
/// gave replaces the current one (texts trimmed, an empty one ignored), the
/// id and creation time are kept.
pub open spec fn updated_fields(cur: CustomTariff, args: UpdateCustomTariffArgs, t: CustomTariff) -> bool {
    &&& t.id == cur.id
    &&& t.created_at == cur.created_at
    &&& Some(t.vehicle_type) == updated_kind(args.vehicle_type, cur.vehicle_type)
    &&& key_of(t) == updated_key(args.plate_or_ref, cur)
    &&& (t.plate_or_ref is None <==> key_of(t).len() == 0)
    &&& t.amount == match args.amount {
        Some(a) => a,
        None => cur.amount,
    }
    &&& t.rate_duration_hours == updated_hours(args.rate_duration_hours, cur.rate_duration_hours)
    &&& t.rate_duration_minutes == updated_minutes(args.rate_duration_minutes, cur.rate_duration_minutes)
    &&& !(t.rate_duration_hours == 0 && t.rate_duration_minutes == 0)
    &&& t.rate_unit == match parse_unit_spec(args.rate_unit) {
        Some(u) => u,
        None => cur.rate_unit,
    }
    &&& (trimmed_or_none(args.name) is Some ==> t.name is Some && Some(t.name->0@) == trimmed_or_none(args.name))
    &&& (trimmed_or_none(args.name) is None ==> t.name == cur.name)
    &&& (args.description is Some ==> t.description == args.description)
    &&& (args.description is None ==> t.description == cur.description)
}

/// What an accepted update did: the first tariff with the id (trimmed) is
/// replaced in place by `t`, whose kind and key no other tariff holds.
pub open spec fn update_applied(
    before: Seq<CustomTariff>,
    after: Seq<CustomTariff>,
    args: UpdateCustomTariffArgs,
    t: CustomTariff,
) -> bool {
    exists|i: int|
        #[trigger] first_with_id(before, trim_of(args.id@), i) && after == before.update(i, t) && updated_fields(
            before[i],
            args,
            t,
        ) && !key_taken(before, t.vehicle_type, key_of(t), Some(i))
}

/// The fields of a created tariff: the kind named (trimmed, lower-cased),
/// the trimmed plate or none, the trimmed name or none, the amount and
/// description given, the unit named or hourly, the duration as given (an
/// hour by default, minutes kept within 0..=59).
pub open spec fn created_fields(args: CreateCustomTariffArgs, t: CustomTariff) -> bool {
    &&& Some(t.vehicle_type) == kind_from_name(lower_of(trim_of(args.vehicle_type@)))
    &&& key_of(t) == match trimmed_or_none(args.plate_or_ref) {
        Some(p) => p,
        None => Seq::<char>::empty(),
    }
    &&& (t.plate_or_ref is None <==> trimmed_or_none(args.plate_or_ref) is None)
    &&& (t.name is None <==> trimmed_or_none(args.name) is None)
    &&& (t.name is Some ==> Some(t.name->0@) == trimmed_or_none(args.name))
    &&& t.description == args.description
    &&& t.amount == args.amount
    &&& t.rate_duration_hours == duration_hours(args.rate_duration_hours)
    &&& t.rate_duration_minutes == duration_minutes(args.rate_duration_minutes)
    &&& t.rate_unit == match parse_unit_spec(args.rate_unit) {
        Some(u) => u,
        None => RateUnit::Hour,
    }
}

/// Once a tariff is stored, creating another one for the same kind and key
/// is turned down as a duplicate.
pub proof fn lemma_second_tariff_rejected(ts: Seq<CustomTariff>, t: CustomTariff, args: CreateCustomTariffArgs)
    requires
        kind_from_name(lower_of(trim_of(args.vehicle_type@))) == Some(t.vehicle_type),
        (match trimmed_or_none(args.plate_or_ref) {
            Some(p) => p,
            None => Seq::<char>::empty(),
        }) == key_of(t),
    ensures
        !(duration_hours(args.rate_duration_hours) == 0 && duration_minutes(args.rate_duration_minutes) == 0)
            ==> create_custom_tariff_outcome(ts.push(t), args) == Some(TariffError::Duplicate),
{
    let s = ts.push(t);
    assert(s[ts.len() as int] == t);
    assert(key_taken(s, t.vehicle_type, key_of(t), None));
}

/// Adds a custom tariff. The kind must be one of the four names (trimmed,
/// lower-cased); the key is the trimmed plate or reference, empty for the
/// kind's default; the rate must last at least a minute; and no tariff may
/// hold that kind and key already.
pub fn create_custom_tariff(
    tariffs: &mut Vec<CustomTariff>,
    args: CreateCustomTariffArgs,
    id: String,
    created_at: u64,
) -> (r: Result<CustomTariff, TariffError>)
    ensures
        match create_custom_tariff_outcome(old(tariffs)@, args) {
            Some(e) => r == Err::<CustomTariff, TariffError>(e),
            None => r is Ok,
        },
        r is Err ==> *final(tariffs) == *old(tariffs),
        r matches Ok(t) ==> final(tariffs)@ == old(tariffs)@.push(t) && t.id@ == id@ && t.created_at == created_at
            && created_fields(args, t),
        tariffs_unique(old(tariffs)@) ==> tariffs_unique(final(tariffs)@),
{
    let vt = match parse_vehicle_type_arg(args.vehicle_type.as_str()) {
        Some(v) => v,
        None => return Err(TariffError::InvalidVehicleType),
    };
    let plate = non_empty_trimmed(&args.plate_or_ref);
    let name = non_empty_trimmed(&args.name);
    let unit = match parse_rate_unit(&args.rate_unit) {
        Some(u) => u,
        None => RateUnit::Hour,
    };
    let dur_h = clamp_hours(args.rate_duration_hours);
    let dur_m = clamp_minutes(args.rate_duration_minutes);
    if dur_h == 0 && dur_m == 0 {
        return Err(TariffError::ZeroDuration);
    }
    proof {
        reveal_strlit("");
        assert(""@ =~= Seq::<char>::empty());
    }
    let taken = match &plate {
        Some(p) => find_key(tariffs, vt, p.as_str(), None),
        None => find_key(tariffs, vt, "", None),
    };
    if taken {
        return Err(TariffError::Duplicate);
    }
    let t = CustomTariff {
        id,
        vehicle_type: vt,
        name,
        plate_or_ref: plate,
        description: args.description,
        amount: args.amount,
        rate_unit: unit,
        rate_duration_hours: dur_h,
        rate_duration_minutes: dur_m,
        created_at,
    };
    let tv = t.snapshot();
    let ghost before = tariffs@;
    tariffs.push(t);
    proof {
        let ts = tariffs@;
        if tariffs_unique(before) {
            assert forall|i: int, j: int|
                0 <= i < ts.len() && 0 <= j < ts.len() && i != j && #[trigger] ts[i].vehicle_type
                    == #[trigger] ts[j].vehicle_type implies key_of(ts[i]) != key_of(ts[j]) by {
                if i == before.len() {
                    assert(ts[j] == before[j]);
                    assert(!(before[j].vehicle_type == vt && key_of(before[j]) == key_of(tv)));
                } else if j == before.len() {
                    assert(ts[i] == before[i]);
                    assert(!(before[i].vehicle_type == vt && key_of(before[i]) == key_of(tv)));
                } else {
                    assert(ts[i] == before[i] && ts[j] == before[j]);
                }
            }
        }
    }
    Ok(tv)
}

/// Whether a tariff holds this id.
pub open spec fn has_id(ts: Seq<CustomTariff>, id: Seq<char>) -> bool {
    exists|i: int| 0 <= i < ts.len() && #[trigger] ts[i].id@ == id
}

/// Whether `i` is the position of the first tariff with this id.
pub open spec fn first_with_id(ts: Seq<CustomTariff>, id: Seq<char>, i: int) -> bool {
    0 <= i < ts.len() && ts[i].id@ == id && forall|k: int| 0 <= k < i ==> #[trigger] ts[k].id@ != id
}

/// The error with which an update is turned down, if any, checked in
/// order: no tariff has the id; the new kind names none; another tariff
/// holds the new kind and key; the rate would last no time.
pub open spec fn update_outcome(ts: Seq<CustomTariff>, args: UpdateCustomTariffArgs) -> Option<TariffError> {
    let id = trim_of(args.id@);
    if !has_id(ts, id) {
        Some(TariffError::NotFound)
    } else {
        let i = choose|i: int| first_with_id(ts, id, i);
        let kind = updated_kind(args.vehicle_type, ts[i].vehicle_type);
        if kind is None {
            Some(TariffError::InvalidVehicleType)
        } else if key_taken(ts, kind->0, updated_key(args.plate_or_ref, ts[i]), Some(i)) {
            Some(TariffError::Duplicate)
        } else if updated_hours(args.rate_duration_hours, ts[i].rate_duration_hours) == 0 && updated_minutes(
            args.rate_duration_minutes,
            ts[i].rate_duration_minutes,
        ) == 0 {
            Some(TariffError::ZeroDuration)
        } else {
            None
        }
    }
}

/// Position of the first tariff with this id.
fn find_id(tariffs: &Vec<CustomTariff>, id: &str) -> (r: Option<usize>)
    ensures
        match r {
            Some(i) => first_with_id(tariffs@, id@, i as int),
            None => !has_id(tariffs@, id@),
        },
{
    let mut i: usize = 0;
    while i < tariffs.len()
        invariant
            i <= tariffs@.len(),
            forall|k: int| 0 <= k < i ==> #[trigger] tariffs@[k].id@ != id@,
        decreases tariffs@.len() - i,
    {
        if same_text(tariffs[i].id.as_str(), id) {
            return Some(i);
        }
        i = i + 1;
    }
    None
}

/// The kind after an update: the caller's, when given and not empty once
/// trimmed, else the current one. `None` when the caller's names no kind.
pub open spec fn updated_kind(arg: Option<String>, current: VehicleType) -> Option<VehicleType> {
    match arg {
        Some(s) => if lower_of(trim_of(s@)).len() > 0 {
            kind_from_name(lower_of(trim_of(s@)))
        } else {
            Some(current)
        },
        None => Some(current),
    }
}

/// The key after an update: the caller's when given and not empty once
/// trimmed, else the current one.
pub open spec fn updated_key(arg: Option<String>, current: CustomTariff) -> Seq<char> {
    match trimmed_or_none(arg) {
        Some(p) => p,
        None => key_of(current),
    }
}

/// Hours of a rate's duration after an update; never negative.
pub open spec fn updated_hours(arg: Option<i64>, current: i64) -> i64 {
    let h = match arg {
        Some(x) => x,
        None => current,
    };
    if h < 0 {
        0
    } else {
        h
    }
}

/// Minutes of a rate's duration after an update; kept within 0..=59.
pub open spec fn updated_minutes(arg: Option<i64>, current: i64) -> i64 {
    let m = match arg {
        Some(x) => x,
        None => current,
    };
    if m < 0 {
        0
    } else if m > 59 {
        59
    } else {
        m
    }
}

/// Changes the tariff with the given id (trimmed). Each field the caller
/// gives replaces the current one; the new kind and key must not belong to
/// another tariff, and the rate must last at least a minute.
pub fn update_custom_tariff(tariffs: &mut Vec<CustomTariff>, args: UpdateCustomTariffArgs) -> (r: Result<
    CustomTariff,
    TariffError,
>)
    ensures
        match update_outcome(old(tariffs)@, args) {
            Some(e) => r == Err::<CustomTariff, TariffError>(e),
            None => r is Ok,
        },
        r is Err ==> *final(tariffs) == *old(tariffs),
        r matches Ok(t) ==> update_applied(old(tariffs)@, final(tariffs)@, args, t),
        r == Err::<CustomTariff, TariffError>(TariffError::Duplicate) ==> exists|i: int|
            0 <= i < old(tariffs)@.len() && old(tariffs)@[i].id@ == trim_of(args.id@) && updated_kind(
                args.vehicle_type,
                old(tariffs)@[i].vehicle_type,
            ) is Some && key_taken(
                old(tariffs)@,
                updated_kind(args.vehicle_type, old(tariffs)@[i].vehicle_type)->0,
                updated_key(args.plate_or_ref, old(tariffs)@[i]),
                Some(i),
            ),
        tariffs_unique(old(tariffs)@) ==> tariffs_unique(final(tariffs)@),
{
    let id = trim_text(args.id.as_str());
    let idx = match find_id(tariffs, id) {
        Some(i) => i,
        None => return Err(TariffError::NotFound),
    };
    let ghost old_ts = tariffs@;
    proof {
        let j = choose|j: int| first_with_id(old_ts, id@, j);
        if j < idx {
            assert(old_ts[j].id@ != id@);
        } else if j > idx {
            assert(old_ts[idx as int].id@ != id@);
        }
    }
    let cur = tariffs[idx].snapshot();
    let vt = match &args.vehicle_type {
        Some(s) => {
            let l = to_lower_text(trim_text(s.as_str()));
            if l.as_str().unicode_len() > 0 {
                match parse_vehicle_type(l.as_str()) {
                    Some(v) => v,
                    None => return Err(TariffError::InvalidVehicleType),
                }
            } else {
                cur.vehicle_type
            }
        },
        None => cur.vehicle_type,
    };
    let plate = match non_empty_trimmed(&args.plate_or_ref) {
        Some(p) => Some(p),
        None => copy_opt_string(&cur.plate_or_ref),
    };
    let plate = match plate {
        Some(p) => if p.as_str().unicode_len() > 0 {
            Some(p)
        } else {
            None
        },
        None => None,
    };
    proof {
        reveal_strlit("");
        assert(""@ =~= Seq::<char>::empty());
    }
    let taken = match &plate {
        Some(p) => find_key(tariffs, vt, p.as_str(), Some(idx)),
        None => find_key(tariffs, vt, "", Some(idx)),
    };
    proof {
        let key = match &plate {
            Some(p) => p@,
            None => Seq::<char>::empty(),
        };
        assert(key == updated_key(args.plate_or_ref, old_ts[idx as int]));
    }
    if taken {
        return Err(TariffError::Duplicate);
    }
    let amount = match args.amount {
        Some(a) => a,
        None => cur.amount,
    };
    let name = match non_empty_trimmed(&args.name) {
        Some(n) => Some(n),
        None => copy_opt_string(&cur.name),
    };
    let description = match args.description {
        Some(d) => Some(d),
        None => copy_opt_string(&cur.description),
    };
    let unit = match parse_rate_unit(&args.rate_unit) {
        Some(u) => u,
        None => cur.rate_unit,
    };
    let h = match args.rate_duration_hours {
        Some(x) => x,
        None => cur.rate_duration_hours,
    };
    let m = match args.rate_duration_minutes {
        Some(x) => x,
        None => cur.rate_duration_minutes,
    };
    let dur_h: i64 = if h < 0 {
        0
    } else {
        h
    };
    let dur_m: i64 = if m < 0 {
        0
    } else if m > 59 {
        59
    } else {
        m
    };
    if dur_h == 0 && dur_m == 0 {
        return Err(TariffError::ZeroDuration);
    }
    let t = CustomTariff {
        id: cur.id.clone(),
        vehicle_type: vt,
        name,
        plate_or_ref: plate,
        description,
        amount,
        rate_unit: unit,
        rate_duration_hours: dur_h,
        rate_duration_minutes: dur_m,
        created_at: cur.created_at,
    };
    let tv = t.snapshot();
    tariffs.set(idx, t);
    proof {
        let ts = tariffs@;
        assert(ts == old_ts.update(idx as int, tv));
        if tariffs_unique(old_ts) {
            assert forall|i: int, j: int|
                0 <= i < ts.len() && 0 <= j < ts.len() && i != j && #[trigger] ts[i].vehicle_type
                    == #[trigger] ts[j].vehicle_type implies key_of(ts[i]) != key_of(ts[j]) by {
                if i == idx {
                    assert(ts[j] == old_ts[j]);
                    assert(!(old_ts[j].vehicle_type == vt && key_of(old_ts[j]) == key_of(tv) && Some(idx as int)
                        != Some(j)));
                } else if j == idx {
                    assert(ts[i] == old_ts[i]);
                    assert(!(old_ts[i].vehicle_type == vt && key_of(old_ts[i]) == key_of(tv) && Some(idx as int)
                        != Some(i)));
                } else {
                    assert(ts[i] == old_ts[i] && ts[j] == old_ts[j]);
                }
            }
        }
    }
    Ok(tv)
}

/// A rate unit as stored: exactly `hour` or `minute`, else hour.
pub open spec fn stored_unit(s: Option<String>) -> RateUnit {
    match s {
        Some(t) => if t@ == "minute"@ {
            RateUnit::Minute
        } else {
            RateUnit::Hour
        },
        None => RateUnit::Hour,
    }
}

/// Reads a tariff as stored. An unknown kind reads as a car, an empty plate
/// or name as none, an unknown unit as hourly, and a duration that is
/// missing, negative or zero as one hour.
pub fn tariff_from_stored(
    id: String,
    vehicle_type: Option<String>,
    name: Option<String>,
    plate_or_ref: String,
    description: Option<String>,
    amount: u64,
    rate_unit: Option<String>,
    rate_duration_hours: Option<i64>,
    rate_duration_minutes: Option<i64>,
    created_at: u64,
) -> (r: CustomTariff)
    ensures
        r.id == id,
        r.vehicle_type == match vehicle_type {
            Some(t) => crate::vehicles::type_of_name(t@),
            None => VehicleType::Car,
        },
        r.name is Some <==> (name is Some && name->0@.len() > 0),
        r.name is Some ==> r.name == name,
        key_of(r) == plate_or_ref@,
        r.plate_or_ref is Some <==> plate_or_ref@.len() > 0,
        r.description == description,
        r.amount == amount,
        r.rate_unit == stored_unit(rate_unit),
        (match (rate_duration_hours, rate_duration_minutes) {
            (Some(h), Some(m)) => h >= 0 && m >= 0 && (h > 0 || m > 0),
            _ => false,
        }) ==> r.rate_duration_hours == rate_duration_hours->0 && r.rate_duration_minutes == rate_duration_minutes->0,
        !(match (rate_duration_hours, rate_duration_minutes) {
            (Some(h), Some(m)) => h >= 0 && m >= 0 && (h > 0 || m > 0),
            _ => false,
        }) ==> r.rate_duration_hours == 1 && r.rate_duration_minutes == 0,
        r.created_at == created_at,
{
    let kind = match &vehicle_type {
        Some(t) => crate::vehicles::vehicle_type_from_str(t.as_str()),
        None => VehicleType::Car,
    };
    let name = match name {
        Some(n) => if n.as_str().unicode_len() > 0 {
            Some(n)
        } else {
            None
        },
        None => None,
    };
    let unit = match &rate_unit {
        Some(u) => if same_text(u.as_str(), "minute") {
            RateUnit::Minute
        } else {
            RateUnit::Hour
        },
        None => RateUnit::Hour,
    };
    let (h, m): (i64, i64) = match (rate_duration_hours, rate_duration_minutes) {
        (Some(h), Some(m)) => if h >= 0 && m >= 0 && (h > 0 || m > 0) {
            (h, m)
        } else {
            (1, 0)
        },
        _ => (1, 0),
    };
    let plate = if plate_or_ref.as_str().unicode_len() > 0 {
        Some(plate_or_ref)
    } else {
        None
    };
    proof {
        if plate is None {
            assert(plate_or_ref@ =~= Seq::<char>::empty());
        }
    }
    CustomTariff {
        id,
        vehicle_type: kind,
        name,
        plate_or_ref: plate,
        description,
        amount,
        rate_unit: unit,
        rate_duration_hours: h,
        rate_duration_minutes: m,
        created_at,
    }
}

/// The unit that a caller's optional text names.
pub open spec fn parse_unit_spec(s: Option<String>) -> Option<RateUnit> {
    match s {
        Some(t) => unit_from_name(lower_of(trim_of(t@))),
        None => None,
    }
}

} // verus!
