//! Read paths over the sessions (by plate, by prefix, debts, plate-kind
//! conflicts) and the operator's corrections: deleting a session, or keeping
//! one session of a conflicting plate and deleting the rest.
use vstd::prelude::*;

use crate::access::AppState;
use crate::permissions::{CAJA_DEBTORS_READ, VEHICULOS_ENTRIES_DELETE, VEHICULOS_ENTRIES_READ};
use crate::store::{clash, sessions_wf, ParkingError, ParkingLot};
use crate::text::{same_text, starts_with_text, trim_of, upper_of};
use crate::treasury::Transaction;
use crate::vehicles::{debt_of, normalize_plate_for_index, plate_debt, Vehicle, VehicleStatus};

verus! {

/// Whether a session's plate is `plate`, or starts with it.
pub open spec fn plate_hit(v: Vehicle, plate: Seq<char>, prefix: bool) -> bool {
    if prefix {
        plate.len() <= v.plate@.len() && v.plate@.subrange(0, plate.len() as int) == plate
    } else {
        v.plate@ == plate
    }
}

/// The sessions whose plate is `plate` (or starts with it), newest first:
/// the reverse of the order in which they were stored.
pub open spec fn newest_first(s: Seq<Vehicle>, plate: Seq<char>, prefix: bool) -> Seq<Vehicle>
    decreases s.len(),
{
    if s.len() == 0 {
        Seq::empty()
    } else {
        let rest = newest_first(s.drop_last(), plate, prefix);
        if plate_hit(s.last(), plate, prefix) {
            seq![s.last()] + rest
        } else {
            rest
        }
    }
}

/// Whether a deletion takes a session: the session with `id` when no plate
/// is given, else the sessions of `plate` but the one with `id`.
pub open spec fn deleted(v: Vehicle, plate: Option<Seq<char>>, id: Seq<char>) -> bool {
    match plate {
        None => v.id@ == id,
        Some(p) => v.plate@ == p && v.id@ != id,
    }
}

/// The sessions a deletion keeps, in stored order.
pub open spec fn without(s: Seq<Vehicle>, plate: Option<Seq<char>>, id: Seq<char>) -> Seq<Vehicle>
    decreases s.len(),
{
    if s.len() == 0 {
        Seq::empty()
    } else {
        let rest = without(s.drop_last(), plate, id);
        if deleted(s.last(), plate, id) {
            rest
        } else {
            rest.push(s.last())
        }
    }
}

/// The ids of the sessions a deletion takes, in stored order.
pub open spec fn deleted_ids(s: Seq<Vehicle>, plate: Option<Seq<char>>, id: Seq<char>) -> Seq<Seq<char>>
    decreases s.len(),
{
    if s.len() == 0 {
        Seq::empty()
    } else {
        let rest = deleted_ids(s.drop_last(), plate, id);
        if deleted(s.last(), plate, id) {
            rest.push(s.last().id@)
        } else {
            rest
        }
    }
}

/// The payments that do not belong to any of `ids`, in stored order.
pub open spec fn payments_without(s: Seq<Transaction>, ids: Seq<Seq<char>>) -> Seq<Transaction>
    decreases s.len(),
{
    if s.len() == 0 {
        Seq::empty()
    } else {
        let rest = payments_without(s.drop_last(), ids);
        if ids.contains(s.last().vehicle_id@) {
            rest
        } else {
            rest.push(s.last())
        }
    }
}

/// The sum of every positive debt.
pub open spec fn all_debt(s: Seq<Vehicle>) -> nat
    decreases s.len(),
{
    if s.len() == 0 {
        0
    } else {
        all_debt(s.drop_last()) + debt_of(s.last())
    }
}

/// Whether sessions of this plate were recorded under more than one kind.
pub open spec fn plate_in_conflict(s: Seq<Vehicle>, plate: Seq<char>) -> bool {
    plate.len() > 0 && exists|i: int, j: int|
        0 <= i < s.len() && 0 <= j < s.len() && #[trigger] s[i].plate@ == plate && #[trigger] s[j].plate@ == plate
            && s[i].vehicle_type != s[j].vehicle_type
}

/// Whether every plate recorded under several kinds is listed.
pub open spec fn lists_every_conflict(s: Seq<Vehicle>, l: Seq<PlateConflict>) -> bool {
    forall|p: Seq<char>| #[trigger] plate_in_conflict(s, p) ==> exists|k: int| 0 <= k < l.len() && l[k].plate@ == p
}

/// A plate recorded under several kinds, with all of its sessions.
#[derive(Debug, Clone)]
pub struct PlateConflict {
    pub plate: String,
    pub vehicles: Vec<Vehicle>,
}

/// The sessions whose plate is `plate` (or starts with it), newest first.
fn collect_newest_first(s: &Vec<Vehicle>, plate: &str, prefix: bool) -> (r: Vec<Vehicle>)
    ensures
        r@ == newest_first(s@, plate@, prefix),
{
    let mut out: Vec<Vehicle> = Vec::new();
    let mut k: usize = s.len();
    proof {
        assert(s@.subrange(0, k as int) =~= s@);
        assert(out@ + s@ =~= s@);
    }
    while k > 0
        invariant
            k <= s@.len(),
            newest_first(s@, plate@, prefix) == out@ + newest_first(s@.subrange(0, k as int), plate@, prefix),
        decreases k,
    {
        let ghost pre = s@.subrange(0, k as int);
        proof {
            assert(pre.drop_last() =~= s@.subrange(0, k - 1));
            assert(pre.last() == s@[k - 1]);
        }
        let v = &s[k - 1];
        let hit = if prefix {
            starts_with_text(v.plate.as_str(), plate)
        } else {
            same_text(v.plate.as_str(), plate)
        };
        let ghost before = out@;
        if hit {
            out.push(v.snapshot());
            proof {
                assert(out@ + newest_first(s@.subrange(0, k - 1), plate@, prefix) =~= before + (seq![s@[k - 1]]
                    + newest_first(s@.subrange(0, k - 1), plate@, prefix)));
            }
        }
        k = k - 1;
    }
    proof {
        assert(s@.subrange(0, 0) =~= Seq::<Vehicle>::empty());
        assert(out@ + Seq::<Vehicle>::empty() =~= out@);
    }
    out
}

/// The sessions a deletion keeps (see `deleted`), the ids of those it
/// takes, and where each kept session stood.
fn retain_sessions(s: &Vec<Vehicle>, plate: Option<&str>, id: &str) -> (r: (Vec<Vehicle>, Vec<String>, Ghost<Seq<int>>))
    ensures
        r.0@ == without(s@, opt_view(plate), id@),
        crate::access::texts(r.1@) == deleted_ids(s@, opt_view(plate), id@),
        forall|x: Seq<char>|
            crate::access::texts(r.1@).contains(x) <==> exists|i: int|
                0 <= i < s@.len() && #[trigger] s@[i].id@ == x && deleted(s@[i], opt_view(plate), id@),
        r.2@.len() == r.0@.len(),
        forall|k: int| 0 <= k < r.0@.len() ==> 0 <= #[trigger] r.2@[k] < s@.len() && r.0@[k] == s@[r.2@[k]],
        forall|a: int, b: int| 0 <= a < b < r.0@.len() ==> #[trigger] r.2@[a] < #[trigger] r.2@[b],
{
    let ghost pl = opt_view(plate);
    let mut out: Vec<Vehicle> = Vec::new();
    let mut gone: Vec<String> = Vec::new();
    let ghost mut idx: Seq<int> = Seq::empty();
    let mut i: usize = 0;
    while i < s.len()
        invariant
            i <= s@.len(),
            pl == opt_view(plate),
            out@ == without(s@.subrange(0, i as int), pl, id@),
            crate::access::texts(gone@) == deleted_ids(s@.subrange(0, i as int), pl, id@),
            forall|x: Seq<char>|
                crate::access::texts(gone@).contains(x) <==> exists|j: int|
                    0 <= j < i && #[trigger] s@[j].id@ == x && deleted(s@[j], pl, id@),
            idx.len() == out@.len(),
            forall|k: int| 0 <= k < out@.len() ==> 0 <= #[trigger] idx[k] < i && out@[k] == s@[idx[k]],
            forall|a: int, b: int| 0 <= a < b < out@.len() ==> #[trigger] idx[a] < #[trigger] idx[b],
        decreases s@.len() - i,
    {
        proof {
            let next = s@.subrange(0, i as int + 1);
            assert(next.drop_last() =~= s@.subrange(0, i as int));
            assert(next.last() == s@[i as int]);
        }
        let v = &s[i];
        let hit = match plate {
            None => same_text(v.id.as_str(), id),
            Some(p) => same_text(v.plate.as_str(), p) && !same_text(v.id.as_str(), id),
        };
        let ghost g0 = crate::access::texts(gone@);
        if hit {
            gone.push(v.id.clone());
            proof {
                assert(crate::access::texts(gone@) =~= g0.push(v.id@));
                assert forall|x: Seq<char>|
                    crate::access::texts(gone@).contains(x) <==> exists|j: int|
                        0 <= j < i + 1 && #[trigger] s@[j].id@ == x && deleted(s@[j], pl, id@) by {
                    if crate::access::texts(gone@).contains(x) {
                        if x != v.id@ {
                            let k = choose|k: int| 0 <= k < crate::access::texts(gone@).len() && crate::access::texts(gone@)[k] == x;
                            assert(g0[k] == x);
                            assert(g0.contains(x));
                        } else {
                            assert(s@[i as int].id@ == x && deleted(s@[i as int], pl, id@));
                        }
                    }
                    if exists|j: int| 0 <= j < i + 1 && #[trigger] s@[j].id@ == x && deleted(s@[j], pl, id@) {
                        let j = choose|j: int| 0 <= j < i + 1 && #[trigger] s@[j].id@ == x && deleted(s@[j], pl, id@);
                        if j < i {
                            assert(g0.contains(x));
                            let k = choose|k: int| 0 <= k < g0.len() && g0[k] == x;
                            assert(crate::access::texts(gone@)[k] == x);
                        } else {
                            assert(crate::access::texts(gone@)[g0.len() as int] == x);
                        }
                    }
                }
            }
        } else {
            let ghost before = out@;
            out.push(v.snapshot());
            proof {
                idx = idx.push(i as int);
                assert forall|x: Seq<char>|
                    crate::access::texts(gone@).contains(x) <==> exists|j: int|
                        0 <= j < i + 1 && #[trigger] s@[j].id@ == x && deleted(s@[j], pl, id@) by {
                    if exists|j: int| 0 <= j < i + 1 && #[trigger] s@[j].id@ == x && deleted(s@[j], pl, id@) {
                        let j = choose|j: int| 0 <= j < i + 1 && #[trigger] s@[j].id@ == x && deleted(s@[j], pl, id@);
                        assert(j < i);
                    }
                }
            }
        }
        i = i + 1;
    }
    proof {
        assert(s@.subrange(0, s@.len() as int) =~= s@);
    }
    (out, gone, Ghost(idx))
}

/// The view of an optional text.
pub open spec fn opt_view(s: Option<&str>) -> Option<Seq<char>> {
    match s {
        Some(t) => Some(t@),
        None => None,
    }
}

/// The payments that belong to none of `ids`.
fn retain_payments(s: &Vec<Transaction>, ids: &Vec<String>) -> (r: Vec<Transaction>)
    ensures
        r@ == payments_without(s@, crate::access::texts(ids@)),
{
    let ghost g = crate::access::texts(ids@);
    let mut out: Vec<Transaction> = Vec::new();
    let mut i: usize = 0;
    while i < s.len()
        invariant
            i <= s@.len(),
            g == crate::access::texts(ids@),
            out@ == payments_without(s@.subrange(0, i as int), g),
        decreases s@.len() - i,
    {
        proof {
            let next = s@.subrange(0, i as int + 1);
            assert(next.drop_last() =~= s@.subrange(0, i as int));
            assert(next.last() == s@[i as int]);
        }
        let t = &s[i];
        let hit = crate::text::contains_text(ids, t.vehicle_id.as_str());
        proof {
            if hit {
                let k = choose|k: int| 0 <= k < ids@.len() && #[trigger] ids@[k]@ == t.vehicle_id@;
                assert(g[k] == t.vehicle_id@);
            } else {
                assert forall|k: int| 0 <= k < g.len() implies g[k] != t.vehicle_id@ by {
                    assert(ids@[k]@ != t.vehicle_id@);
                }
            }
        }
        if !hit {
            out.push(Transaction {
                id: t.id.clone(),
                vehicle_id: t.vehicle_id.clone(),
                amount: t.amount,
                method: t.method,
                created_at: t.created_at,
            });
        }
        i = i + 1;
    }
    proof {
        assert(s@.subrange(0, s@.len() as int) =~= s@);
    }
    out
}

/// Whether the plate of the session at `i` was recorded under several
/// kinds.
fn conflict_at(s: &Vec<Vehicle>, i: usize) -> (r: bool)
    requires
        i < s@.len(),
    ensures
        r == plate_in_conflict(s@, s@[i as int].plate@),
{
    let p = s[i].plate.as_str();
    if p.unicode_len() == 0 {
        return false;
    }
    let t = s[i].vehicle_type;
    let mut j: usize = 0;
    while j < s.len()
        invariant
            j <= s@.len(),
            i < s@.len(),
            p@ == s@[i as int].plate@,
            p@.len() > 0,
            t == s@[i as int].vehicle_type,
            forall|k: int| 0 <= k < j ==> !(#[trigger] s@[k].plate@ == p@ && s@[k].vehicle_type != t),
        decreases s@.len() - j,
    {
        if same_text(s[j].plate.as_str(), p) && s[j].vehicle_type != t {
            proof {
                assert(s@[j as int].plate@ == p@ && s@[i as int].plate@ == p@);
            }
            return true;
        }
        j = j + 1;
    }
    proof {
        if plate_in_conflict(s@, p@) {
            let (a, b) = choose|a: int, b: int|
                0 <= a < s@.len() && 0 <= b < s@.len() && #[trigger] s@[a].plate@ == p@ && #[trigger] s@[b].plate@
                    == p@ && s@[a].vehicle_type != s@[b].vehicle_type;
            assert(s@[a].vehicle_type == t);
            assert(s@[b].vehicle_type == t);
        }
    }
    false
}

/// Whether a listed conflict already names this plate.
fn listed(out: &Vec<PlateConflict>, p: &str) -> (r: bool)
    ensures
        r == exists|k: int| 0 <= k < out@.len() && #[trigger] out@[k].plate@ == p@,
{
    let mut k: usize = 0;
    while k < out.len()
        invariant
            k <= out@.len(),
            forall|m: int| 0 <= m < k ==> #[trigger] out@[m].plate@ != p@,
        decreases out@.len() - k,
    {
        if same_text(out[k].plate.as_str(), p) {
            return true;
        }
        k = k + 1;
    }
    false
}

/// The sessions of `plate` that owe something, newest first.
pub open spec fn owing_newest_first(s: Seq<Vehicle>, plate: Seq<char>) -> Seq<Vehicle>
    decreases s.len(),
{
    if s.len() == 0 {
        Seq::empty()
    } else {
        let rest = owing_newest_first(s.drop_last(), plate);
        if s.last().plate@ == plate && debt_of(s.last()) > 0 {
            seq![s.last()] + rest
        } else {
            rest
        }
    }
}

/// The payments of the sessions with these ids, newest first.
pub open spec fn payments_newest_first(t: Seq<Transaction>, ids: Seq<Seq<char>>) -> Seq<Transaction>
    decreases t.len(),
{
    if t.len() == 0 {
        Seq::empty()
    } else {
        let rest = payments_newest_first(t.drop_last(), ids);
        if ids.contains(t.last().vehicle_id@) {
            seq![t.last()] + rest
        } else {
            rest
        }
    }
}

/// The ids of a list of sessions.
pub open spec fn ids_of(s: Seq<Vehicle>) -> Seq<Seq<char>> {
    s.map_values(|v: Vehicle| v.id@)
}

/// The sessions of a plate that owe, and their payments.
#[derive(Debug, Clone)]
pub struct DebtDetailByPlateResult {
    pub sessions: Vec<Vehicle>,
    pub transactions: Vec<Transaction>,
}

fn copy_transaction(t: &Transaction) -> (r: Transaction)
    ensures
        r == *t,
{
    Transaction {
        id: t.id.clone(),
        vehicle_id: t.vehicle_id.clone(),
        amount: t.amount,
        method: t.method,
        created_at: t.created_at,
    }
}

/// The sessions of `plate` that owe, newest first, with their ids.
fn collect_owing(s: &Vec<Vehicle>, plate: &str) -> (r: (Vec<Vehicle>, Vec<String>))
    ensures
        r.0@ == owing_newest_first(s@, plate@),
        crate::access::texts(r.1@) == ids_of(r.0@),
{
    let mut out: Vec<Vehicle> = Vec::new();
    let mut ids: Vec<String> = Vec::new();
    let mut k: usize = s.len();
    proof {
        assert(s@.subrange(0, k as int) =~= s@);
        assert(out@ + s@ =~= s@);
    }
    while k > 0
        invariant
            k <= s@.len(),
            owing_newest_first(s@, plate@) == out@ + owing_newest_first(s@.subrange(0, k as int), plate@),
            crate::access::texts(ids@) == ids_of(out@),
        decreases k,
    {
        let ghost pre = s@.subrange(0, k as int);
        proof {
            assert(pre.drop_last() =~= s@.subrange(0, k - 1));
            assert(pre.last() == s@[k - 1]);
        }
        let v = &s[k - 1];
        let owing = match v.debt {
            Some(d) => d > 0,
            None => false,
        };
        if owing && same_text(v.plate.as_str(), plate) {
            let ghost before = out@;
            let ghost bids = crate::access::texts(ids@);
            out.push(v.snapshot());
            ids.push(v.id.clone());
            proof {
                assert(out@ + owing_newest_first(s@.subrange(0, k - 1), plate@) =~= before + (seq![s@[k - 1]]
                    + owing_newest_first(s@.subrange(0, k - 1), plate@)));
                assert(crate::access::texts(ids@) =~= bids.push(s@[k - 1].id@));
                assert(ids_of(out@) =~= ids_of(before).push(s@[k - 1].id@));
            }
        }
        k = k - 1;
    }
    proof {
        assert(s@.subrange(0, 0) =~= Seq::<Vehicle>::empty());
        assert(out@ + Seq::<Vehicle>::empty() =~= out@);
    }
    (out, ids)
}

/// The payments of the sessions with these ids, newest first.
fn collect_payments(t: &Vec<Transaction>, ids: &Vec<String>) -> (r: Vec<Transaction>)
    ensures
        r@ == payments_newest_first(t@, crate::access::texts(ids@)),
{
    let ghost g = crate::access::texts(ids@);
    let mut out: Vec<Transaction> = Vec::new();
    let mut k: usize = t.len();
    proof {
        assert(t@.subrange(0, k as int) =~= t@);
        assert(out@ + t@ =~= t@);
    }
    while k > 0
        invariant
            k <= t@.len(),
            g == crate::access::texts(ids@),
            payments_newest_first(t@, g) == out@ + payments_newest_first(t@.subrange(0, k as int), g),
        decreases k,
    {
        let ghost pre = t@.subrange(0, k as int);
        proof {
            assert(pre.drop_last() =~= t@.subrange(0, k - 1));
            assert(pre.last() == t@[k - 1]);
        }
        let x = &t[k - 1];
        let hit = crate::text::contains_text(ids, x.vehicle_id.as_str());
        proof {
            if hit {
                let q = choose|q: int| 0 <= q < ids@.len() && #[trigger] ids@[q]@ == x.vehicle_id@;
                assert(g[q] == x.vehicle_id@);
            } else {
                assert forall|q: int| 0 <= q < g.len() implies g[q] != x.vehicle_id@ by {
                    assert(ids@[q]@ != x.vehicle_id@);
                }
            }
        }
        if hit {
            let ghost before = out@;
            out.push(copy_transaction(x));
            proof {
                assert(out@ + payments_newest_first(t@.subrange(0, k - 1), g) =~= before + (seq![t@[k - 1]]
                    + payments_newest_first(t@.subrange(0, k - 1), g)));
            }
        }
        k = k - 1;
    }
    proof {
        assert(t@.subrange(0, 0) =~= Seq::<Transaction>::empty());
        assert(out@ + Seq::<Transaction>::empty() =~= out@);
    }
    out
}

/// Keeping a subsequence of the sessions keeps the invariant.
proof fn lemma_subsequence_keeps_wf(s: Seq<Vehicle>, r: Seq<Vehicle>, idx: Seq<int>)
    requires
        sessions_wf(s),
        idx.len() == r.len(),
        forall|k: int| 0 <= k < r.len() ==> 0 <= #[trigger] idx[k] < s.len() && r[k] == s[idx[k]],
        forall|a: int, b: int| 0 <= a < b < r.len() ==> #[trigger] idx[a] < #[trigger] idx[b],
    ensures
        sessions_wf(r),
{
    reveal(sessions_wf);
    assert forall|a: int, b: int|
        0 <= a < r.len() && 0 <= b < r.len() && a != b && #[trigger] r[a].status == VehicleStatus::Active
            && #[trigger] r[b].status == VehicleStatus::Active implies !clash(r[a], r[b]) by {
        if a < b {
            assert(idx[a] < idx[b]);
        } else {
            assert(idx[b] < idx[a]);
        }
        assert(s[idx[a]].status == VehicleStatus::Active);
        assert(s[idx[b]].status == VehicleStatus::Active);
    }
}

impl ParkingLot {
    /// Every session of a plate (trimmed, upper-cased), newest first.
    pub fn vehicles_by_plate(&self, access: &AppState, plate: &str) -> (r: Result<Vec<Vehicle>, ParkingError>)
        ensures
            r is Err <==> !access.allows(VEHICULOS_ENTRIES_READ@),
            r is Err ==> r->Err_0 is Access,
            r matches Ok(l) ==> l@ == newest_first(self.vehicles@, upper_of(trim_of(plate@)), false),
    {
        if let Err(e) = access.check_permission(VEHICULOS_ENTRIES_READ) {
            return Err(ParkingError::Access(e));
        }
        let key = normalize_plate_for_index(plate);
        Ok(collect_newest_first(&self.vehicles, key.as_str(), false))
    }

    /// Every session whose plate starts with a prefix (trimmed,
    /// upper-cased), newest first.
    pub fn search_vehicles_by_plate_prefix(&self, access: &AppState, plate_prefix: &str) -> (r: Result<
        Vec<Vehicle>,
        ParkingError,
    >)
        ensures
            r is Err <==> !access.allows(VEHICULOS_ENTRIES_READ@),
            r is Err ==> r->Err_0 is Access,
            r matches Ok(l) ==> l@ == newest_first(self.vehicles@, upper_of(trim_of(plate_prefix@)), true),
    {
        if let Err(e) = access.check_permission(VEHICULOS_ENTRIES_READ) {
            return Err(ParkingError::Access(e));
        }
        let key = normalize_plate_for_index(plate_prefix);
        Ok(collect_newest_first(&self.vehicles, key.as_str(), true))
    }

    /// What a plate (trimmed, upper-cased) owes: the sum of the positive
    /// debts of its sessions.
    pub fn plate_debt(&self, access: &AppState, plate: &str) -> (r: Result<u64, ParkingError>)
        ensures
            !access.allows(VEHICULOS_ENTRIES_READ@) ==> r is Err && r->Err_0 is Access,
            access.allows(VEHICULOS_ENTRIES_READ@) ==> (r == Err::<u64, ParkingError>(ParkingError::AmountOverflow)
                <==> plate_debt(self.vehicles@, upper_of(trim_of(plate@))) > u64::MAX),
            r matches Ok(d) ==> d == plate_debt(self.vehicles@, upper_of(trim_of(plate@))),
            access.allows(VEHICULOS_ENTRIES_READ@) && plate_debt(self.vehicles@, upper_of(trim_of(plate@))) <= u64::MAX
                ==> r is Ok,
    {
        if let Err(e) = access.check_permission(VEHICULOS_ENTRIES_READ) {
            return Err(ParkingError::Access(e));
        }
        let key = normalize_plate_for_index(plate);
        let mut total: u64 = 0;
        let mut j: usize = 0;
        while j < self.vehicles.len()
            invariant
                j <= self.vehicles@.len(),
                access.allows(VEHICULOS_ENTRIES_READ@),
                key@ == upper_of(trim_of(plate@)),
                total == plate_debt(self.vehicles@.subrange(0, j as int), key@),
            decreases self.vehicles@.len() - j,
        {
            proof {
                let s = self.vehicles@.subrange(0, j as int + 1);
                assert(s.drop_last() =~= self.vehicles@.subrange(0, j as int));
                assert(s.last() == self.vehicles@[j as int]);
            }
            if same_text(self.vehicles[j].plate.as_str(), key.as_str()) {
                if let Some(d) = self.vehicles[j].debt {
                    if d > u64::MAX - total {
                        proof {
                            crate::vehicles::lemma_plate_debt_prefix_grows(self.vehicles@, key@, j as int + 1);
                        }
                        return Err(ParkingError::AmountOverflow);
                    }
                    total = total + d;
                }
            }
            j = j + 1;
        }
        proof {
            assert(self.vehicles@.subrange(0, self.vehicles@.len() as int) =~= self.vehicles@);
        }
        Ok(total)
    }

    /// The sessions of a plate (trimmed, upper-cased) that owe something,
    /// newest first, and the payments recorded for them, newest first.
    pub fn debt_detail_by_plate(&self, access: &AppState, plate: &str) -> (r: Result<
        DebtDetailByPlateResult,
        ParkingError,
    >)
        ensures
            r is Err <==> !access.allows(CAJA_DEBTORS_READ@),
            r is Err ==> r->Err_0 is Access,
            r matches Ok(d) ==> d.sessions@ == owing_newest_first(self.vehicles@, upper_of(trim_of(plate@)))
                && d.transactions@ == payments_newest_first(self.transactions@, ids_of(d.sessions@)),
    {
        if let Err(e) = access.check_permission(CAJA_DEBTORS_READ) {
            return Err(ParkingError::Access(e));
        }
        let key = normalize_plate_for_index(plate);
        let (sessions, ids) = collect_owing(&self.vehicles, key.as_str());
        let transactions = collect_payments(&self.transactions, &ids);
        Ok(DebtDetailByPlateResult { sessions, transactions })
    }

    /// What all plates owe together.
    pub fn total_debt(&self, access: &AppState) -> (r: Result<u64, ParkingError>)
        ensures
            !access.allows(CAJA_DEBTORS_READ@) ==> r is Err && r->Err_0 is Access,
            access.allows(CAJA_DEBTORS_READ@) ==> (r == Err::<u64, ParkingError>(ParkingError::AmountOverflow)
                <==> all_debt(self.vehicles@) > u64::MAX),
            r matches Ok(d) ==> d == all_debt(self.vehicles@),
            access.allows(CAJA_DEBTORS_READ@) && all_debt(self.vehicles@) <= u64::MAX ==> r is Ok,
    {
        if let Err(e) = access.check_permission(CAJA_DEBTORS_READ) {
            return Err(ParkingError::Access(e));
        }
        let mut total: u64 = 0;
        let mut j: usize = 0;
        while j < self.vehicles.len()
            invariant
                j <= self.vehicles@.len(),
                access.allows(CAJA_DEBTORS_READ@),
                total == all_debt(self.vehicles@.subrange(0, j as int)),
            decreases self.vehicles@.len() - j,
        {
            proof {
                let s = self.vehicles@.subrange(0, j as int + 1);
                assert(s.drop_last() =~= self.vehicles@.subrange(0, j as int));
                assert(s.last() == self.vehicles@[j as int]);
            }
            if let Some(d) = self.vehicles[j].debt {
                if d > u64::MAX - total {
                    proof {
                        lemma_all_debt_prefix_grows(self.vehicles@, j as int + 1);
                    }
                    return Err(ParkingError::AmountOverflow);
                }
                total = total + d;
            }
            j = j + 1;
        }
        proof {
            assert(self.vehicles@.subrange(0, self.vehicles@.len() as int) =~= self.vehicles@);
        }
        Ok(total)
    }

    /// The plates recorded under more than one kind, each once, in the order
    /// their first session was stored, with all of their sessions newest
    /// first.
    pub fn plate_conflicts(&self, access: &AppState) -> (r: Result<Vec<PlateConflict>, ParkingError>)
        ensures
            r is Err <==> !access.allows(VEHICULOS_ENTRIES_READ@),
            r is Err ==> r->Err_0 is Access,
            r matches Ok(l) ==> forall|k: int|
                0 <= k < l@.len() ==> plate_in_conflict(self.vehicles@, #[trigger] l@[k].plate@) && l@[k].vehicles@
                    == newest_first(self.vehicles@, l@[k].plate@, false),
            r matches Ok(l) ==> lists_every_conflict(self.vehicles@, l@),
            r matches Ok(l) ==> forall|a: int, b: int|
                0 <= a < b < l@.len() ==> #[trigger] l@[a].plate@ != #[trigger] l@[b].plate@,
    {
        if let Err(e) = access.check_permission(VEHICULOS_ENTRIES_READ) {
            return Err(ParkingError::Access(e));
        }
        let s = &self.vehicles;
        let mut out: Vec<PlateConflict> = Vec::new();
        let mut i: usize = 0;
        while i < s.len()
            invariant
                i <= s@.len(),
                forall|k: int|
                    0 <= k < out@.len() ==> plate_in_conflict(s@, #[trigger] out@[k].plate@) && out@[k].vehicles@
                        == newest_first(s@, out@[k].plate@, false),
                forall|m: int|
                    0 <= m < i && plate_in_conflict(s@, #[trigger] s@[m].plate@) ==> exists|k: int|
                        0 <= k < out@.len() && #[trigger] out@[k].plate@ == s@[m].plate@,
                forall|a: int, b: int| 0 <= a < b < out@.len() ==> #[trigger] out@[a].plate@ != #[trigger] out@[b].plate@,
            decreases s@.len() - i,
        {
            if conflict_at(s, i) && !listed(&out, s[i].plate.as_str()) {
                let ghost before = out@;
                let c = PlateConflict { plate: s[i].plate.clone(), vehicles: collect_newest_first(s, s[i].plate.as_str(), false) };
                out.push(c);
                proof {
                    assert forall|m: int|
                        0 <= m < i + 1 && plate_in_conflict(s@, #[trigger] s@[m].plate@) implies exists|k: int|
                            0 <= k < out@.len() && #[trigger] out@[k].plate@ == s@[m].plate@ by {
                        if m < i {
                            let k = choose|k: int| 0 <= k < before.len() && #[trigger] before[k].plate@ == s@[m].plate@;
                            assert(out@[k] == before[k]);
                        } else {
                            assert(out@[before.len() as int].plate@ == s@[m].plate@);
                        }
                    }
                    assert forall|a: int, b: int| 0 <= a < b < out@.len() implies #[trigger] out@[a].plate@
                        != #[trigger] out@[b].plate@ by {
                        if b == before.len() {
                            assert(out@[a] == before[a]);
                        } else {
                            assert(out@[a] == before[a] && out@[b] == before[b]);
                        }
                    }
                    assert forall|k: int| 0 <= k < out@.len() implies plate_in_conflict(s@, #[trigger] out@[k].plate@)
                        && out@[k].vehicles@ == newest_first(s@, out@[k].plate@, false) by {
                        if k < before.len() {
                            assert(out@[k] == before[k]);
                        }
                    }
                }
            }
            i = i + 1;
        }
        proof {
            assert forall|p: Seq<char>| #[trigger] plate_in_conflict(self.vehicles@, p) implies exists|k: int|
                0 <= k < out@.len() && out@[k].plate@ == p by {
                let (a, b) = choose|a: int, b: int|
                    0 <= a < s@.len() && 0 <= b < s@.len() && #[trigger] s@[a].plate@ == p && #[trigger] s@[b].plate@ == p
                        && s@[a].vehicle_type != s@[b].vehicle_type;
                assert(plate_in_conflict(s@, s@[a].plate@));
                let k = choose|k: int| 0 <= k < out@.len() && #[trigger] out@[k].plate@ == s@[a].plate@;
                assert(out@[k].plate@ == p);
            }
            assert(lists_every_conflict(self.vehicles@, out@));
        }
        Ok(out)
    }

    /// Deletes every session with this id and the payments recorded for
    /// it; turned down when no session has the id.
    pub fn delete_vehicle(&mut self, access: &AppState, vehicle_id: &str) -> (r: Result<(), ParkingError>)
        ensures
            !access.allows(VEHICULOS_ENTRIES_DELETE@) ==> r is Err && r->Err_0 is Access,
            r is Err ==> *final(self) == *old(self),
            access.allows(VEHICULOS_ENTRIES_DELETE@) ==> (r == Err::<(), ParkingError>(ParkingError::NotFound) <==> !exists|i: int|
                0 <= i < old(self).vehicles@.len() && #[trigger] old(self).vehicles@[i].id@ == vehicle_id@),
            access.allows(VEHICULOS_ENTRIES_DELETE@) && (exists|i: int|
                0 <= i < old(self).vehicles@.len() && #[trigger] old(self).vehicles@[i].id@ == vehicle_id@) ==> r is Ok,
            r is Ok ==> final(self).vehicles@ == without(old(self).vehicles@, None, vehicle_id@)
                && final(self).transactions@ == payments_without(old(self).transactions@, seq![vehicle_id@]),
            old(self).wf() ==> final(self).wf(),
    {
        if let Err(e) = access.check_permission(VEHICULOS_ENTRIES_DELETE) {
            return Err(ParkingError::Access(e));
        }
        let (kept, gone, Ghost(idx)) = retain_sessions(&self.vehicles, None, vehicle_id);
        if gone.len() == 0 {
            proof {
                if exists|i: int| 0 <= i < old(self).vehicles@.len() && #[trigger] old(self).vehicles@[i].id@ == vehicle_id@ {
                    let i = choose|i: int| 0 <= i < old(self).vehicles@.len() && #[trigger] old(self).vehicles@[i].id@ == vehicle_id@;
                    assert(crate::access::texts(gone@).contains(vehicle_id@));
                }
            }
            return Err(ParkingError::NotFound);
        }
        let mut ids: Vec<String> = Vec::new();
        ids.push(String::from_str(vehicle_id));
        let payments = retain_payments(&self.transactions, &ids);
        proof {
            assert(crate::access::texts(ids@) =~= seq![vehicle_id@]);
            let x = crate::access::texts(gone@)[0];
            assert(crate::access::texts(gone@).contains(x));
            if sessions_wf(self.vehicles@) {
                lemma_subsequence_keeps_wf(self.vehicles@, kept@, idx);
            }
        }
        self.vehicles = kept;
        self.transactions = payments;
        Ok(())
    }

    /// Settles a plate recorded under several kinds: keeps the session with
    /// `keep_vehicle_id` and deletes the plate's other sessions with their
    /// payments; turned down when that session is not of the plate.
    pub fn resolve_plate_conflict(&mut self, access: &AppState, plate: &str, keep_vehicle_id: &str) -> (r: Result<
        (),
        ParkingError,
    >)
        ensures
            !access.allows(VEHICULOS_ENTRIES_DELETE@) ==> r is Err && r->Err_0 is Access,
            r is Err ==> *final(self) == *old(self),
            access.allows(VEHICULOS_ENTRIES_DELETE@) ==> (r == Err::<(), ParkingError>(ParkingError::NotFound) <==> !exists|i: int|
                0 <= i < old(self).vehicles@.len() && #[trigger] old(self).vehicles@[i].id@ == keep_vehicle_id@
                    && old(self).vehicles@[i].plate@ == upper_of(trim_of(plate@))),
            r is Ok ==> final(self).vehicles@ == without(
                old(self).vehicles@,
                Some(upper_of(trim_of(plate@))),
                keep_vehicle_id@,
            ),
            access.allows(VEHICULOS_ENTRIES_DELETE@) && (exists|i: int|
                0 <= i < old(self).vehicles@.len() && #[trigger] old(self).vehicles@[i].id@ == keep_vehicle_id@
                    && old(self).vehicles@[i].plate@ == upper_of(trim_of(plate@))) ==> r is Ok,
            r is Ok ==> final(self).transactions@ == payments_without(
                old(self).transactions@,
                deleted_ids(old(self).vehicles@, Some(upper_of(trim_of(plate@))), keep_vehicle_id@),
            ),
            old(self).wf() ==> final(self).wf(),
    {
        if let Err(e) = access.check_permission(VEHICULOS_ENTRIES_DELETE) {
            return Err(ParkingError::Access(e));
        }
        let key = normalize_plate_for_index(plate);
        let mut found = false;
        let mut i: usize = 0;
        while i < self.vehicles.len()
            invariant
                i <= self.vehicles@.len(),
                !found ==> forall|k: int|
                    0 <= k < i ==> !(#[trigger] self.vehicles@[k].id@ == keep_vehicle_id@ && self.vehicles@[k].plate@
                        == key@),
                found ==> exists|k: int|
                    0 <= k < self.vehicles@.len() && #[trigger] self.vehicles@[k].id@ == keep_vehicle_id@
                        && self.vehicles@[k].plate@ == key@,
            decreases self.vehicles@.len() - i,
        {
            if !found && same_text(self.vehicles[i].id.as_str(), keep_vehicle_id) && same_text(
                self.vehicles[i].plate.as_str(),
                key.as_str(),
            ) {
                found = true;
            }
            i = i + 1;
        }
        if !found {
            return Err(ParkingError::NotFound);
        }
        let (kept, gone, Ghost(idx)) = retain_sessions(&self.vehicles, Some(key.as_str()), keep_vehicle_id);
        let payments = retain_payments(&self.transactions, &gone);
        proof {
            if sessions_wf(self.vehicles@) {
                lemma_subsequence_keeps_wf(self.vehicles@, kept@, idx);
            }
        }
        self.vehicles = kept;
        self.transactions = payments;
        Ok(())
    }
}

/// The debt of a prefix of the sessions never exceeds that of all of them.
proof fn lemma_all_debt_prefix_grows(s: Seq<Vehicle>, j: int)
    requires
        0 <= j <= s.len(),
    ensures
        all_debt(s.subrange(0, j)) <= all_debt(s),
    decreases s.len() - j,
{
    if j < s.len() {
        lemma_all_debt_prefix_grows(s, j + 1);
        assert(s.subrange(0, j + 1).drop_last() =~= s.subrange(0, j));
    } else {
        assert(s.subrange(0, j) =~= s);
    }
}

} // verus!
