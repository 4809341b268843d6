//! The debtors' list: every plate whose sessions still owe something, with
//! what it owes in all, how many of its sessions owe, and the oldest exit
//! among those, largest debt first.
use vstd::prelude::*;

use crate::access::AppState;
use crate::permissions::CAJA_DEBTORS_READ;
use crate::store::{ParkingError, ParkingLot};
use crate::text::same_text;
use crate::vehicles::{debt_of, plate_debt, Vehicle};

verus! {

/// Default page size of the list.
pub const DEFAULT_LIST_LIMIT: u32 = 50;

/// Largest page size of the list.
pub const MAX_LIST_LIMIT: u32 = 500;

/// One plate that owes.
#[derive(Debug, Clone, Copy)]
pub struct DebtorStats {
    pub total_debt: u64,
    pub sessions_with_debt: u64,
    pub oldest_exit_time: Option<u64>,
}

/// One plate that owes, with its figures.
#[derive(Debug, Clone)]
pub struct DebtorEntry {
    pub plate: String,
    pub total_debt: u64,
    pub sessions_with_debt: u64,
    pub oldest_exit_time: Option<u64>,
}

/// A page of the debtors' list and the number of debtors in all.
#[derive(Debug, Clone)]
pub struct ListDebtorsResult {
    pub items: Vec<DebtorEntry>,
    pub total: u64,
}

/// Whether a session of a non-empty plate owes something.
pub open spec fn owes(v: Vehicle) -> bool {
    v.plate@.len() > 0 && debt_of(v) > 0
}

/// How many sessions of the plate owe something.
pub open spec fn debt_count(s: Seq<Vehicle>, plate: Seq<char>) -> nat
    decreases s.len(),
{
    if s.len() == 0 {
        0
    } else {
        debt_count(s.drop_last(), plate) + if s.last().plate@ == plate && debt_of(s.last()) > 0 {
            1nat
        } else {
            0
        }
    }
}

/// The earliest exit among the sessions of the plate that owe.
pub open spec fn oldest_exit(s: Seq<Vehicle>, plate: Seq<char>) -> Option<u64>
    decreases s.len(),
{
    if s.len() == 0 {
        None
    } else {
        let prev = oldest_exit(s.drop_last(), plate);
        let v = s.last();
        if v.plate@ == plate && debt_of(v) > 0 && v.exit_time is Some {
            match prev {
                Some(p) => if v.exit_time->0 < p {
                    v.exit_time
                } else {
                    prev
                },
                None => v.exit_time,
            }
        } else {
            prev
        }
    }
}

/// Whether an entry gives the right figures for its plate.
pub open spec fn entry_ok(s: Seq<Vehicle>, e: DebtorEntry) -> bool {
    &&& e.plate@.len() > 0
    &&& e.total_debt == plate_debt(s, e.plate@)
    &&& e.sessions_with_debt == debt_count(s, e.plate@)
    &&& e.sessions_with_debt > 0
    &&& e.oldest_exit_time == oldest_exit(s, e.plate@)
}

/// The figures of one plate; `None` when its debt does not fit an amount.
fn plate_stats(s: &Vec<Vehicle>, plate: &str) -> (r: Option<DebtorStats>)
    ensures
        r is None <==> plate_debt(s@, plate@) > u64::MAX,
        r matches Some(st) ==> st.total_debt == plate_debt(s@, plate@) && st.sessions_with_debt == debt_count(
            s@,
            plate@,
        ) && st.oldest_exit_time == oldest_exit(s@, plate@),
{
    let mut total: u64 = 0;
    let mut count: u64 = 0;
    let mut oldest: Option<u64> = None;
    let mut j: usize = 0;
    while j < s.len()
        invariant
            j <= s@.len(),
            total == plate_debt(s@.subrange(0, j as int), plate@),
            count == debt_count(s@.subrange(0, j as int), plate@),
            count <= j,
            oldest == oldest_exit(s@.subrange(0, j as int), plate@),
        decreases s@.len() - j,
    {
        proof {
            let t = s@.subrange(0, j as int + 1);
            assert(t.drop_last() =~= s@.subrange(0, j as int));
            assert(t.last() == s@[j as int]);
        }
        let v = &s[j];
        if same_text(v.plate.as_str(), plate) {
            let d: u64 = match v.debt {
                Some(d) => d,
                None => 0,
            };
            if d > u64::MAX - total {
                proof {
                    crate::vehicles::lemma_plate_debt_prefix_grows(s@, plate@, j as int + 1);
                }
                return None;
            }
            total = total + d;
            if d > 0 {
                count = count + 1;
                if let Some(x) = v.exit_time {
                    oldest = match oldest {
                        Some(p) => if x < p {
                            Some(x)
                        } else {
                            Some(p)
                        },
                        None => Some(x),
                    };
                }
            }
        }
        j = j + 1;
    }
    proof {
        assert(s@.subrange(0, s@.len() as int) =~= s@);
    }
    Some(DebtorStats { total_debt: total, sessions_with_debt: count, oldest_exit_time: oldest })
}

/// A session that owes makes its plate count at least one.
proof fn lemma_owing_session_counts(s: Seq<Vehicle>, i: int)
    requires
        0 <= i < s.len(),
        debt_of(s[i]) > 0,
    ensures
        debt_count(s, s[i].plate@) > 0,
    decreases s.len(),
{
    if i < s.len() - 1 {
        lemma_owing_session_counts(s.drop_last(), i);
    }
}

/// Where an entry goes in a list sorted by decreasing debt: after every
/// entry owing at least as much.
fn insertion_point(out: &Vec<DebtorEntry>, total: u64) -> (r: usize)
    requires
        forall|a: int, b: int| 0 <= a < b < out@.len() ==> #[trigger] out@[a].total_debt >= #[trigger] out@[b].total_debt,
    ensures
        r <= out@.len(),
        forall|k: int| 0 <= k < r ==> #[trigger] out@[k].total_debt >= total,
        forall|k: int| r <= k < out@.len() ==> #[trigger] out@[k].total_debt < total,
{
    let mut p: usize = 0;
    while p < out.len() && out[p].total_debt >= total
        invariant
            p <= out@.len(),
            forall|a: int, b: int| 0 <= a < b < out@.len() ==> #[trigger] out@[a].total_debt >= #[trigger] out@[b].total_debt,
            forall|k: int| 0 <= k < p ==> #[trigger] out@[k].total_debt >= total,
        decreases out@.len() - p,
    {
        p = p + 1;
    }
    proof {
        assert forall|k: int| p <= k < out@.len() implies #[trigger] out@[k].total_debt < total by {
            if k > p {
                assert(out@[p as int].total_debt >= out@[k].total_debt);
            }
        }
    }
    p
}

/// Whether a listed entry names this plate.
fn listed_plate(out: &Vec<DebtorEntry>, p: &str) -> (r: bool)
    ensures
        r == exists|k: int| 0 <= k < out@.len() && #[trigger] out@[k].plate@ == p@,
{
    let mut k: usize = 0;
    while k < out.len()
        invariant
            k <= out@.len(),
            forall|m: int| 0 <= m < k ==> #[trigger] out@[m].plate@ != p@,
        decreases out@.len() - k,
    {
        if same_text(out[k].plate.as_str(), p) {
            return true;
        }
        k = k + 1;
    }
    false
}

/// Whether the list holds every plate that owes.
pub open spec fn lists_every_debtor(s: Seq<Vehicle>, l: Seq<DebtorEntry>) -> bool {
    forall|i: int| 0 <= i < s.len() && owes(#[trigger] s[i]) ==> exists|k: int| 0 <= k < l.len() && l[k].plate@ == s[i].plate@
}

/// Whether the list is well formed over the sessions: right figures, each
/// plate once, largest debt first.
pub open spec fn debtors_ok(s: Seq<Vehicle>, l: Seq<DebtorEntry>) -> bool {
    &&& forall|k: int| 0 <= k < l.len() ==> entry_ok(s, #[trigger] l[k])
    &&& forall|a: int, b: int| 0 <= a < b < l.len() ==> #[trigger] l[a].plate@ != #[trigger] l[b].plate@
    &&& forall|a: int, b: int| 0 <= a < b < l.len() ==> #[trigger] l[a].total_debt >= #[trigger] l[b].total_debt
}

/// Every plate that owes, largest debt first; `None` when some plate's debt
/// does not fit an amount.
pub fn all_debtors(s: &Vec<Vehicle>) -> (r: Option<Vec<DebtorEntry>>)
    ensures
        r matches Some(l) ==> debtors_ok(s@, l@) && lists_every_debtor(s@, l@),
        r is None ==> exists|i: int| 0 <= i < s@.len() && owes(#[trigger] s@[i]) && plate_debt(s@, s@[i].plate@) > u64::MAX,
{
    let mut out: Vec<DebtorEntry> = Vec::new();
    let mut i: usize = 0;
    while i < s.len()
        invariant
            i <= s@.len(),
            debtors_ok(s@, out@),
            forall|m: int|
                0 <= m < i && owes(#[trigger] s@[m]) ==> exists|k: int| 0 <= k < out@.len() && out@[k].plate@ == s@[m].plate@,
        decreases s@.len() - i,
    {
        let v = &s[i];
        let owing = match v.debt {
            Some(d) => d > 0,
            None => false,
        };
        if owing && v.plate.as_str().unicode_len() > 0 && !listed_plate(&out, v.plate.as_str()) {
            let st = match plate_stats(s, v.plate.as_str()) {
                Some(st) => st,
                None => return None,
            };
            proof {
                lemma_owing_session_counts(s@, i as int);
            }
            let e = DebtorEntry {
                plate: v.plate.clone(),
                total_debt: st.total_debt,
                sessions_with_debt: st.sessions_with_debt,
                oldest_exit_time: st.oldest_exit_time,
            };
            let p = insertion_point(&out, e.total_debt);
            let ghost before = out@;
            let ghost ev = e;
            out.insert(p, e);
            proof {
                let o = out@;
                assert(o == before.insert(p as int, ev));
                assert forall|k: int| 0 <= k < o.len() implies entry_ok(s@, #[trigger] o[k]) by {
                    if k < p {
                        assert(o[k] == before[k]);
                    } else if k > p {
                        assert(o[k] == before[k - 1]);
                    }
                }
                assert forall|a: int, b: int| 0 <= a < b < o.len() implies #[trigger] o[a].plate@ != #[trigger] o[b].plate@ by {
                    if a == p {
                        assert(o[b] == before[b - 1]);
                    } else if b == p {
                        assert(o[a] == before[a]);
                    } else {
                        let a0 = if a < p { a } else { a - 1 };
                        let b0 = if b < p { b } else { b - 1 };
                        assert(o[a] == before[a0] && o[b] == before[b0]);
                    }
                }
                assert forall|a: int, b: int| 0 <= a < b < o.len() implies #[trigger] o[a].total_debt >= #[trigger] o[b].total_debt by {
                    if a == p {
                        assert(o[b] == before[b - 1]);
                    } else if b == p {
                        assert(o[a] == before[a]);
                    } else {
                        let a0 = if a < p { a } else { a - 1 };
                        let b0 = if b < p { b } else { b - 1 };
                        assert(o[a] == before[a0] && o[b] == before[b0]);
                    }
                }
                assert forall|m: int|
                    0 <= m < i + 1 && owes(#[trigger] s@[m]) implies exists|k: int| 0 <= k < o.len() && o[k].plate@ == s@[m].plate@ by {
                    if m < i {
                        let k = choose|k: int| 0 <= k < before.len() && before[k].plate@ == s@[m].plate@;
                        if k < p {
                            assert(o[k] == before[k]);
                        } else {
                            assert(o[k + 1] == before[k]);
                        }
                    } else {
                        assert(o[p as int].plate@ == s@[m].plate@);
                    }
                }
            }
        }
        i = i + 1;
    }
    Some(out)
}

impl ParkingLot {
    /// A page of the debtors' list, largest debt first: `offset` entries
    /// skipped (none by default), then at most `limit` (50 by default, 500 at
    /// most); with the number of debtors in all.
    pub fn list_debtors(&self, access: &AppState, limit: Option<u32>, offset: Option<u32>) -> (r: Result<
        ListDebtorsResult,
        ParkingError,
    >)
        ensures
            !access.allows(CAJA_DEBTORS_READ@) ==> r is Err && r->Err_0 is Access,
            r matches Ok(res) ==> exists|all: Seq<DebtorEntry>|
                #![trigger debtors_ok(self.vehicles@, all)]
                debtors_ok(self.vehicles@, all) && lists_every_debtor(self.vehicles@, all) && res.total == all.len()
                    && res.items@ == page(all, limit, offset),
            access.allows(CAJA_DEBTORS_READ@) && (forall|i: int|
                0 <= i < self.vehicles@.len() && owes(#[trigger] self.vehicles@[i]) ==> plate_debt(
                    self.vehicles@,
                    self.vehicles@[i].plate@,
                ) <= u64::MAX) ==> r is Ok,
    {
        if let Err(e) = access.check_permission(CAJA_DEBTORS_READ) {
            return Err(ParkingError::Access(e));
        }
        let all = match all_debtors(&self.vehicles) {
            Some(l) => l,
            None => return Err(ParkingError::AmountOverflow),
        };
        let lim: u32 = match limit {
            Some(l) => if l > MAX_LIST_LIMIT {
                MAX_LIST_LIMIT
            } else {
                l
            },
            None => DEFAULT_LIST_LIMIT,
        };
        let off: usize = match offset {
            Some(o) => o as usize,
            None => 0,
        };
        let mut items: Vec<DebtorEntry> = Vec::new();
        if off < all.len() {
            let end: usize = if off as u64 + lim as u64 > all.len() as u64 {
                all.len()
            } else {
                off + lim as usize
            };
            let mut k: usize = off;
            proof {
                assert(items@ =~= all@.subrange(off as int, k as int));
            }
            while k < end
                invariant
                    off <= k <= end,
                    end <= all@.len(),
                    items@ == all@.subrange(off as int, k as int),
                decreases end - k,
            {
                items.push(all[k].clone_entry());
                k = k + 1;
                assert(items@ =~= all@.subrange(off as int, k as int));
            }
        }
        proof {
            assert(items@ =~= page(all@, limit, offset));
            assert(debtors_ok(self.vehicles@, all@));
        }
        Ok(ListDebtorsResult { items, total: all.len() as u64 })
    }
}

/// The page of a list: `offset` entries skipped (none by default), then at
/// most `limit` (50 by default, 500 at most).
pub open spec fn page(all: Seq<DebtorEntry>, limit: Option<u32>, offset: Option<u32>) -> Seq<DebtorEntry> {
    let lim: int = match limit {
        Some(l) => if l > MAX_LIST_LIMIT {
            MAX_LIST_LIMIT as int
        } else {
            l as int
        },
        None => DEFAULT_LIST_LIMIT as int,
    };
    let off: int = match offset {
        Some(o) => o as int,
        None => 0,
    };
    if off >= all.len() {
        Seq::empty()
    } else if off + lim > all.len() {
        all.subrange(off, all.len() as int)
    } else {
        all.subrange(off, off + lim)
    }
}

impl DebtorEntry {
    /// A copy of this entry.
    pub fn clone_entry(&self) -> (r: DebtorEntry)
        ensures
            r == *self,
    {
        DebtorEntry {
            plate: self.plate.clone(),
            total_debt: self.total_debt,
            sessions_with_debt: self.sessions_with_debt,
            oldest_exit_time: self.oldest_exit_time,
        }
    }
}

} // verus!
