//! Treasury and shift closure: payment transactions summed by method over a
//! time window, the window of the current day and of the open shift, and the
//! closure snapshot that ends a shift.
use vstd::prelude::*;

use crate::text::{copy_opt_string, lower_of, same_text, to_lower_text};

verus! {

/// Milliseconds in a day.
pub const DAY_MS: u64 = 86400000;

/// How a payment was made.
#[derive(Debug, Clone, Copy, PartialEq, Eq, Structural)]
pub enum PaymentMethod {
    Cash,
    Card,
    Transfer,
}

/// The payment of one exit. Times are milliseconds since the Unix epoch.
#[derive(Debug, Clone)]
pub struct Transaction {
    pub id: String,
    pub vehicle_id: String,
    pub amount: u64,
    pub method: PaymentMethod,
    pub created_at: u64,
}

/// Sums by payment method.
#[derive(Debug, Clone, Copy, PartialEq, Eq, Structural)]
pub struct PaymentBreakdown {
    pub cash: u64,
    pub card: u64,
    pub transfer: u64,
}

/// The treasury of a window: what is expected in the drawer, what is
/// counted (the expected amount: nothing is counted on this path), their
/// difference, the number of payments and their sums by method.
#[derive(Debug, Clone, Copy, PartialEq, Eq, Structural)]
pub struct TreasuryData {
    pub expected_cash: u64,
    pub actual_cash: u64,
    pub discrepancy: i128,
    pub total_transactions: u64,
    pub payment_breakdown: PaymentBreakdown,
}

/// The immutable snapshot that closes a shift.
#[derive(Debug, Clone)]
pub struct ShiftClosure {
    pub id: String,
    pub closed_at: u64,
    pub expected_total: u64,
    pub cash_total: u64,
    pub card_total: u64,
    pub transfer_total: u64,
    pub arqueo_cash: Option<u64>,
    pub discrepancy: i128,
    pub total_transactions: u64,
    pub notes: Option<String>,
}

/// The stored name of a payment method.
pub open spec fn method_name(m: PaymentMethod) -> Seq<char> {
    match m {
        PaymentMethod::Cash => "cash"@,
        PaymentMethod::Card => "card"@,
        PaymentMethod::Transfer => "transfer"@,
    }
}

/// The method that a lower-cased name denotes; any other name reads as cash.
pub open spec fn method_of_name(s: Seq<char>) -> PaymentMethod {
    if s == "card"@ {
        PaymentMethod::Card
    } else if s == "transfer"@ {
        PaymentMethod::Transfer
    } else {
        PaymentMethod::Cash
    }
}

/// The stored name of a payment method.
pub fn payment_method_to_str(m: PaymentMethod) -> (r: &'static str)
    ensures
        r@ == method_name(m),
{
    match m {
        PaymentMethod::Cash => "cash",
        PaymentMethod::Card => "card",
        PaymentMethod::Transfer => "transfer",
    }
}

/// The method that a caller's optional text names, ignoring case; a missing
/// or unrecognised method is cash.
pub open spec fn lower_method_spec(s: Option<&str>) -> PaymentMethod {
    match s {
        Some(t) => method_of_name(lower_of(t@)),
        None => PaymentMethod::Cash,
    }
}

/// The payment method a lower-cased name denotes; any other name is cash.
pub fn payment_method_from_name(s: &str) -> (r: PaymentMethod)
    ensures
        r == method_of_name(s@),
{
    if same_text(s, "card") {
        PaymentMethod::Card
    } else if same_text(s, "transfer") {
        PaymentMethod::Transfer
    } else {
        PaymentMethod::Cash
    }
}

/// Reads the payment method a caller gave, ignoring case; a missing or
/// unrecognised method is cash.
pub fn parse_payment_method(s: Option<&str>) -> (r: PaymentMethod)
    ensures
        r == lower_method_spec(s),
{
    match s {
        Some(t) => payment_method_from_name(to_lower_text(t).as_str()),
        None => PaymentMethod::Cash,
    }
}

/// Whether a payment falls in the window `[lo, hi)`.
pub open spec fn in_window(t: Transaction, lo: int, hi: int) -> bool {
    lo <= t.created_at && t.created_at < hi
}

/// The sum of the payments by method `m` in the window.
pub open spec fn method_total(s: Seq<Transaction>, m: PaymentMethod, lo: int, hi: int) -> nat
    decreases s.len(),
{
    if s.len() == 0 {
        0
    } else {
        method_total(s.drop_last(), m, lo, hi) + if in_window(s.last(), lo, hi) && s.last().method == m {
            s.last().amount as nat
        } else {
            0
        }
    }
}

/// The sum of all payments in the window.
pub open spec fn window_total(s: Seq<Transaction>, lo: int, hi: int) -> nat
    decreases s.len(),
{
    if s.len() == 0 {
        0
    } else {
        window_total(s.drop_last(), lo, hi) + if in_window(s.last(), lo, hi) {
            s.last().amount as nat
        } else {
            0
        }
    }
}

/// The number of payments in the window.
pub open spec fn window_count(s: Seq<Transaction>, lo: int, hi: int) -> nat
    decreases s.len(),
{
    if s.len() == 0 {
        0
    } else {
        window_count(s.drop_last(), lo, hi) + if in_window(s.last(), lo, hi) {
            1nat
        } else {
            0
        }
    }
}

/// The sums by method add up to the sum of all payments of the window.
pub proof fn lemma_methods_partition(s: Seq<Transaction>, lo: int, hi: int)
    ensures
        method_total(s, PaymentMethod::Cash, lo, hi) + method_total(s, PaymentMethod::Card, lo, hi) + method_total(
            s,
            PaymentMethod::Transfer,
            lo,
            hi,
        ) == window_total(s, lo, hi),
    decreases s.len(),
{
    if s.len() > 0 {
        lemma_methods_partition(s.drop_last(), lo, hi);
    }
}

/// Payment count and sums by method over the window `[lo, hi)`; `None` when
/// the sum of the window does not fit an amount.
pub fn window_breakdown(txs: &Vec<Transaction>, lo: u64, hi: u64) -> (r: Option<(u64, PaymentBreakdown)>)
    ensures
        r is None <==> window_total(txs@, lo as int, hi as int) > u64::MAX,
        r matches Some(p) ==> p.0 == window_count(txs@, lo as int, hi as int) && p.1.cash == method_total(
            txs@,
            PaymentMethod::Cash,
            lo as int,
            hi as int,
        ) && p.1.card == method_total(txs@, PaymentMethod::Card, lo as int, hi as int) && p.1.transfer
            == method_total(txs@, PaymentMethod::Transfer, lo as int, hi as int),
{
    let mut cash: u128 = 0;
    let mut card: u128 = 0;
    let mut transfer: u128 = 0;
    let mut count: u64 = 0;
    let mut i: usize = 0;
    while i < txs.len()
        invariant
            i <= txs@.len(),
            cash == method_total(txs@.subrange(0, i as int), PaymentMethod::Cash, lo as int, hi as int),
            card == method_total(txs@.subrange(0, i as int), PaymentMethod::Card, lo as int, hi as int),
            transfer == method_total(txs@.subrange(0, i as int), PaymentMethod::Transfer, lo as int, hi as int),
            count == window_count(txs@.subrange(0, i as int), lo as int, hi as int),
            count <= i,
            cash + card + transfer <= i * 0xffff_ffff_ffff_ffffu128,
        decreases txs@.len() - i,
    {
        let ghost pre = txs@.subrange(0, i as int);
        let ghost next = txs@.subrange(0, i as int + 1);
        proof {
            assert(next.drop_last() =~= pre);
            assert(next.last() == txs@[i as int]);
            assert(i * 0xffff_ffff_ffff_ffffu128 + 0xffff_ffff_ffff_ffffu128 == (i + 1) * 0xffff_ffff_ffff_ffffu128)
                by (nonlinear_arith);
            assert((i + 1) * 0xffff_ffff_ffff_ffffu128 <= 0x1_0000_0000_0000_0000u128 * 0xffff_ffff_ffff_ffffu128)
                by (nonlinear_arith)
                requires
                    i < 0x1_0000_0000_0000_0000u128,
            ;
        }
        let t = &txs[i];
        if lo <= t.created_at && t.created_at < hi {
            match t.method {
                PaymentMethod::Cash => {
                    cash = cash + t.amount as u128;
                },
                PaymentMethod::Card => {
                    card = card + t.amount as u128;
                },
                PaymentMethod::Transfer => {
                    transfer = transfer + t.amount as u128;
                },
            }
            count = count + 1;
        }
        i = i + 1;
    }
    proof {
        assert(txs@.subrange(0, txs@.len() as int) =~= txs@);
        lemma_methods_partition(txs@, lo as int, hi as int);
    }
    if cash + card + transfer > u64::MAX as u128 {
        return None;
    }
    Some((count, PaymentBreakdown { cash: cash as u64, card: card as u64, transfer: transfer as u64 }))
}

/// Start of the UTC day holding `now`.
pub open spec fn day_start_spec(now: int) -> int {
    now - now % (DAY_MS as int)
}

/// Start of the UTC day holding `now`.
pub fn day_start(now: u64) -> (r: u64)
    ensures
        r == day_start_spec(now as int),
        r <= now,
{
    now - now % DAY_MS
}

/// The treasury of the current UTC day, up to now: payments of that day
/// summed by method. `None` when the day's sum does not fit an amount.
pub fn get_treasury(txs: &Vec<Transaction>, now: u64) -> (r: Option<TreasuryData>)
    requires
        now <= u64::MAX - DAY_MS,
    ensures
        r is None <==> window_total(txs@, day_start_spec(now as int), day_start_spec(now as int) + DAY_MS)
            > u64::MAX,
        r matches Some(d) ==> d.payment_breakdown.cash + d.payment_breakdown.card + d.payment_breakdown.transfer
            == d.expected_cash && d.expected_cash == d.actual_cash && d.discrepancy == 0
            && d.expected_cash == window_total(txs@, day_start_spec(now as int), day_start_spec(now as int) + DAY_MS)
            && d.total_transactions == window_count(
            txs@,
            day_start_spec(now as int),
            day_start_spec(now as int) + DAY_MS,
        ) && d.payment_breakdown.cash == method_total(
            txs@,
            PaymentMethod::Cash,
            day_start_spec(now as int),
            day_start_spec(now as int) + DAY_MS,
        ) && d.payment_breakdown.card == method_total(
            txs@,
            PaymentMethod::Card,
            day_start_spec(now as int),
            day_start_spec(now as int) + DAY_MS,
        ) && d.payment_breakdown.transfer == method_total(
            txs@,
            PaymentMethod::Transfer,
            day_start_spec(now as int),
            day_start_spec(now as int) + DAY_MS,
        ),
{
    let lo = day_start(now);
    let hi = lo + DAY_MS;
    match window_breakdown(txs, lo, hi) {
        None => None,
        Some((count, b)) => {
            proof {
                lemma_methods_partition(txs@, lo as int, hi as int);
            }
            let expected = b.cash + b.card + b.transfer;
            Some(
                TreasuryData {
                    expected_cash: expected,
                    actual_cash: expected,
                    discrepancy: 0,
                    total_transactions: count,
                    payment_breakdown: b,
                },
            )
        },
    }
}

/// Whether a closure ends the open shift as seen at `now`: made earlier on
/// the same UTC day.
pub open spec fn closes_before(c: ShiftClosure, now: int) -> bool {
    day_start_spec(now) <= c.closed_at && c.closed_at < now
}

/// Start of the open shift: the latest closure made earlier on the same UTC
/// day, else the start of that day.
pub open spec fn shift_start_spec(closures: Seq<ShiftClosure>, now: int) -> int
    decreases closures.len(),
{
    if closures.len() == 0 {
        day_start_spec(now)
    } else {
        let prev = shift_start_spec(closures.drop_last(), now);
        let c = closures.last();
        if closes_before(c, now) && c.closed_at > prev {
            c.closed_at as int
        } else {
            prev
        }
    }
}

/// Start of the open shift as seen at `now`.
pub fn shift_window_start(closures: &Vec<ShiftClosure>, now: u64) -> (r: u64)
    ensures
        r == shift_start_spec(closures@, now as int),
        day_start_spec(now as int) <= r <= now,
{
    let day = day_start(now);
    let mut best: u64 = day;
    let mut i: usize = 0;
    while i < closures.len()
        invariant
            i <= closures@.len(),
            day == day_start_spec(now as int),
            best == shift_start_spec(closures@.subrange(0, i as int), now as int),
            day <= best <= now,
        decreases closures@.len() - i,
    {
        proof {
            let next = closures@.subrange(0, i as int + 1);
            assert(next.drop_last() =~= closures@.subrange(0, i as int));
            assert(next.last() == closures@[i as int]);
        }
        let c = closures[i].closed_at;
        if day <= c && c < now && c > best {
            best = c;
        }
        i = i + 1;
    }
    proof {
        assert(closures@.subrange(0, closures@.len() as int) =~= closures@);
    }
    best
}

/// The figures of a closure made at `now`: the payments after the open
/// shift's start and up to `now`, counted and summed by method; the counted
/// cash, and its difference from the cash sum when cash was counted.
pub open spec fn closure_figures(
    txs: Seq<Transaction>,
    closures: Seq<ShiftClosure>,
    now: u64,
    arqueo_cash: Option<u64>,
    c: ShiftClosure,
) -> bool {
    let lo = shift_start_spec(closures, now as int) + 1;
    let hi = now + 1;
    &&& c.closed_at == now
    &&& c.cash_total == method_total(txs, PaymentMethod::Cash, lo, hi)
    &&& c.card_total == method_total(txs, PaymentMethod::Card, lo, hi)
    &&& c.transfer_total == method_total(txs, PaymentMethod::Transfer, lo, hi)
    &&& c.expected_total == c.cash_total + c.card_total + c.transfer_total
    &&& c.expected_total == window_total(txs, lo, hi)
    &&& c.total_transactions == window_count(txs, lo, hi)
    &&& c.arqueo_cash == arqueo_cash
    &&& c.discrepancy == match arqueo_cash {
        Some(a) => a - c.cash_total,
        None => 0,
    }
}

/// Closes the open shift at `now`: sums the payments made after its start and
/// up to `now`, and appends the snapshot. The discrepancy is the counted cash
/// less the cash sum when cash was counted, else zero. `None`, with nothing
/// appended, when the shift's sum does not fit an amount.
pub fn close_shift(
    closures: &mut Vec<ShiftClosure>,
    txs: &Vec<Transaction>,
    arqueo_cash: Option<u64>,
    notes: Option<String>,
    id: String,
    now: u64,
) -> (r: Option<ShiftClosure>)
    requires
        now < u64::MAX,
    ensures
        r is None ==> *final(closures) == *old(closures),
        r is None <==> window_total(txs@, shift_start_spec(old(closures)@, now as int) + 1, now + 1) > u64::MAX,
        r matches Some(c) ==> final(closures)@ == old(closures)@.push(c) && c.id@ == id@ && c.notes == notes
            && closure_figures(txs@, old(closures)@, now, arqueo_cash, c),
{
    let start = shift_window_start(closures, now);
    match window_breakdown(txs, start + 1, now + 1) {
        None => None,
        Some((count, b)) => {
            proof {
                lemma_methods_partition(txs@, start + 1, now + 1);
            }
            let expected = b.cash + b.card + b.transfer;
            let discrepancy: i128 = match arqueo_cash {
                Some(a) => a as i128 - b.cash as i128,
                None => 0,
            };
            let c = ShiftClosure {
                id: id.clone(),
                closed_at: now,
                expected_total: expected,
                cash_total: b.cash,
                card_total: b.card,
                transfer_total: b.transfer,
                arqueo_cash,
                discrepancy,
                total_transactions: count,
                notes: copy_opt_string(&notes),
            };
            let snapshot = ShiftClosure {
                id,
                closed_at: now,
                expected_total: expected,
                cash_total: b.cash,
                card_total: b.card,
                transfer_total: b.transfer,
                arqueo_cash,
                discrepancy,
                total_transactions: count,
                notes,
            };
            closures.push(c);
            Some(snapshot)
        },
    }
}

} // verus!
