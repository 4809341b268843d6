//! Report projections: the columns each report offers, the caller's choice
//! among them, and the date bounds of a report's filter.
use vstd::prelude::*;

use crate::text::{contains_text, lower_of, same_text, to_lower_text, trim_of, trim_text};

verus! {

/// The reports that can be exported.
#[derive(Debug, Clone, Copy, PartialEq, Eq, Structural)]
pub enum ReportType {
    Transactions,
    CompletedVehicles,
    ShiftClosures,
    TransactionsWithVehicle,
    VehicleExits,
    Debtors,
}

/// A column: the key of its field and its heading.
#[derive(Debug, Clone)]
pub struct ColumnDef {
    pub key: String,
    pub label: String,
}

/// The filters of a report: a date range (`YYYY-MM-DD`, inclusive) and
/// optional payment method and vehicle kind.
#[derive(Debug, Clone)]
pub struct ReportFilters {
    pub date_from: String,
    pub date_to: String,
    pub payment_method: Option<String>,
    pub vehicle_type: Option<String>,
}

/// The key and heading of each column.
pub open spec fn column_view(c: Seq<ColumnDef>) -> Seq<(Seq<char>, Seq<char>)> {
    c.map_values(|d: ColumnDef| (d.key@, d.label@))
}

fn col(key: &str, label: &str) -> (r: ColumnDef)
    ensures
        r.key@ == key@,
        r.label@ == label@,
{
    ColumnDef { key: String::from_str(key), label: String::from_str(label) }
}

impl ColumnDef {
    /// A copy of this column.
    pub fn snapshot(&self) -> (r: ColumnDef)
        ensures
            r == *self,
    {
        ColumnDef { key: self.key.clone(), label: self.label.clone() }
    }
}

/// The columns of the Transactions report.
pub open spec fn transactions_column_spec() -> Seq<(Seq<char>, Seq<char>)> {
    seq![
        ("id"@, "ID"@),
        ("vehicle_id"@, "Vehicle ID"@),
        ("amount"@, "Amount"@),
        ("method"@, "Payment method"@),
        ("created_at"@, "Created at"@),
    ]
}

/// The columns of the Transactions report.
pub fn transactions_columns() -> (r: Vec<ColumnDef>)
    ensures
        column_view(r@) == transactions_column_spec(),
{
    let r = vec![
        col("id", "ID"),
        col("vehicle_id", "Vehicle ID"),
        col("amount", "Amount"),
        col("method", "Payment method"),
        col("created_at", "Created at"),
    ];
    assert(column_view(r@) =~= transactions_column_spec());
    r
}

/// The columns of the CompletedVehicles report.
pub open spec fn completed_vehicles_column_spec() -> Seq<(Seq<char>, Seq<char>)> {
    seq![
        ("id"@, "ID"@),
        ("ticket_code"@, "Ticket"@),
        ("plate"@, "Plate"@),
        ("vehicle_type"@, "Vehicle type"@),
        ("entry_time"@, "Entry time"@),
        ("exit_time"@, "Exit time"@),
        ("total_amount"@, "Total amount"@),
        ("debt"@, "Debt"@),
    ]
}

/// The columns of the CompletedVehicles report.
pub fn completed_vehicles_columns() -> (r: Vec<ColumnDef>)
    ensures
        column_view(r@) == completed_vehicles_column_spec(),
{
    let r = vec![
        col("id", "ID"),
        col("ticket_code", "Ticket"),
        col("plate", "Plate"),
        col("vehicle_type", "Vehicle type"),
        col("entry_time", "Entry time"),
        col("exit_time", "Exit time"),
        col("total_amount", "Total amount"),
        col("debt", "Debt"),
    ];
    assert(column_view(r@) =~= completed_vehicles_column_spec());
    r
}

/// The columns of the VehicleExits report.
pub open spec fn vehicle_exits_column_spec() -> Seq<(Seq<char>, Seq<char>)> {
    seq![
        ("id"@, "ID"@),
        ("ticket_code"@, "Ticket"@),
        ("plate"@, "Plate"@),
        ("vehicle_type"@, "Vehicle type"@),
        ("entry_time"@, "Entry time"@),
        ("exit_time"@, "Exit time"@),
        ("status"@, "Exit type"@),
        ("total_amount"@, "Total amount"@),
        ("debt"@, "Debt"@),
    ]
}

/// The columns of the VehicleExits report.
pub fn vehicle_exits_columns() -> (r: Vec<ColumnDef>)
    ensures
        column_view(r@) == vehicle_exits_column_spec(),
{
    let r = vec![
        col("id", "ID"),
        col("ticket_code", "Ticket"),
        col("plate", "Plate"),
        col("vehicle_type", "Vehicle type"),
        col("entry_time", "Entry time"),
        col("exit_time", "Exit time"),
        col("status", "Exit type"),
        col("total_amount", "Total amount"),
        col("debt", "Debt"),
    ];
    assert(column_view(r@) =~= vehicle_exits_column_spec());
    r
}

/// The columns of the ShiftClosures report.
pub open spec fn shift_closures_column_spec() -> Seq<(Seq<char>, Seq<char>)> {
    seq![
        ("id"@, "ID"@),
        ("closed_at"@, "Closed at"@),
        ("expected_total"@, "Expected total"@),
        ("cash_total"@, "Cash total"@),
        ("card_total"@, "Card total"@),
        ("transfer_total"@, "Transfer total"@),
        ("arqueo_cash"@, "Arqueo cash"@),
        ("discrepancy"@, "Discrepancy"@),
        ("total_transactions"@, "Total transactions"@),
        ("notes"@, "Notes"@),
    ]
}

/// The columns of the ShiftClosures report.
pub fn shift_closures_columns() -> (r: Vec<ColumnDef>)
    ensures
        column_view(r@) == shift_closures_column_spec(),
{
    let r = vec![
        col("id", "ID"),
        col("closed_at", "Closed at"),
        col("expected_total", "Expected total"),
        col("cash_total", "Cash total"),
        col("card_total", "Card total"),
        col("transfer_total", "Transfer total"),
        col("arqueo_cash", "Arqueo cash"),
        col("discrepancy", "Discrepancy"),
        col("total_transactions", "Total transactions"),
        col("notes", "Notes"),
    ];
    assert(column_view(r@) =~= shift_closures_column_spec());
    r
}

/// The columns of the TransactionsWithVehicle report.
pub open spec fn transactions_with_vehicle_column_spec() -> Seq<(Seq<char>, Seq<char>)> {
    seq![
        ("transaction_id"@, "Transaction ID"@),
        ("created_at"@, "Created at"@),
        ("amount"@, "Amount"@),
        ("method"@, "Payment method"@),
        ("vehicle_id"@, "Vehicle ID"@),
        ("ticket_code"@, "Ticket"@),
        ("plate"@, "Plate"@),
        ("vehicle_type"@, "Vehicle type"@),
        ("entry_time"@, "Entry time"@),
        ("exit_time"@, "Exit time"@),
    ]
}

/// The columns of the TransactionsWithVehicle report.
pub fn transactions_with_vehicle_columns() -> (r: Vec<ColumnDef>)
    ensures
        column_view(r@) == transactions_with_vehicle_column_spec(),
{
    let r = vec![
        col("transaction_id", "Transaction ID"),
        col("created_at", "Created at"),
        col("amount", "Amount"),
        col("method", "Payment method"),
        col("vehicle_id", "Vehicle ID"),
        col("ticket_code", "Ticket"),
        col("plate", "Plate"),
        col("vehicle_type", "Vehicle type"),
        col("entry_time", "Entry time"),
        col("exit_time", "Exit time"),
    ];
    assert(column_view(r@) =~= transactions_with_vehicle_column_spec());
    r
}

/// The columns of the Debtors report.
pub open spec fn debtors_column_spec() -> Seq<(Seq<char>, Seq<char>)> {
    seq![
        ("plate"@, "Plate"@),
        ("total_debt"@, "Total debt"@),
        ("oldest_exit_time"@, "Oldest exit (since)"@),
        ("sessions_with_debt"@, "Sessions with debt"@),
    ]
}

/// The columns of the Debtors report.
pub fn debtors_columns() -> (r: Vec<ColumnDef>)
    ensures
        column_view(r@) == debtors_column_spec(),
{
    let r = vec![
        col("plate", "Plate"),
        col("total_debt", "Total debt"),
        col("oldest_exit_time", "Oldest exit (since)"),
        col("sessions_with_debt", "Sessions with debt"),
    ];
    assert(column_view(r@) =~= debtors_column_spec());
    r
}

/// The columns a report offers.
pub open spec fn report_columns(t: ReportType) -> Seq<(Seq<char>, Seq<char>)> {
    match t {
        ReportType::Transactions => transactions_column_spec(),
        ReportType::CompletedVehicles => completed_vehicles_column_spec(),
        ReportType::VehicleExits => vehicle_exits_column_spec(),
        ReportType::ShiftClosures => shift_closures_column_spec(),
        ReportType::TransactionsWithVehicle => transactions_with_vehicle_column_spec(),
        ReportType::Debtors => debtors_column_spec(),
    }
}

/// The columns a report offers.
pub fn all_columns_for_type(report_type: &ReportType) -> (r: Vec<ColumnDef>)
    ensures
        column_view(r@) == report_columns(*report_type),
{
    match report_type {
        ReportType::Transactions => transactions_columns(),
        ReportType::CompletedVehicles => completed_vehicles_columns(),
        ReportType::VehicleExits => vehicle_exits_columns(),
        ReportType::ShiftClosures => shift_closures_columns(),
        ReportType::TransactionsWithVehicle => transactions_with_vehicle_columns(),
        ReportType::Debtors => debtors_columns(),
    }
}

/// The columns kept by a selection: all of them when nothing is selected,
/// else those whose key is selected, in report order.
pub open spec fn selected_columns(all: Seq<ColumnDef>, keys: Seq<Seq<char>>) -> Seq<ColumnDef>
    decreases all.len(),
{
    if all.len() == 0 {
        Seq::empty()
    } else {
        let prev = selected_columns(all.drop_last(), keys);
        if keys.len() == 0 || keys.contains(all.last().key@) {
            prev.push(all.last())
        } else {
            prev
        }
    }
}

/// The columns kept by the caller's selection of keys.
pub fn filter_columns(all: &Vec<ColumnDef>, selected_keys: &Vec<String>) -> (r: Vec<ColumnDef>)
    ensures
        r@ == selected_columns(all@, crate::access::texts(selected_keys@)),
{
    let ghost keys = crate::access::texts(selected_keys@);
    let none = selected_keys.len() == 0;
    let mut out: Vec<ColumnDef> = Vec::new();
    let mut i: usize = 0;
    while i < all.len()
        invariant
            i <= all@.len(),
            keys == crate::access::texts(selected_keys@),
            none == (selected_keys@.len() == 0),
            out@ == selected_columns(all@.subrange(0, i as int), keys),
        decreases all@.len() - i,
    {
        proof {
            let next = all@.subrange(0, i as int + 1);
            assert(next.drop_last() =~= all@.subrange(0, i as int));
            assert(next.last() == all@[i as int]);
        }
        let keep = none || contains_text(selected_keys, all[i].key.as_str());
        proof {
            if !none {
                if keep {
                    let k = choose|k: int|
                        0 <= k < selected_keys@.len() && #[trigger] selected_keys@[k]@ == all@[i as int].key@;
                    assert(keys[k] == all@[i as int].key@);
                } else {
                    assert forall|k: int| 0 <= k < keys.len() implies keys[k] != all@[i as int].key@ by {
                        assert(selected_keys@[k]@ != all@[i as int].key@);
                    }
                }
            }
        }
        if keep {
            out.push(all[i].snapshot());
        }
        i = i + 1;
    }
    proof {
        assert(all@.subrange(0, all@.len() as int) =~= all@);
    }
    out
}

/// The date part of a text: its first ten characters, or all of it when
/// shorter.
pub open spec fn date_part(t: Seq<char>) -> Seq<char> {
    if t.len() >= 10 {
        t.subrange(0, 10)
    } else {
        t
    }
}

/// The date part of a text, once trimmed.
pub fn date_prefix(s: &str) -> (r: &str)
    ensures
        r@ == date_part(trim_of(s@)),
{
    let t = trim_text(s);
    if t.unicode_len() >= 10 {
        t.substring_char(0, 10)
    } else {
        t
    }
}

/// A pattern matching every timestamp of the date that starts `s`.
pub fn normalize_date_prefix(s: &str) -> (r: String)
    ensures
        r@ == date_part(trim_of(s@)) + seq!['%'],
{
    let mut r = String::from_str(date_prefix(s));
    r.append("%");
    proof {
        reveal_strlit("%");
    }
    r
}

/// The payment method that exactly one of the three names denotes.
pub open spec fn method_named(s: Seq<char>) -> Option<crate::treasury::PaymentMethod> {
    if s == "cash"@ {
        Some(crate::treasury::PaymentMethod::Cash)
    } else if s == "card"@ {
        Some(crate::treasury::PaymentMethod::Card)
    } else if s == "transfer"@ {
        Some(crate::treasury::PaymentMethod::Transfer)
    } else {
        None
    }
}

impl ReportFilters {
    /// The payment method to filter by: the one named, ignoring case; no
    /// filter when none is given or the name is unknown.
    pub fn method_filter(&self) -> (r: Option<crate::treasury::PaymentMethod>)
        ensures
            r == match self.payment_method {
                Some(m) => method_named(lower_of(m@)),
                None => None,
            },
    {
        match &self.payment_method {
            Some(m) => {
                let l = to_lower_text(m.as_str());
                if same_text(l.as_str(), "cash") {
                    Some(crate::treasury::PaymentMethod::Cash)
                } else if same_text(l.as_str(), "card") {
                    Some(crate::treasury::PaymentMethod::Card)
                } else if same_text(l.as_str(), "transfer") {
                    Some(crate::treasury::PaymentMethod::Transfer)
                } else {
                    None
                }
            },
            None => None,
        }
    }

    /// The vehicle kind to filter by: the one named, ignoring case; no
    /// filter when none is given or the name is unknown.
    pub fn vehicle_type_filter(&self) -> (r: Option<crate::vehicles::VehicleType>)
        ensures
            r == match self.vehicle_type {
                Some(v) => crate::vehicles::kind_from_name(lower_of(v@)),
                None => None,
            },
    {
        match &self.vehicle_type {
            Some(v) => crate::vehicles::parse_vehicle_type(to_lower_text(v.as_str()).as_str()),
            None => None,
        }
    }

    /// The pattern of the first day of the range.
    pub fn from_prefix(&self) -> (r: String)
        ensures
            r@ == date_part(trim_of(self.date_from@)) + seq!['%'],
    {
        normalize_date_prefix(self.date_from.as_str())
    }
}

} // verus!
