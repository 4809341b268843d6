//! Pre-registered scan codes: the format of a code (1 to 24 ASCII digits once
//! trimmed), the registry of known codes, and the data handed to a Code 128
//! symbol.
use vstd::prelude::*;
use vstd::utf8::encode_utf8;

use crate::text::{copy_opt_string, same_text, trim_of, trim_text};
use crate::tariffs::{non_empty_trimmed, trimmed_or_none};

verus! {

/// Fewest bytes in a code.
pub const CODE_MIN_LEN: usize = 1;

/// Most bytes in a code.
pub const CODE_MAX_LEN: usize = 24;

/// A registered scan code.
#[derive(Debug, Clone)]
pub struct Barcode {
    pub id: String,
    pub code: String,
    pub label: Option<String>,
    pub created_at: u64,
}

/// Why a code was turned down.
#[derive(Debug, Clone, Copy, PartialEq, Eq, Structural)]
pub enum BarcodeError {
    /// The code is empty once trimmed.
    Empty,
    /// The code, once trimmed, has fewer or more bytes than allowed; the
    /// count is given.
    Length { len: usize },
    /// The code holds something other than ASCII digits.
    NotDigits,
    /// The code is registered already.
    Duplicate,
}

/// Whether every character is an ASCII digit.
pub open spec fn all_digits(s: Seq<char>) -> bool {
    forall|i: int| 0 <= i < s.len() ==> '0' <= #[trigger] s[i] && s[i] <= '9'
}

/// Whether a trimmed code has an allowed length, in bytes.
pub open spec fn length_ok(t: Seq<char>) -> bool {
    CODE_MIN_LEN <= encode_utf8(t).len() && encode_utf8(t).len() <= CODE_MAX_LEN
}

/// Whether a code is well formed once trimmed.
pub open spec fn code_ok(code: Seq<char>) -> bool {
    trim_of(code).len() > 0 && length_ok(trim_of(code)) && all_digits(trim_of(code))
}

fn digits_only(s: &str) -> (r: bool)
    ensures
        r == all_digits(s@),
{
    let n = s.unicode_len();
    let mut i: usize = 0;
    while i < n
        invariant
            n == s@.len(),
            i <= n,
            forall|k: int| 0 <= k < i ==> '0' <= #[trigger] s@[k] && s@[k] <= '9',
        decreases n - i,
    {
        let c = s.get_char(i);
        if !('0' <= c && c <= '9') {
            return false;
        }
        i = i + 1;
    }
    true
}

/// Checks a code: trimmed, it must be non-empty, 1 to 24 bytes long and all
/// ASCII digits, checked in that order. On success, the trimmed code.
pub fn validate_code(code: &str) -> (r: Result<String, BarcodeError>)
    ensures
        trim_of(code@).len() == 0 <==> r == Err::<String, BarcodeError>(BarcodeError::Empty),
        r matches Err(BarcodeError::Length { len }) <==> (trim_of(code@).len() > 0 && !length_ok(trim_of(code@))),
        r matches Err(BarcodeError::Length { len }) ==> len == encode_utf8(trim_of(code@)).len(),
        r == Err::<String, BarcodeError>(BarcodeError::NotDigits) <==> (trim_of(code@).len() > 0 && length_ok(
            trim_of(code@),
        ) && !all_digits(trim_of(code@))),
        r is Ok <==> code_ok(code@),
        r matches Ok(s) ==> s@ == trim_of(code@),
        r != Err::<String, BarcodeError>(BarcodeError::Duplicate),
{
    let t = trim_text(code);
    if t.unicode_len() == 0 {
        return Err(BarcodeError::Empty);
    }
    let len = t.as_bytes().len();
    if len < CODE_MIN_LEN || len > CODE_MAX_LEN {
        return Err(BarcodeError::Length { len });
    }
    if !digits_only(t) {
        return Err(BarcodeError::NotDigits);
    }
    Ok(String::from_str(t))
}

/// The trimmed code when it is well formed, else nothing.
pub fn is_valid_barcode_format(code: &str) -> (r: Option<String>)
    ensures
        r is Some <==> code_ok(code@),
        r matches Some(s) ==> s@ == trim_of(code@),
{
    match validate_code(code) {
        Ok(s) => Some(s),
        Err(_) => None,
    }
}

/// The marker that selects the B character set of Code 128.
pub open spec fn code_set_b() -> Seq<char> {
    seq!['\u{0181}']
}

/// The data of a Code 128 symbol for a digit code: the B-set marker, then the
/// trimmed code, or `0` when it is empty.
pub fn code128_data_from_digits(code: &str) -> (r: String)
    ensures
        trim_of(code@).len() == 0 ==> r@ == code_set_b() + seq!['0'],
        trim_of(code@).len() > 0 ==> r@ == code_set_b() + trim_of(code@),
{
    let t = trim_text(code);
    proof {
        reveal_strlit("\u{0181}");
        reveal_strlit("\u{0181}0");
    }
    if t.unicode_len() == 0 {
        let r = String::from_str("\u{0181}0");
        proof {
            assert(r@ =~= code_set_b() + seq!['0']);
        }
        return r;
    }
    let mut r = String::from_str("\u{0181}");
    r.append(t);
    proof {
        assert(r@ =~= code_set_b() + trim_of(code@));
    }
    r
}

/// Whether a code is registered.
pub open spec fn code_registered(reg: Seq<Barcode>, code: Seq<char>) -> bool {
    exists|i: int| 0 <= i < reg.len() && #[trigger] reg[i].code@ == code
}

/// Whether a code is registered.
pub fn find_code(reg: &Vec<Barcode>, code: &str) -> (r: bool)
    ensures
        r == code_registered(reg@, code@),
{
    let mut i: usize = 0;
    while i < reg.len()
        invariant
            i <= reg@.len(),
            forall|k: int| 0 <= k < i ==> #[trigger] reg@[k].code@ != code@,
        decreases reg@.len() - i,
    {
        if same_text(reg[i].code.as_str(), code) {
            return true;
        }
        i = i + 1;
    }
    false
}

impl Barcode {
    /// A copy of this record.
    pub fn snapshot(&self) -> (r: Barcode)
        ensures
            r == *self,
    {
        Barcode {
            id: self.id.clone(),
            code: self.code.clone(),
            label: copy_opt_string(&self.label),
            created_at: self.created_at,
        }
    }
}

/// Registers a code given by an operator: it must be well formed and new.
/// The label is kept trimmed, and dropped when empty.
pub fn create_barcode(
    reg: &mut Vec<Barcode>,
    code: &str,
    label: Option<String>,
    id: String,
    created_at: u64,
) -> (r: Result<Barcode, BarcodeError>)
    ensures
        !code_ok(code@) ==> r is Err && r->Err_0 != BarcodeError::Duplicate,
        code_ok(code@) ==> (r == Err::<Barcode, BarcodeError>(BarcodeError::Duplicate) <==> code_registered(
            old(reg)@,
            trim_of(code@),
        )),
        r is Ok <==> (code_ok(code@) && !code_registered(old(reg)@, trim_of(code@))),
        r is Err ==> *final(reg) == *old(reg),
        r matches Ok(b) ==> final(reg)@ == old(reg)@.push(b) && b.code@ == trim_of(code@) && b.id == id
            && b.created_at == created_at && match b.label {
            Some(l) => trimmed_or_none(label) == Some(l@),
            None => trimmed_or_none(label) is None,
        },
{
    let c = match validate_code(code) {
        Ok(c) => c,
        Err(e) => return Err(e),
    };
    if find_code(reg, c.as_str()) {
        return Err(BarcodeError::Duplicate);
    }
    let b = Barcode { id, code: c, label: non_empty_trimmed(&label), created_at };
    let out = b.snapshot();
    reg.push(b);
    Ok(out)
}

/// Registers the ticket code of an entry when it is a well-formed code not
/// registered yet; says whether it did.
pub fn ensure_barcode_exists_for_ticket(reg: &mut Vec<Barcode>, code: &str, id: String, created_at: u64) -> (r:
    bool)
    ensures
        r <==> (code_ok(code@) && !code_registered(old(reg)@, trim_of(code@))),
        !r ==> final(reg)@ == old(reg)@,
        r ==> final(reg)@.len() == old(reg)@.len() + 1 && final(reg)@.drop_last() == old(reg)@
            && final(reg)@.last().code@ == trim_of(code@) && final(reg)@.last().label is None,
{
    match is_valid_barcode_format(code) {
        None => false,
        Some(c) => {
            if find_code(reg, c.as_str()) {
                false
            } else {
                reg.push(Barcode { id, code: c, label: None, created_at });
                proof {
                    assert(reg@.drop_last() =~= old(reg)@);
                }
                true
            }
        },
    }
}

} // verus!
