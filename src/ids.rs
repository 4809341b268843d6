//! Prefixed random identifiers: a two-letter prefix and random alphanumeric
//! characters, 25 characters in all.
use rand::Rng;
use vstd::prelude::*;

verus! {

/// Characters of an identifier.
pub const ID_LENGTH: usize = 25;

/// Prefix of a vehicle session's identifier.
pub const PREFIX_VEHICLE: &'static str = "VH";

/// Prefix of a transaction's identifier.
pub const PREFIX_TRANSACTION: &'static str = "TX";

/// Prefix of a shift closure's identifier.
pub const PREFIX_SHIFT_CLOSURE: &'static str = "SC";

/// Prefix of a custom tariff's identifier.
pub const PREFIX_CUSTOM_TARIFF: &'static str = "CT";

/// Prefix of a barcode's identifier.
pub const PREFIX_BARCODE: &'static str = "BC";

/// Prefix of a user's identifier.
pub const PREFIX_USER: &'static str = "US";

/// The characters that follow the prefix are drawn from these.
pub const CHARSET: &'static str = "ABCDEFGHIJKLMNOPQRSTUVWXYZabcdefghijklmnopqrstuvwxyz0123456789";

/// Relies on `rand::Rng::gen_range` over `0..bound` with the thread's
/// generator: a value below `bound`; the range is never empty here.
#[verifier::external_body]
fn random_below(bound: usize) -> (r: usize)
    requires
        bound > 0,
    ensures
        r < bound,
{
    rand::thread_rng().gen_range(0..bound)
}

/// Whether a character may follow an identifier's prefix: one of the
/// charset's.
pub open spec fn is_id_char(c: char) -> bool {
    CHARSET@.contains(c)
}

/// An identifier made of `prefix` and random alphanumeric characters, as
/// many as bring it to 25 characters (none when the prefix is that long).
pub fn generate_id(prefix: &str) -> (r: String)
    ensures
        r@.subrange(0, prefix@.len() as int) == prefix@,
        prefix@.len() <= ID_LENGTH ==> r@.len() == ID_LENGTH,
        prefix@.len() > ID_LENGTH ==> r@ == prefix@,
        forall|i: int| prefix@.len() <= i < r@.len() ==> is_id_char(#[trigger] r@[i]),
{
    let n = prefix.unicode_len();
    let suffix_len: usize = if n >= ID_LENGTH {
        0
    } else {
        ID_LENGTH - n
    };
    let mut out = String::from_str(prefix);
    proof {
        reveal_strlit("ABCDEFGHIJKLMNOPQRSTUVWXYZabcdefghijklmnopqrstuvwxyz0123456789");
    }
    let set_len = CHARSET.unicode_len();
    let mut k: usize = 0;
    while k < suffix_len
        invariant
            n == prefix@.len(),
            set_len == CHARSET@.len(),
            set_len == 62,
            CHARSET@ == "ABCDEFGHIJKLMNOPQRSTUVWXYZabcdefghijklmnopqrstuvwxyz0123456789"@,
            k <= suffix_len,
            out@.len() == n + k,
            out@.subrange(0, n as int) == prefix@,
            forall|i: int| n <= i < out@.len() ==> is_id_char(#[trigger] out@[i]),
        decreases suffix_len - k,
    {
        let idx = random_below(set_len);
        let piece = CHARSET.substring_char(idx, idx + 1);
        proof {
            assert(piece@[0] == CHARSET@[idx as int]);
        }
        let ghost before = out@;
        out.append(piece);
        proof {
            assert(out@ == before + piece@);
            assert(out@.subrange(0, n as int) =~= before.subrange(0, n as int));
            assert forall|i: int| n <= i < out@.len() implies is_id_char(#[trigger] out@[i]) by {
                if i < before.len() {
                    assert(out@[i] == before[i]);
                } else {
                    assert(out@[i] == piece@[0]);
                    assert(CHARSET@[idx as int] == out@[i]);
                }
            }
        }
        k = k + 1;
    }
    out
}

} // verus!
