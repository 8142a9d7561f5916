//! The persisted-identifier boundary.
//!
//! The store keeps destination-system identifiers as decimal strings. A
//! stored string that is empty, non-numeric, too large, or the reserved
//! value zero never resolves: it is treated as absent, which steers the
//! caller into the repair path instead of addressing a silently wrong
//! channel.

use vstd::prelude::*;

use crate::strutil::{
    all_digits, dec_str, dec_val, lemma_dec_roundtrip, lemma_dec_str_digits, parse_u64, u64_to_dec,
};

verus! {

/// A stored string that denotes a usable identifier: a non-empty numeral
/// whose value is positive and fits the identifier width.
pub open spec fn is_valid_id_str(s: Seq<char>) -> bool {
    &&& s.len() > 0
    &&& all_digits(s)
    &&& 0 < dec_val(s) <= u64::MAX
}

/// Parse a persisted identifier; absent (`None`) for anything that does not
/// denote a positive in-range number.
pub fn parse_channel_id(s: &str) -> (r: Option<u64>)
    ensures
        r is Some <==> is_valid_id_str(s@),
        r matches Some(v) ==> v as int == dec_val(s@) && v >= 1,
{
    match parse_u64(s) {
        Some(v) => {
            if v > 0 {
                Some(v)
            } else {
                None
            }
        }
        None => None,
    }
}

/// Render an identifier the way the store persists it.
pub fn render_id(id: u64) -> (r: String)
    ensures
        r@ == dec_str(id as int),
{
    u64_to_dec(id)
}

/// A rendered identifier always resolves back to itself.
pub proof fn lemma_render_parse(id: u64)
    requires
        id >= 1,
    ensures
        is_valid_id_str(dec_str(id as int)),
        dec_val(dec_str(id as int)) == id as int,
{
    lemma_dec_str_digits(id as int);
    lemma_dec_roundtrip(id as int);
}

} // verus!
