//! ASCII byte buffers and their presentation as strings.

use vstd::prelude::*;

use crate::digits::{dec_digits, lemma_dec_digits_wf, push_dec_u128};

verus! {

/// The decimal digits of `n` as characters.
pub open spec fn dec_chars(n: int) -> Seq<char> {
    dec_digits(n).map_values(|b: u8| b as char)
}

/// Relies on `String::from_utf8`: bytes below 128 are ASCII, and decode
/// one-to-one to the characters with the same code.
#[verifier::external_body]
pub(crate) fn ascii_to_string(v: Vec<u8>) -> (r: String)
    requires
        forall|i: int| 0 <= i < v@.len() ==> v@[i] < 128,
    ensures
        r@.len() == v@.len(),
        forall|i: int|
            0 <= i < r@.len() ==> #[trigger] r@[i] == v@[i] as char && r@[i] as u8 == v@[i]
                && '\0' <= r@[i] <= '\u{7f}',
{
    match String::from_utf8(v) {
        Ok(s) => s,
        Err(_) => String::new(),
    }
}

/// The decimal rendering of `n` as a string.
pub(crate) fn to_dec_string(n: u128) -> (r: String)
    ensures
        r@ == dec_chars(n as int),
{
    let mut v: Vec<u8> = Vec::new();
    push_dec_u128(&mut v, n);
    proof {
        lemma_dec_digits_wf(n as int);
        assert(v@ =~= dec_digits(n as int));
        assert forall|i: int| 0 <= i < v@.len() implies v@[i] < 128 by {
            assert(crate::digits::is_digit(v@[i]));
        }
    }
    let r = ascii_to_string(v);
    proof {
        assert(r@ =~= dec_chars(n as int));
    }
    r
}

} // verus!
