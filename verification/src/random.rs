use vstd::prelude::*;

use rand::distr::SampleString;

verus! {

/// A character that may appear in a generated entity id.
pub open spec fn is_id_char(c: char) -> bool {
    ('a' <= c && c <= 'z') || ('A' <= c && c <= 'Z') || ('0' <= c && c <= '9')
}

/// Relies on rand's `Alphanumeric::sample_string`: it appends exactly `len`
/// uniformly sampled ASCII alphanumeric characters to an empty string. The
/// characters are random, so nothing more is promised of them.
#[verifier::external_body]
pub fn generate_string(len: usize) -> (r: String)
    ensures
        r@.len() == len,
        forall|i: int| 0 <= i < r@.len() ==> is_id_char(#[trigger] r@[i]),
{
    rand::distr::Alphanumeric.sample_string(&mut rand::rng(), len)
}

} // verus!
