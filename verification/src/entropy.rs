use vstd::prelude::*;
use crate::text::{plain_char, plain_text};

verus! {

/// An ASCII letter or digit.
pub open spec fn alnum_char(c: char) -> bool {
    ('a' <= c && c <= 'z') || ('A' <= c && c <= 'Z') || ('0' <= c && c <= '9')
}

/// A sequence of letters and digits is plain JSON text.
pub proof fn lemma_alnum_plain(s: Seq<char>)
    requires
        forall|i: int| 0 <= i < s.len() ==> alnum_char(#[trigger] s[i]),
    ensures
        plain_text(s),
{
    assert forall|i: int| 0 <= i < s.len() implies plain_char(#[trigger] s[i]) by {
        assert(alnum_char(s[i]));
    }
}

/// Relies on rand's `Rng::gen_range` over an inclusive range: the
/// result lies within the bounds. The bounds must be ordered, since
/// `gen_range` panics on an empty range.
#[verifier::external_body]
pub(crate) fn random_in_range(lo: u128, hi: u128) -> (r: u128)
    requires
        lo <= hi,
    ensures
        lo <= r <= hi,
{
    rand::Rng::gen_range(&mut rand::thread_rng(), lo..=hi)
}

/// Relies on rand's `Rng::gen` with the standard distribution on
/// `u128`: nothing is promised of a random value.
#[verifier::external_body]
pub(crate) fn random_u128() -> (r: u128) {
    rand::Rng::gen::<u128>(&mut rand::thread_rng())
}

/// Relies on rand's `Rng::gen` with the standard distribution on
/// `bool`: nothing is promised of a random value.
#[verifier::external_body]
pub(crate) fn random_bool() -> (r: bool) {
    rand::Rng::gen::<bool>(&mut rand::thread_rng())
}

/// Relies on rand's `Alphanumeric` distribution: it samples ASCII
/// letters and digits only, and exactly `len` samples are taken.
#[verifier::external_body]
pub(crate) fn random_alnum_string(len: usize) -> (r: String)
    ensures
        r@.len() == len as nat,
        forall|i: int| 0 <= i < r@.len() ==> alnum_char(#[trigger] r@[i]),
{
    rand::Rng::sample_iter(rand::thread_rng(), &rand::distributions::Alphanumeric)
        .take(len)
        .map(char::from)
        .collect()
}

} // verus!
