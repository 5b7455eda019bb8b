use rand::Rng;
use vstd::prelude::*;

verus! {

/// An ASCII letter or digit.
pub open spec fn is_alphanumeric(c: char) -> bool {
    ('a' <= c && c <= 'z') || ('A' <= c && c <= 'Z') || ('0' <= c && c <= '9')
}

/// The shortest generated identifier.
pub const ID_MIN_LEN: usize = 10;

/// The longest generated identifier.
pub const ID_MAX_LEN: usize = 20;

/// Relies on rand::Rng::gen_range over an inclusive range: the value drawn
/// lies in `lo..=hi` (it panics only on an empty range, which `requires` rules out).
#[verifier::external_body]
fn random_in_range(lo: usize, hi: usize) -> (r: usize)
    requires
        lo <= hi,
    ensures
        lo <= r <= hi,
{
    rand::thread_rng().gen_range(lo..=hi)
}

/// Relies on rand::Rng::sample_iter with rand::distributions::Alphanumeric:
/// each sample is one of the 62 ASCII letters and digits, and `n` are taken.
#[verifier::external_body]
fn random_alphanumeric(n: usize) -> (r: String)
    ensures
        r@.len() == n,
        forall|i: int| 0 <= i < r@.len() ==> is_alphanumeric(#[trigger] r@[i]),
{
    rand::thread_rng().sample_iter(rand::distributions::Alphanumeric).take(n).map(char::from).collect()
}

/// A fresh random identifier of 10 to 20 ASCII letters and digits.
pub fn random_id() -> (r: String)
    ensures
        ID_MIN_LEN <= r@.len() <= ID_MAX_LEN,
        forall|i: int| 0 <= i < r@.len() ==> is_alphanumeric(#[trigger] r@[i]),
{
    let n = random_in_range(ID_MIN_LEN, ID_MAX_LEN);
    random_alphanumeric(n)
}

} // verus!
