//! The user's home directory, as the `dirs` crate finds it.
use vstd::prelude::*;

verus! {

/// Calls `dirs::home_dir`, which reads `$HOME` and falls back to the
/// password database. The answer depends on the environment, so nothing is
/// claimed of it but what the crate's source shows: an empty `$HOME` or
/// home entry yields `None`, so a returned directory is never empty. A path
/// that is not valid UTF-8 is converted lossily.
#[verifier::external_body]
pub(crate) fn home_dir() -> (r: Option<String>)
    ensures
        r matches Some(h) ==> h@.len() > 0,
{
    match dirs::home_dir() {
        Some(p) => Some(p.to_string_lossy().into_owned()),
        None => None,
    }
}

} // verus!
