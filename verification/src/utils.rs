use crate::crypto;
use crate::crypto::all_alphanumeric;
use vstd::prelude::*;

verus! {

/// Returns a secure random token of length `n`.
pub fn random_token(n: usize) -> (token: String)
    ensures
        token@.len() == n,
        all_alphanumeric(token@),
{
    crypto::random_token(n)
}

} // verus!
