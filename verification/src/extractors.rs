//! The identity that validation resolves a request to.

use vstd::prelude::*;

verus! {

/// The account that a request acts for. Protected operations take it as an
/// argument and trust it without looking again.
#[derive(Debug, Clone)]
pub struct AuthUser {
    pub id: i64,
    pub email: String,
}

} // verus!
