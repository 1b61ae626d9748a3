//! Session resolution: an opaque bearer token names at most one user.
//!
//! Token uniqueness is advisory — the store does not enforce it — so a
//! token carried by more than one record is an observable error, never
//! silently resolved to the first match.

use vstd::prelude::*;

use crate::errors::AuthError;
use crate::records::UserDocument;
use crate::store::{count_with_token, Store};

verus! {

/// Resolve a bearer token to the unique record carrying it.
///
/// Returns the record exactly when one record carries the token; zero
/// matches and two or more matches both fail with `AuthError`. The query
/// consumes one page window of at most two records, which is enough to
/// tell "zero", "one" and "more than one" apart.
pub fn resolve(token: &String, store: &Store) -> (r: Result<UserDocument, AuthError>)
    ensures
        r is Ok <==> count_with_token(store.docs(), token@) == 1,
        match r {
            Ok(d) => d@.access_token == token@ && d@.wf() && exists|i: int|
                0 <= i < store.docs().len() && d@ == store.docs()[i],
            Err(e) => e == AuthError,
        },
{
    let mut page = store.find_by_token(token, 2);
    if page.len() == 1 {
        match page.pop() {
            Some(d) => Ok(d),
            None => Err(AuthError),
        }
    } else {
        Err(AuthError)
    }
}

} // verus!
