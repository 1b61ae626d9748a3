//! Login: registration and bearer-token refresh.
//!
//! The identity provider (which turns an OAuth id token into a verified
//! email and name) is an external collaborator; callers hand this module
//! the verified identity. A successful login regenerates the user's bearer
//! token — the field is overwritten, so at most one token per user is valid
//! at a time — and registers a fresh record on first login.

use vstd::prelude::*;

use rand::distributions::{Alphanumeric, DistString};

use crate::errors::AppError;
use crate::records::{Point, UserDocument, UserView};
use crate::store::{
    count_with_email, dec_fault, doc_index, has_doc, Store,
};

verus! {

/// The alphabet of generated bearer tokens: ASCII letters and digits.
pub open spec fn is_token_char(c: char) -> bool {
    ||| ('a' as u32) <= (c as u32) <= ('z' as u32)
    ||| ('A' as u32) <= (c as u32) <= ('Z' as u32)
    ||| ('0' as u32) <= (c as u32) <= ('9' as u32)
}

/// Relies on rand's `Alphanumeric` distribution: `sample_string` draws
/// exactly the requested number of characters, each an ASCII letter or
/// digit. Nothing else is assumed of the randomness.
#[verifier::external_body]
fn generate_token() -> (r: String)
    ensures
        r@.len() == 32,
        forall|i: int| 0 <= i < 32 ==> is_token_char(r@[i]),
{
    let mut rng = rand::thread_rng();
    Alphanumeric.sample_string(&mut rng, 32)
}

/// Relies on uuid's `Uuid::new_v4` and its `String` conversion: the
/// hyphenated form of a UUID is 36 characters. Nothing else is assumed of
/// the randomness.
#[verifier::external_body]
fn fresh_user_id() -> (r: String)
    ensures
        r@.len() == 36,
{
    String::from(uuid::Uuid::new_v4())
}

/// The record a login stores: the existing record with its bearer token
/// overwritten, or a fresh record for a first login.
pub fn refreshed_record(
    existing: Option<UserDocument>,
    fresh_id: String,
    email: String,
    name: String,
    token: String,
) -> (r: UserDocument)
    ensures
        match existing {
            Some(d) => r@ == (UserView { access_token: token@, ..d@ }),
            None => r@ == (UserView {
                id: fresh_id@,
                email: email@,
                name: name@,
                access_token: token@,
                description: None::<Seq<char>>,
                description_embeddings: None::<Seq<i64>>,
                location: None::<Point>,
                matches: Seq::empty(),
            }),
        },
{
    match existing {
        Some(mut d) => {
            let ghost dv = d@;
            d.access_token = token;
            proof {
                assert(d@ =~~= (UserView { access_token: d@.access_token, ..dv }));
            }
            d
        },
        None => {
            let r = UserDocument {
                id: fresh_id,
                email,
                name,
                access_token: token,
                description: None,
                description_embeddings: None,
                location: None,
                matches: Vec::new(),
            };
            proof {
                assert(r@.matches =~= Seq::<crate::records::MatchView>::empty());
            }
            r
        },
    }
}

/// Log the verified identity `email`/`name` in: reuse the record already
/// carrying that email, overwriting its bearer token with a fresh one, or
/// register a fresh record; then persist it. Returns the stored record,
/// whose `access_token` is the new bearer credential.
pub fn login(store: &mut Store, email: &String, name: &String) -> (r: Result<
    UserDocument,
    AppError,
>)
    ensures
        r is Ok <==> old(store).faults() != Some(0usize),
        match r {
            Ok(d) => {
                &&& d@.wf()
                &&& d@.email == email@
                &&& d@.access_token.len() == 32
                &&& (forall|i: int| 0 <= i < 32 ==> is_token_char(d@.access_token[i]))
                &&& (if count_with_email(old(store).docs(), email@) == 0 {
                    d@.name == name@ && d@.matches.len() == 0 && d@.description is None
                        && d@.description_embeddings is None && d@.location is None && d@.id.len()
                        == 36
                } else {
                    exists|x: int|
                        0 <= x < old(store).docs().len() && #[trigger] old(store).docs()[x].email
                            == email@ && d@ == (UserView {
                            access_token: d@.access_token,
                            ..old(store).docs()[x]
                        })
                })
                &&& final(store).docs() == (if has_doc(old(store).docs(), d@.id) {
                    old(store).docs().update(doc_index(old(store).docs(), d@.id), d@)
                } else {
                    old(store).docs().push(d@)
                })
                &&& final(store).faults() == dec_fault(old(store).faults())
            },
            Err(e) => e == AppError::StoreUnavailable && final(store).docs() == old(store).docs()
                && final(store).versions() == old(store).versions() && final(store).faults() == old(
                store,
            ).faults(),
        },
{
    let mut found = store.find_by_email(email, 1);
    let existing: Option<UserDocument> = found.pop();
    let token = generate_token();
    let id = fresh_user_id();
    let record = refreshed_record(existing, id, email.clone(), name.clone(), token);
    let stored = record.clone();
    match store.put(record, None) {
        Ok(_) => Ok(stored),
        Err(e) => Err(e),
    }
}

} // verus!
