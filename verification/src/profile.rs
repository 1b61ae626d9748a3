//! Profile updates on a single record: location and description.
//!
//! Each operation is one optimistic read-modify-write of the caller's own
//! record. The embedding provider (free text to vector) is an external
//! collaborator; callers hand this module the vector, in its fixed-point
//! integer representation, together with the text it represents, so the
//! both-present-or-both-absent invariant of the pair is kept by
//! construction.

use vstd::prelude::*;

use crate::errors::AppError;
use crate::records::{Point, UserDocument, UserView};
use crate::store::{bump, dec_fault, doc_index, has_doc, Store};

verus! {

/// Everything a single-record update promises: `Unauthenticated` when the
/// caller's record is gone, `StoreUnavailable` (and no change) when the
/// write fails, and otherwise exactly the one record replaced by `updated`.
pub open spec fn single_write_post(
    d0: Seq<UserView>,
    v0: Seq<u64>,
    f0: Option<usize>,
    id: Seq<char>,
    updated: UserView,
    r: Result<(), AppError>,
    d1: Seq<UserView>,
    v1: Seq<u64>,
    f1: Option<usize>,
) -> bool {
    if !has_doc(d0, id) {
        r == Err::<(), AppError>(AppError::Unauthenticated) && d1 == d0 && v1 == v0 && f1 == f0
    } else if f0 == Some(0usize) {
        r == Err::<(), AppError>(AppError::StoreUnavailable) && d1 == d0 && v1 == v0 && f1 == f0
    } else {
        let i = doc_index(d0, id);
        r == Ok::<(), AppError>(()) && d1 == d0.update(i, updated) && v1 == v0.update(
            i,
            bump(v0[i]),
        ) && f1 == dec_fault(f0)
    }
}

/// The caller's record with its location replaced.
pub open spec fn with_location(u: UserView, latitude: i32, longitude: i32) -> UserView {
    UserView { location: Some(Point { latitude, longitude }), ..u }
}

/// The caller's record with its profile text and the text's vector
/// representation replaced, both at once.
pub open spec fn with_profile(u: UserView, description: Seq<char>, embeddings: Seq<i64>) -> UserView {
    UserView {
        description: Some(description),
        description_embeddings: Some(embeddings),
        ..u
    }
}

/// Publish the caller's current location, in micro-degrees.
pub fn sync_position(
    store: &mut Store,
    actor: &UserDocument,
    latitude: i32,
    longitude: i32,
) -> (r: Result<(), AppError>)
    ensures
        single_write_post(
            old(store).docs(),
            old(store).versions(),
            old(store).faults(),
            actor@.id,
            with_location(
                old(store).docs()[doc_index(old(store).docs(), actor@.id)],
                latitude,
                longitude,
            ),
            r,
            final(store).docs(),
            final(store).versions(),
            final(store).faults(),
        ),
{
    let (cur, v) = match store.get_by_id(&actor.id) {
        Some(x) => x,
        None => {
            return Err(AppError::Unauthenticated);
        },
    };
    let ghost cv = cur@;
    let mut d = cur;
    d.location = Some(Point::new(latitude, longitude));
    proof {
        assert(d@ =~~= with_location(cv, latitude, longitude));
    }
    match store.put(d, Some(v)) {
        Ok(_) => Ok(()),
        Err(e) => Err(e),
    }
}

/// Store the caller's profile text together with its vector representation.
pub fn set_profile(
    store: &mut Store,
    actor: &UserDocument,
    description: String,
    embeddings: Vec<i64>,
) -> (r: Result<(), AppError>)
    ensures
        single_write_post(
            old(store).docs(),
            old(store).versions(),
            old(store).faults(),
            actor@.id,
            with_profile(
                old(store).docs()[doc_index(old(store).docs(), actor@.id)],
                description@,
                embeddings@,
            ),
            r,
            final(store).docs(),
            final(store).versions(),
            final(store).faults(),
        ),
{
    let (cur, v) = match store.get_by_id(&actor.id) {
        Some(x) => x,
        None => {
            return Err(AppError::Unauthenticated);
        },
    };
    let ghost cv = cur@;
    let mut d = cur;
    d.description = Some(description);
    d.description_embeddings = Some(embeddings);
    proof {
        assert(d@ =~~= with_profile(cv, description@, embeddings@));
    }
    match store.put(d, Some(v)) {
        Ok(_) => Ok(()),
        Err(e) => Err(e),
    }
}

} // verus!
