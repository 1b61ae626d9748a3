//! The denormalized projection kept in sync with the search index.
//!
//! The search index is an external collaborator, written to after
//! successful state changes on a best-effort basis; this module defines the
//! searchable projection of a record and the shape of an index write, and
//! the projection itself is verified.

use vstd::prelude::*;

use crate::records::{Point, UserDocument};

verus! {

/// The searchable slice of a user record: identity and profile, without
/// credentials or relationship state.
#[derive(Debug)]
pub struct UserSearchData {
    pub id: String,
    pub name: String,
    pub description: Option<String>,
    pub description_embeddings: Option<Vec<i64>>,
    pub location: Option<Point>,
}

impl From<UserDocument> for UserSearchData {
    fn from(user_doc: UserDocument) -> (r: UserSearchData)
        ensures
            r.id@ == user_doc.id@,
            r.name@ == user_doc.name@,
            r.description == user_doc.description,
            r.description_embeddings == user_doc.description_embeddings,
            r.location == user_doc.location,
    {
        UserSearchData {
            id: user_doc.id,
            name: user_doc.name,
            description: user_doc.description,
            description_embeddings: user_doc.description_embeddings,
            location: user_doc.location,
        }
    }
}

impl vstd::std_specs::convert::FromSpecImpl<UserDocument> for UserSearchData {
    open spec fn obeys_from_spec() -> bool {
        true
    }

    open spec fn from_spec(user_doc: UserDocument) -> UserSearchData {
        UserSearchData {
            id: user_doc.id,
            name: user_doc.name,
            description: user_doc.description,
            description_embeddings: user_doc.description_embeddings,
            location: user_doc.location,
        }
    }
}

/// What an index write does with its projection.
#[derive(Clone, Copy, PartialEq, Eq, Structural, Debug)]
pub enum IndexActionType {
    Delete,
    Merge,
    MergeOrUpload,
    Upload,
}

/// One entry of a bulk index write: an action and the projection it
/// applies to.
#[derive(Debug)]
pub struct IndexAction {
    pub action_type: IndexActionType,
    pub user_document: UserSearchData,
}

} // verus!
