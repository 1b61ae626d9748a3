use matchpoint::engine::{apply, MatchOp};
use matchpoint::errors::AppError;
use matchpoint::records::{MatchStatus, UserDocument};
use matchpoint::store::Store;

fn user(id: &str, token: &str) -> UserDocument {
    UserDocument {
        id: id.to_string(),
        email: format!("{id}@example.com"),
        name: format!("name-{id}"),
        access_token: token.to_string(),
        description: Some(format!("likes {id}")),
        description_embeddings: Some(vec![1, 2, 3]),
        location: None,
        matches: Vec::new(),
    }
}

fn propose_op() -> MatchOp {
    MatchOp::Propose {
        target_name: "target-name".to_string(),
        target_description: "target-description".to_string(),
    }
}

fn status_of(store: &Store, owner: &str, counterpart: &str) -> MatchStatus {
    let (doc, _) = store.get_by_id(&owner.to_string()).unwrap();
    for m in &doc.matches {
        if m.id == counterpart {
            return m.match_status;
        }
    }
    panic!("no entry for {counterpart} on {owner}");
}

fn two_user_store() -> Store {
    let mut store = Store::new();
    store.put(user("a", "tok-a"), None).unwrap();
    store.put(user("b", "tok-b"), None).unwrap();
    store
}

#[test]
fn propose_creates_complementary_entries() {
    let mut store = two_user_store();
    let a = store.get_by_id(&"a".to_string()).unwrap().0;
    apply(&mut store, &propose_op(), &a, &"b".to_string()).unwrap();
    assert_eq!(status_of(&store, "a", "b"), MatchStatus::Pending);
    assert_eq!(status_of(&store, "b", "a"), MatchStatus::AwaitingUserAction);
}

#[test]
fn propose_snapshots_display_data() {
    let mut store = two_user_store();
    let a = store.get_by_id(&"a".to_string()).unwrap().0;
    apply(&mut store, &propose_op(), &a, &"b".to_string()).unwrap();
    let a_after = store.get_by_id(&"a".to_string()).unwrap().0;
    let b_after = store.get_by_id(&"b".to_string()).unwrap().0;
    // The proposer's entry carries the caller-supplied snapshot of the
    // counterpart; the counterpart's entry snapshots the proposer.
    assert_eq!(a_after.matches[0].id, "b");
    assert_eq!(a_after.matches[0].name, "target-name");
    assert_eq!(a_after.matches[0].description, "target-description");
    assert_eq!(b_after.matches[0].id, "a");
    assert_eq!(b_after.matches[0].name, "name-a");
    assert_eq!(b_after.matches[0].description, "likes a");
}

#[test]
fn propose_twice_is_duplicate() {
    let mut store = two_user_store();
    let a = store.get_by_id(&"a".to_string()).unwrap().0;
    apply(&mut store, &propose_op(), &a, &"b".to_string()).unwrap();
    let r = apply(&mut store, &propose_op(), &a, &"b".to_string());
    assert_eq!(r, Err(AppError::DuplicateMatch));
}

#[test]
fn propose_back_is_duplicate() {
    let mut store = two_user_store();
    let a = store.get_by_id(&"a".to_string()).unwrap().0;
    apply(&mut store, &propose_op(), &a, &"b".to_string()).unwrap();
    let b = store.get_by_id(&"b".to_string()).unwrap().0;
    let r = apply(&mut store, &propose_op(), &b, &"a".to_string());
    assert_eq!(r, Err(AppError::DuplicateMatch));
}

#[test]
fn accept_decides_both_sides() {
    let mut store = two_user_store();
    let a = store.get_by_id(&"a".to_string()).unwrap().0;
    apply(&mut store, &propose_op(), &a, &"b".to_string()).unwrap();
    let b = store.get_by_id(&"b".to_string()).unwrap().0;
    apply(&mut store, &MatchOp::Accept, &b, &"a".to_string()).unwrap();
    assert_eq!(status_of(&store, "a", "b"), MatchStatus::Accepted);
    assert_eq!(status_of(&store, "b", "a"), MatchStatus::Accepted);
}

#[test]
fn reject_after_accept_fails_both_sides() {
    let mut store = two_user_store();
    let a = store.get_by_id(&"a".to_string()).unwrap().0;
    apply(&mut store, &propose_op(), &a, &"b".to_string()).unwrap();
    let b = store.get_by_id(&"b".to_string()).unwrap().0;
    apply(&mut store, &MatchOp::Accept, &b, &"a".to_string()).unwrap();
    // Accepted is terminal: no side may move the pair to Denied.
    let a2 = store.get_by_id(&"a".to_string()).unwrap().0;
    let b2 = store.get_by_id(&"b".to_string()).unwrap().0;
    assert_eq!(
        apply(&mut store, &MatchOp::Reject, &a2, &"b".to_string()),
        Err(AppError::MatchNotFound)
    );
    assert_eq!(
        apply(&mut store, &MatchOp::Reject, &b2, &"a".to_string()),
        Err(AppError::MatchNotFound)
    );
    assert_eq!(status_of(&store, "a", "b"), MatchStatus::Accepted);
    assert_eq!(status_of(&store, "b", "a"), MatchStatus::Accepted);
}

#[test]
fn accept_after_accept_is_noop() {
    let mut store = two_user_store();
    let a = store.get_by_id(&"a".to_string()).unwrap().0;
    apply(&mut store, &propose_op(), &a, &"b".to_string()).unwrap();
    let b = store.get_by_id(&"b".to_string()).unwrap().0;
    apply(&mut store, &MatchOp::Accept, &b, &"a".to_string()).unwrap();
    // Retrying the operation that decided the pair stays error-free, as the
    // partial-write retry contract requires.
    let b2 = store.get_by_id(&"b".to_string()).unwrap().0;
    apply(&mut store, &MatchOp::Accept, &b2, &"a".to_string()).unwrap();
    assert_eq!(status_of(&store, "a", "b"), MatchStatus::Accepted);
    assert_eq!(status_of(&store, "b", "a"), MatchStatus::Accepted);
}

#[test]
fn reject_denies_both_sides_and_retries_cleanly() {
    let mut store = two_user_store();
    let a = store.get_by_id(&"a".to_string()).unwrap().0;
    apply(&mut store, &propose_op(), &a, &"b".to_string()).unwrap();
    let b = store.get_by_id(&"b".to_string()).unwrap().0;
    apply(&mut store, &MatchOp::Reject, &b, &"a".to_string()).unwrap();
    assert_eq!(status_of(&store, "a", "b"), MatchStatus::Denied);
    assert_eq!(status_of(&store, "b", "a"), MatchStatus::Denied);
    // Idempotent retry of the same Reject after success must not error.
    let b2 = store.get_by_id(&"b".to_string()).unwrap().0;
    apply(&mut store, &MatchOp::Reject, &b2, &"a".to_string()).unwrap();
    assert_eq!(status_of(&store, "a", "b"), MatchStatus::Denied);
    assert_eq!(status_of(&store, "b", "a"), MatchStatus::Denied);
}

#[test]
fn accept_without_propose_is_match_not_found() {
    let mut store = two_user_store();
    let a = store.get_by_id(&"a".to_string()).unwrap().0;
    assert_eq!(
        apply(&mut store, &MatchOp::Accept, &a, &"b".to_string()),
        Err(AppError::MatchNotFound)
    );
}

#[test]
fn propose_to_unknown_peer_is_not_found() {
    let mut store = two_user_store();
    let a = store.get_by_id(&"a".to_string()).unwrap().0;
    assert_eq!(
        apply(&mut store, &propose_op(), &a, &"nobody".to_string()),
        Err(AppError::NotFoundError)
    );
}

#[test]
fn propose_to_self_is_not_found() {
    let mut store = two_user_store();
    let a = store.get_by_id(&"a".to_string()).unwrap().0;
    assert_eq!(
        apply(&mut store, &propose_op(), &a, &"a".to_string()),
        Err(AppError::NotFoundError)
    );
}

#[test]
fn apply_for_vanished_actor_is_unauthenticated() {
    let mut store = two_user_store();
    let ghost_user = user("zz", "tok-z");
    assert_eq!(
        apply(&mut store, &propose_op(), &ghost_user, &"b".to_string()),
        Err(AppError::Unauthenticated)
    );
}

#[test]
fn partial_accept_then_retry_completes() {
    // A write failure after the actor-side write but before the peer-side
    // write leaves the pair half-applied; retrying the same Accept must
    // treat the already-written side as a no-op and finish the other.
    let mut store = two_user_store();
    let a = store.get_by_id(&"a".to_string()).unwrap().0;
    apply(&mut store, &propose_op(), &a, &"b".to_string()).unwrap();
    store.set_fault_countdown(Some(1));
    let a2 = store.get_by_id(&"a".to_string()).unwrap().0;
    let r = apply(&mut store, &MatchOp::Accept, &a2, &"b".to_string());
    assert_eq!(r, Err(AppError::PartiallyApplied));
    assert_eq!(status_of(&store, "a", "b"), MatchStatus::Accepted);
    assert_eq!(status_of(&store, "b", "a"), MatchStatus::AwaitingUserAction);
    store.set_fault_countdown(None);
    let a3 = store.get_by_id(&"a".to_string()).unwrap().0;
    apply(&mut store, &MatchOp::Accept, &a3, &"b".to_string()).unwrap();
    assert_eq!(status_of(&store, "a", "b"), MatchStatus::Accepted);
    assert_eq!(status_of(&store, "b", "a"), MatchStatus::Accepted);
}

#[test]
fn exhausted_store_fails_with_store_unavailable() {
    let mut store = two_user_store();
    let a = store.get_by_id(&"a".to_string()).unwrap().0;
    store.set_fault_countdown(Some(0));
    let r = apply(&mut store, &propose_op(), &a, &"b".to_string());
    assert_eq!(r, Err(AppError::StoreUnavailable));
    // Nothing was applied on either side.
    assert!(store.get_by_id(&"a".to_string()).unwrap().0.matches.is_empty());
    assert!(store.get_by_id(&"b".to_string()).unwrap().0.matches.is_empty());
}

#[test]
fn stale_version_write_conflicts() {
    let mut store = two_user_store();
    let (mut doc, version) = store.get_by_id(&"a".to_string()).unwrap();
    doc.name = "changed once".to_string();
    store.put(doc.clone(), Some(version)).unwrap();
    // A second write conditioned on the version read before the first one
    // must lose the race.
    doc.name = "changed twice".to_string();
    assert_eq!(store.put(doc, Some(version)), Err(AppError::Conflict));
}
