use matchpoint::errors::AppError;
use matchpoint::profile::{set_profile, sync_position};
use matchpoint::projection::{IndexActionType, UserSearchData};
use matchpoint::records::{Point, UserDocument};
use matchpoint::store::Store;

fn user(id: &str, token: &str) -> UserDocument {
    UserDocument {
        id: id.to_string(),
        email: format!("{id}@example.com"),
        name: format!("name-{id}"),
        access_token: token.to_string(),
        description: None,
        description_embeddings: None,
        location: None,
        matches: Vec::new(),
    }
}

#[test]
fn sync_position_stores_location() {
    let mut store = Store::new();
    store.put(user("a", "tok-a"), None).unwrap();
    let a = store.get_by_id(&"a".to_string()).unwrap().0;
    sync_position(&mut store, &a, 41, -74).unwrap();
    let after = store.get_by_id(&"a".to_string()).unwrap().0;
    assert_eq!(after.location, Some(Point::new(41, -74)));
    // Everything else is untouched.
    assert_eq!(after.access_token, "tok-a");
    assert!(after.matches.is_empty());
}

#[test]
fn sync_position_for_unknown_actor_fails() {
    let mut store = Store::new();
    let ghost_user = user("zz", "tok-z");
    assert_eq!(
        sync_position(&mut store, &ghost_user, 1, 2),
        Err(AppError::Unauthenticated)
    );
}

#[test]
fn set_profile_stores_text_and_vector_together() {
    let mut store = Store::new();
    store.put(user("a", "tok-a"), None).unwrap();
    let a = store.get_by_id(&"a".to_string()).unwrap().0;
    set_profile(&mut store, &a, "likes climbing".to_string(), vec![10, -3, 8]).unwrap();
    let after = store.get_by_id(&"a".to_string()).unwrap().0;
    assert_eq!(after.description.as_deref(), Some("likes climbing"));
    assert_eq!(after.description_embeddings, Some(vec![10, -3, 8]));
}

#[test]
fn set_profile_on_unavailable_store_fails() {
    let mut store = Store::new();
    store.put(user("a", "tok-a"), None).unwrap();
    let a = store.get_by_id(&"a".to_string()).unwrap().0;
    store.set_fault_countdown(Some(0));
    assert_eq!(
        set_profile(&mut store, &a, "text".to_string(), vec![1]),
        Err(AppError::StoreUnavailable)
    );
    let after = store.get_by_id(&"a".to_string()).unwrap().0;
    assert!(after.description.is_none());
}

#[test]
fn projection_drops_credentials_and_matches() {
    let mut d = user("a", "tok-a");
    d.description = Some("text".to_string());
    d.description_embeddings = Some(vec![5, 6]);
    d.location = Some(Point::new(1, 2));
    let p = UserSearchData::from(d);
    assert_eq!(p.id, "a");
    assert_eq!(p.name, "name-a");
    assert_eq!(p.description.as_deref(), Some("text"));
    assert_eq!(p.description_embeddings, Some(vec![5, 6]));
    assert_eq!(p.location, Some(Point::new(1, 2)));
}

#[test]
fn index_action_types_are_distinct() {
    assert_ne!(IndexActionType::Merge, IndexActionType::MergeOrUpload);
    assert_ne!(IndexActionType::Upload, IndexActionType::Delete);
}
