use matchpoint::auth::login;
use matchpoint::errors::AppError;
use matchpoint::records::{Point, UserDocument};
use matchpoint::session::resolve;
use matchpoint::store::Store;

fn is_alphanumeric_ascii(s: &str) -> bool {
    s.chars().all(|c| c.is_ascii_alphanumeric())
}

#[test]
fn login_registers_new_user() {
    let mut store = Store::new();
    let d = login(&mut store, &"ada@example.com".to_string(), &"Ada".to_string()).unwrap();
    assert_eq!(d.email, "ada@example.com");
    assert_eq!(d.name, "Ada");
    assert!(d.description.is_none());
    assert!(d.description_embeddings.is_none());
    assert!(d.location.is_none());
    assert!(d.matches.is_empty());
    // The generated token is 32 alphanumeric characters; the fresh id is a
    // 36-character hyphenated UUID. A wrapper handing an input back
    // unchanged could produce neither.
    assert_eq!(d.access_token.len(), 32);
    assert!(is_alphanumeric_ascii(&d.access_token));
    assert_eq!(d.id.len(), 36);
    assert_eq!(d.id.matches('-').count(), 4);
    // The stored record is the returned one.
    let resolved = resolve(&d.access_token, &store).unwrap();
    assert_eq!(resolved.id, d.id);
}

#[test]
fn login_again_keeps_identity_and_rotates_token() {
    let mut store = Store::new();
    let first = login(&mut store, &"ada@example.com".to_string(), &"Ada".to_string()).unwrap();
    let second = login(&mut store, &"ada@example.com".to_string(), &"Ada".to_string()).unwrap();
    assert_eq!(second.id, first.id);
    assert_eq!(second.email, first.email);
    assert_eq!(second.access_token.len(), 32);
    assert!(is_alphanumeric_ascii(&second.access_token));
    // The overwritten token no longer resolves; the new one does.
    if second.access_token != first.access_token {
        assert!(resolve(&first.access_token, &store).is_err());
    }
    let resolved = resolve(&second.access_token, &store).unwrap();
    assert_eq!(resolved.id, first.id);
}

#[test]
fn login_keeps_existing_profile() {
    let mut store = Store::new();
    store
        .put(
            UserDocument {
                id: "u1".to_string(),
                email: "ada@example.com".to_string(),
                name: "Ada".to_string(),
                access_token: "old-token".to_string(),
                description: Some("climbing".to_string()),
                description_embeddings: Some(vec![7, 8]),
                location: Some(Point::new(3, 4)),
                matches: Vec::new(),
            },
            None,
        )
        .unwrap();
    let d = login(&mut store, &"ada@example.com".to_string(), &"Ada Again".to_string()).unwrap();
    // Only the token changes on a repeated login.
    assert_eq!(d.id, "u1");
    assert_eq!(d.name, "Ada");
    assert_eq!(d.description.as_deref(), Some("climbing"));
    assert_eq!(d.description_embeddings, Some(vec![7, 8]));
    assert_eq!(d.location, Some(Point::new(3, 4)));
    assert_ne!(d.access_token, "old-token");
}

#[test]
fn login_on_unavailable_store_fails() {
    let mut store = Store::new();
    store.set_fault_countdown(Some(0));
    let r = login(&mut store, &"ada@example.com".to_string(), &"Ada".to_string());
    assert_eq!(r.err(), Some(AppError::StoreUnavailable));
}
