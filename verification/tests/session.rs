use matchpoint::records::UserDocument;
use matchpoint::store::Store;
use matchpoint::session::resolve;

fn user(id: &str, email: &str, name: &str, token: &str) -> UserDocument {
    UserDocument {
        id: id.to_string(),
        email: email.to_string(),
        name: name.to_string(),
        access_token: token.to_string(),
        description: None,
        description_embeddings: None,
        location: None,
        matches: Vec::new(),
    }
}

#[test]
fn resolve_unique_token_returns_record() {
    let mut store = Store::new();
    store.put(user("a", "a@example.com", "Ada", "tok-a"), None).unwrap();
    store.put(user("b", "b@example.com", "Ben", "tok-b"), None).unwrap();
    let d = resolve(&"tok-a".to_string(), &store).unwrap();
    assert_eq!(d.id, "a");
    assert_eq!(d.email, "a@example.com");
}

#[test]
fn resolve_unknown_token_fails() {
    let mut store = Store::new();
    store.put(user("a", "a@example.com", "Ada", "tok-a"), None).unwrap();
    assert!(resolve(&"tok-x".to_string(), &store).is_err());
}

#[test]
fn resolve_empty_store_fails() {
    let store = Store::new();
    assert!(resolve(&"tok-a".to_string(), &store).is_err());
}

#[test]
fn resolve_ambiguous_token_fails() {
    let mut store = Store::new();
    store.put(user("a", "a@example.com", "Ada", "tok-dup"), None).unwrap();
    store.put(user("b", "b@example.com", "Ben", "tok-dup"), None).unwrap();
    // Token uniqueness is advisory: a duplicated token must surface as an
    // error, never resolve to the first match.
    assert!(resolve(&"tok-dup".to_string(), &store).is_err());
}

#[test]
fn resolve_two_of_three_share_token() {
    let mut store = Store::new();
    store.put(user("a", "a@example.com", "Ada", "tok-dup"), None).unwrap();
    store.put(user("b", "b@example.com", "Ben", "tok-dup"), None).unwrap();
    store.put(user("c", "c@example.com", "Cyd", "tok-c"), None).unwrap();
    assert!(resolve(&"tok-dup".to_string(), &store).is_err());
    let d = resolve(&"tok-c".to_string(), &store).unwrap();
    assert_eq!(d.id, "c");
}
