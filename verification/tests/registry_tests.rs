use chat_core::constants::MAX_CONNECTIONS;
use chat_core::registry::SharedState;

#[test]
fn test_username_uniqueness() {
    let mut state = SharedState::new();
    // Two registrations for the same name: exactly one succeeds.
    let first = state.add_user("alice".to_string());
    assert_eq!(first, Some(1));
    let second = state.add_user("alice".to_string());
    assert_eq!(second, None);
    // The rejected one consumed no id.
    assert_eq!(state.add_user("bob".to_string()), Some(2));
    // The table holds each name once.
    let names = state.online_users();
    assert_eq!(names, vec!["alice".to_string(), "bob".to_string()]);
}

#[test]
fn test_admission_limit() {
    let mut state = SharedState::new();
    for _ in 0..MAX_CONNECTIONS {
        assert!(state.try_add_connection());
    }
    // The next attempt is rejected and not counted against the live total.
    assert!(!state.try_add_connection());
    assert_eq!(state.online_count(), MAX_CONNECTIONS as u32);
    // Releasing one slot admits one more.
    state.remove_connection();
    assert!(state.try_add_connection());
    assert!(!state.try_add_connection());
}

#[test]
fn test_idempotent_removal() {
    let mut state = SharedState::new();
    let id = state.add_user("alice".to_string()).unwrap();
    assert_eq!(state.remove_user(id), Some("alice".to_string()));
    // Removing the same id again frees nothing.
    assert_eq!(state.remove_user(id), None);
    // The name is free again.
    assert_eq!(state.add_user("alice".to_string()), Some(2));
}

#[test]
fn test_removal_keeps_other_users() {
    let mut state = SharedState::new();
    let a = state.add_user("alice".to_string()).unwrap();
    let b = state.add_user("bob".to_string()).unwrap();
    let c = state.add_user("carol".to_string()).unwrap();
    assert_eq!((a, b, c), (1, 2, 3));
    assert_eq!(state.remove_user(b), Some("bob".to_string()));
    assert_eq!(
        state.online_users(),
        vec!["alice".to_string(), "carol".to_string()]
    );
    assert!(!state.contains_name(&"bob".to_string()));
    assert!(state.contains_name(&"carol".to_string()));
}
