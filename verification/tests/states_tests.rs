use symphony_core::extensions_manager::ExtensionsManager;
use symphony_core::states::AuthError;
use symphony_core::states::MemoryPersistor;
use symphony_core::states::PersistError;
use symphony_core::states::State;
use symphony_core::states::StatesList;
use symphony_core::states::TokenFlags;

fn registry_with_state_one(tokens: Vec<TokenFlags>) -> StatesList {
    let state = State::new(1, ExtensionsManager::new(), MemoryPersistor::new());
    StatesList::new().with_tokens(tokens).with_state(state)
}

#[test]
fn all_token_reaches_registered_state() {
    let states = registry_with_state_one(vec![TokenFlags::All("test".to_string())]);
    let state = states.resolve(&"test".to_string(), 1).unwrap();
    assert_eq!(state.id, 1);
}

#[test]
fn unknown_token_is_unauthorized() {
    let states = registry_with_state_one(vec![TokenFlags::All("test".to_string())]);
    assert!(matches!(
        states.resolve(&"wrong".to_string(), 1),
        Err(AuthError::Unauthorized)
    ));
}

#[test]
fn granted_but_unregistered_state_fails_closed() {
    let states = registry_with_state_one(vec![TokenFlags::All("test".to_string())]);
    assert!(matches!(
        states.resolve(&"test".to_string(), 9),
        Err(AuthError::Unauthorized)
    ));
}

#[test]
fn subset_token_reaches_only_its_states() {
    let s1 = State::new(1, ExtensionsManager::new(), MemoryPersistor::new());
    let s2 = State::new(2, ExtensionsManager::new(), MemoryPersistor::new());
    let states = StatesList::new()
        .with_tokens(vec![TokenFlags::Subset("narrow".to_string(), vec![2])])
        .with_state(s1)
        .with_state(s2);

    assert!(matches!(
        states.resolve(&"narrow".to_string(), 1),
        Err(AuthError::Unauthorized)
    ));
    let reached = states.resolve(&"narrow".to_string(), 2).unwrap();
    assert_eq!(reached.id, 2);
}

#[test]
fn empty_registry_resolves_nothing() {
    let states = StatesList::new();
    assert!(matches!(
        states.resolve(&"anything".to_string(), 0),
        Err(AuthError::Unauthorized)
    ));
}

#[test]
fn memory_persistor_round_trip() {
    let mut p = MemoryPersistor::new();
    assert_eq!(p.load().unwrap_err(), PersistError::NothingStored);
    assert!(p.save(&"settings-blob".to_string()).is_ok());
    assert_eq!(p.load().unwrap(), "settings-blob");
}
