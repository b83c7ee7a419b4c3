use symphony_core::extensions_manager::ExtensionsManager;
use symphony_core::manifest::ManifestInfo;
use symphony_core::memory_fs::str_has_prefix;
use symphony_core::messaging::ClientMessages;
use symphony_core::messaging::Errors;
use symphony_core::messaging::ServerMessages;
use symphony_core::server::Server;
use symphony_core::states::MemoryPersistor;
use symphony_core::states::State;
use symphony_core::states::StatesList;
use symphony_core::states::TokenFlags;

const TOKEN: &str = "symphony_token";

fn server_with_state_one() -> Server {
    let state = State::new(1, ExtensionsManager::new(), MemoryPersistor::new());
    let states = StatesList::new()
        .with_tokens(vec![TokenFlags::All(TOKEN.to_string())])
        .with_state(state);
    Server::new(states)
}

fn write(server: &mut Server, path: &str, content: &str) -> ServerMessages {
    server.handle_message(
        &TOKEN.to_string(),
        ClientMessages::WriteFile(1, path.to_string(), content.to_string()),
    )
}

#[test]
fn write_then_read_round_trip() {
    let mut server = server_with_state_one();

    let written = write(&mut server, "notes.txt", "hello world");
    assert_eq!(written, ServerMessages::FileWritten(1, "notes.txt".to_string(), Ok(())));

    let read = server.handle_message(
        &TOKEN.to_string(),
        ClientMessages::ReadFile(1, "notes.txt".to_string(), Ok("".to_string())),
    );
    assert_eq!(
        read,
        ServerMessages::FileRead(1, "notes.txt".to_string(), Ok("hello world".to_string()))
    );
}

#[test]
fn overwrite_returns_the_latest_content() {
    let mut server = server_with_state_one();
    write(&mut server, "a", "one");
    write(&mut server, "a", "two");
    let read = server.handle_message(
        &TOKEN.to_string(),
        ClientMessages::ReadFile(1, "a".to_string(), Ok("".to_string())),
    );
    assert_eq!(read, ServerMessages::FileRead(1, "a".to_string(), Ok("two".to_string())));
}

#[test]
fn listing_names_exactly_the_created_files() {
    let mut server = server_with_state_one();
    write(&mut server, "dir/a", "1");
    write(&mut server, "dir/b", "2");
    write(&mut server, "dir/c", "3");
    write(&mut server, "other/x", "4");

    let listed = server.handle_message(
        &TOKEN.to_string(),
        ClientMessages::ListDir(1, "dir/".to_string(), Ok(vec![])),
    );
    match listed {
        ServerMessages::DirListed(1, dir, Ok(items)) => {
            assert_eq!(dir, "dir/");
            let mut paths: Vec<String> = items.iter().map(|d| d.path.clone()).collect();
            paths.sort();
            assert_eq!(paths, vec!["dir/a".to_string(), "dir/b".to_string(), "dir/c".to_string()]);
            assert!(items.iter().all(|d| d.is_file));
        },
        other => panic!("unexpected response: {:?}", other),
    }
}

#[test]
fn reading_a_missing_file_is_an_error_payload() {
    let mut server = server_with_state_one();
    let read = server.handle_message(
        &TOKEN.to_string(),
        ClientMessages::ReadFile(1, "gone".to_string(), Ok("".to_string())),
    );
    assert_eq!(
        read,
        ServerMessages::FileRead(1, "gone".to_string(), Err(Errors::FileNotFound))
    );
}

#[test]
fn unauthorized_token_is_answered_not_dropped() {
    let mut server = server_with_state_one();
    let r = server.handle_message(&"intruder".to_string(), ClientMessages::GetState(1));
    assert_eq!(r, ServerMessages::StateData(1, Err(Errors::Unauthorized)));
}

#[test]
fn unknown_state_is_answered_not_dropped() {
    let mut server = server_with_state_one();
    let r = server.handle_message(&TOKEN.to_string(), ClientMessages::GetState(9));
    assert_eq!(r, ServerMessages::StateData(9, Err(Errors::StateNotFound)));
}

#[test]
fn state_slot_set_then_get() {
    let mut server = server_with_state_one();
    let set = server.handle_message(
        &TOKEN.to_string(),
        ClientMessages::SetState(1, "layout=two-column".to_string()),
    );
    assert_eq!(set, ServerMessages::StateUpdated(1, Ok(())));

    let got = server.handle_message(&TOKEN.to_string(), ClientMessages::GetState(1));
    assert_eq!(got, ServerMessages::StateData(1, Ok("layout=two-column".to_string())));

    // The update went through the persistence strategy too.
    assert_eq!(server.states.states[0].persistor.load().unwrap(), "layout=two-column");
}

#[test]
fn capability_message_fans_out_to_ready_extensions() {
    let mut server = server_with_state_one();
    {
        let manager = &mut server.states.states[0].extensions_manager;
        manager.load_extension_with_deno(
            "term.js".to_string(),
            ManifestInfo { name: "term".to_string(), version: "1".to_string() },
            1,
        );
        manager.extensions[0].init();
    }

    let msg = ClientMessages::CreateTerminalShell(1, "shell-1".to_string());
    let r = server.handle_message(&TOKEN.to_string(), msg.clone());
    assert_eq!(r, ServerMessages::MessageDispatched(1, Ok(())));

    let manager = &server.states.states[0].extensions_manager;
    match &manager.extensions[0] {
        symphony_core::LoadedExtension::ExtensionInstance { plugin, .. } => {
            assert_eq!(plugin.inbox.len(), 1);
            assert_eq!(plugin.inbox[0], msg);
        },
        _ => panic!("expected a sandboxed extension"),
    }
}

#[test]
fn extension_info_request_is_answered() {
    let mut server = server_with_state_one();
    server.states.states[0].extensions_manager.load_extension_with_deno(
        "ls.js".to_string(),
        ManifestInfo { name: "lsp".to_string(), version: "3".to_string() },
        1,
    );

    let found = server.handle_message(
        &TOKEN.to_string(),
        ClientMessages::GetExtensionInfo(1, "lsp".to_string()),
    );
    assert_eq!(
        found,
        ServerMessages::ExtensionInfo(
            1,
            Ok(ManifestInfo { name: "lsp".to_string(), version: "3".to_string() })
        )
    );

    let missing = server.handle_message(
        &TOKEN.to_string(),
        ClientMessages::GetExtensionInfo(1, "ghost".to_string()),
    );
    assert_eq!(missing, ServerMessages::ExtensionInfo(1, Err(Errors::ExtensionNotFound)));

    let listed = server.handle_message(&TOKEN.to_string(), ClientMessages::ListExtensions(1));
    match listed {
        ServerMessages::ExtensionList(1, Ok(infos)) => {
            assert_eq!(infos.len(), 1);
            assert_eq!(infos[0].name, "lsp");
        },
        other => panic!("unexpected response: {:?}", other),
    }
}

#[test]
fn prefix_test_matches_character_prefixes() {
    assert!(str_has_prefix("dir/a.txt", "dir/"));
    assert!(str_has_prefix("dir/", "dir/"));
    assert!(!str_has_prefix("di", "dir/"));
    assert!(!str_has_prefix("other/x", "dir/"));
    assert!(str_has_prefix("anything", ""));
}
