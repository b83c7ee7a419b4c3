use symphony_core::extensions_manager::ExtensionPlugin;
use symphony_core::extensions_manager::ExtensionSource;
use symphony_core::extensions_manager::ExtensionStatus;
use symphony_core::extensions_manager::ExtensionsManager;
use symphony_core::extensions_manager::LoadedExtension;
use symphony_core::manifest::ManifestErrors;
use symphony_core::manifest::ManifestInfo;
use symphony_core::messaging::ClientMessages;

fn inbox_len(e: &LoadedExtension) -> usize {
    match e {
        LoadedExtension::Native { plugin, .. } => plugin.inbox.len(),
        LoadedExtension::ExtensionInstance { plugin, .. } => plugin.inbox.len(),
    }
}

#[test]
fn send_receive_events() {
    let mut manager = ExtensionsManager::new();

    manager.load_extension_with_deno(
        "tests/js/sample_extension.js".to_string(),
        ManifestInfo::default(),
        0,
    );

    // Load: the extension comes up and is initialized.
    manager.extensions[0].init();
    assert_eq!(manager.extensions[0].status(), ExtensionStatus::Ready);

    // Send some event: a list-directory response carrying an empty
    // successful listing.
    let delivered = manager.extensions[0].notify(ClientMessages::ListDir(
        0,
        "".to_string(),
        Ok(vec![]),
    ));
    assert!(delivered);
    assert_eq!(inbox_len(&manager.extensions[0]), 1);

    // Unload: terminated, and nothing is delivered afterwards.
    manager.extensions[0].unload();
    assert_eq!(manager.extensions[0].status(), ExtensionStatus::Terminated);
    let late = manager.extensions[0].notify(ClientMessages::ListExtensions(0));
    assert!(!late);
    assert_eq!(inbox_len(&manager.extensions[0]), 1);
}

#[test]
fn init_is_required_before_delivery() {
    let mut manager = ExtensionsManager::new();
    manager.load_extension_with_deno("a.js".to_string(), ManifestInfo::default(), 1);
    assert_eq!(manager.extensions[0].status(), ExtensionStatus::Loading);
    assert!(!manager.extensions[0].notify(ClientMessages::GetState(1)));
    manager.extensions[0].init();
    assert!(manager.extensions[0].notify(ClientMessages::GetState(1)));
}

#[test]
fn directory_load_isolates_failures() {
    let mut manager = ExtensionsManager::new();
    let sources = vec![
        ExtensionSource {
            path: "exts/broken".to_string(),
            manifest_text: Some("name = oops".to_string()),
        },
        ExtensionSource {
            path: "exts/good".to_string(),
            manifest_text: Some("name = \"good\"\nversion = \"1.0\"".to_string()),
        },
    ];
    manager.load_extensions_with_deno_in_directory(sources, 1);

    assert_eq!(manager.extensions.len(), 1);
    assert_eq!(manager.load_failures.len(), 1);
    assert_eq!(manager.load_failures[0].path, "exts/broken");
    assert_eq!(manager.load_failures[0].error, ManifestErrors::CannotParse);
    let info = manager.extensions[0].info();
    assert_eq!(info.name, "good");
}

#[test]
fn unreadable_descriptor_is_recorded_as_not_found() {
    let mut manager = ExtensionsManager::new();
    let sources = vec![ExtensionSource { path: "exts/gone".to_string(), manifest_text: None }];
    manager.load_extensions_with_deno_in_directory(sources, 1);
    assert_eq!(manager.extensions.len(), 0);
    assert_eq!(manager.load_failures.len(), 1);
    assert_eq!(manager.load_failures[0].error, ManifestErrors::NotFound);
}

#[test]
fn native_extension_loads_through_its_entry() {
    let mut manager = ExtensionsManager::new();
    let info = ManifestInfo { name: "git".to_string(), version: "1.0".to_string() };
    manager.load_extension_from_entry(|info, _state_id| ExtensionPlugin::new(info), info, 1);

    assert_eq!(manager.extensions.len(), 1);
    assert!(matches!(manager.extensions[0], LoadedExtension::Native { .. }));
    assert_eq!(manager.extensions[0].status(), ExtensionStatus::Loading);
    assert_eq!(manager.extensions[0].info().name, "git");
}

#[test]
fn info_lookup_finds_the_named_extension() {
    let mut manager = ExtensionsManager::new();
    manager.load_extension_with_deno(
        "a.js".to_string(),
        ManifestInfo { name: "alpha".to_string(), version: "1".to_string() },
        1,
    );
    manager.load_extension_with_deno(
        "b.js".to_string(),
        ManifestInfo { name: "beta".to_string(), version: "2".to_string() },
        1,
    );

    let found = manager.get_info_by_name(&"beta".to_string()).unwrap();
    assert_eq!(found.version, "2");
    assert!(manager.get_info_by_name(&"gamma".to_string()).is_none());

    let infos = manager.list_infos();
    assert_eq!(infos.len(), 2);
    assert_eq!(infos[0].name, "alpha");
    assert_eq!(infos[1].name, "beta");
}
