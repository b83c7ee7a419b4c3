use symphony_core::manifest::Manifest;
use symphony_core::manifest::ManifestErrors;
use symphony_core::manifest::ManifestInfo;

const OK_MANIFEST: &str = "name = \"git\"\nversion = \"1.1.2\"\n";
const BAD_MANIFEST: &str = "name = git version !!\n";

#[test]
fn load_manifests() {
    let ok_manifest = Manifest::parse(Some(OK_MANIFEST));
    let bad_manifest = Manifest::parse(Some(BAD_MANIFEST));
    let not_found_manifest = Manifest::parse(None);

    assert!(ok_manifest.is_ok());
    assert_eq!(bad_manifest.unwrap_err(), ManifestErrors::CannotParse);
    assert_eq!(not_found_manifest.unwrap_err(), ManifestErrors::NotFound);
}

#[test]
fn parse_extracts_declared_fields() {
    let m = Manifest::parse_text("name = \"shell\"\nversion = \"2.0\"\nterminal = \"yes\"\n")
        .unwrap();
    assert_eq!(m.name, "shell");
    assert_eq!(m.version, "2.0");
    assert!(m.entries.contains(&("terminal".to_string(), "yes".to_string())));
    assert_eq!(m.entries.len(), 3);
}

#[test]
fn parse_requires_name_and_version() {
    assert_eq!(
        Manifest::parse_text("version = \"1.0\"\n").unwrap_err(),
        ManifestErrors::CannotParse
    );
    assert_eq!(
        Manifest::parse_text("name = \"x\"\n").unwrap_err(),
        ManifestErrors::CannotParse
    );
}

#[test]
fn parse_rejects_structured_values() {
    assert_eq!(
        Manifest::parse_text("name = \"x\"\nversion = 3\n").unwrap_err(),
        ManifestErrors::CannotParse
    );
}

#[test]
fn manifest_info_summary() {
    let m = Manifest::parse_text(OK_MANIFEST).unwrap();
    let info = m.info();
    assert_eq!(info.name, "git");
    assert_eq!(info.version, "1.1.2");

    let empty = ManifestInfo::default();
    assert_eq!(empty.name, "");
    assert_eq!(empty.version, "");
}
