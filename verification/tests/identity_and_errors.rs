use round_studio_launcher::error::LauncherError;
use round_studio_launcher::identity::{fresh_id, now_rfc3339, offline_uuid, require_valid_nick};

#[test]
fn accepts_nicknames() {
    for nick in ["abc", "Steve", "A_1", "abcdefghijklmnop", "___"] {
        assert!(require_valid_nick(nick).is_ok(), "{nick}");
    }
}

#[test]
fn refuses_what_is_no_nickname() {
    for nick in ["", "ab", "abcdefghijklmnopq", "a b", "a-b", "Steve\n", "\u{e9}\u{e9}\u{e9}", "abc$"] {
        match require_valid_nick(nick) {
            Err(error) => {
                assert_eq!(error.message(), "Nickname must match [A-Za-z0-9_]{3,16}")
            }
            Ok(()) => panic!("{nick:?} was accepted"),
        }
    }
}

#[test]
fn identity_depends_on_the_nickname_alone() {
    assert_eq!(offline_uuid("Steve"), "d205fef7-eb9e-59a8-82e0-525fbaf2e1bf");
    assert_eq!(offline_uuid("Alex"), "294b8deb-45e7-5a67-8e52-cd9caeaafac8");
    assert_eq!(offline_uuid("Steve"), offline_uuid("Steve"));
}

#[test]
fn new_identifiers_are_version_four() {
    let a = fresh_id();
    let b = fresh_id();
    assert_ne!(a, b);
    for id in [a, b] {
        assert_eq!(id.len(), 36);
        assert_eq!(id.as_bytes()[14], b'4');
        assert!(id.chars().all(|c| c == '-' || c.is_ascii_hexdigit()));
        assert_eq!(id, id.to_ascii_lowercase());
    }
}

#[test]
fn moments_are_seconds() {
    assert_eq!(now_rfc3339(Some(1_700_000_000)), "1700000000");
    assert_eq!(now_rfc3339(Some(0)), "0");
    assert_eq!(now_rfc3339(None), "0");
}

#[test]
fn every_error_has_its_message() {
    let cases = vec![
        (LauncherError::BaseNotObject, "base version metadata is not an object"),
        (LauncherError::OverlayNotObject, "loader metadata is not an object"),
        (
            LauncherError::UnknownVersion,
            "Minecraft version is missing in official manifest",
        ),
        (
            LauncherError::FabricVersionNotSelected,
            "Fabric loader version is not selected",
        ),
        (LauncherError::ForgeVersionNotSelected, "Forge version is not selected"),
        (
            LauncherError::ForgeMetadataMissing,
            "Forge installer does not contain version metadata",
        ),
        (LauncherError::NoCompatibleVersion, "No compatible file version found"),
        (LauncherError::NoVersionFiles, "Selected Modrinth version has no files"),
        (
            LauncherError::NoSkinLoaderFiles,
            "CustomSkinLoader: empty version payload",
        ),
        (LauncherError::FileNotFound, "File not found"),
        (LauncherError::InvalidFileName, "Invalid file name"),
        (LauncherError::SkinNotFound, "PNG file not found"),
        (LauncherError::InvalidNativeEntry, "invalid native entry name"),
        (
            LauncherError::ValidationFailed,
            "Profile validation failed. Check diagnostics.",
        ),
        (LauncherError::JavaNotFound, "Java runtime for launch was not found"),
        (LauncherError::ProcessNotFound, "Launch process not found"),
        (
            LauncherError::ProcessTableUnavailable,
            "Failed to access process table",
        ),
    ];
    for (error, message) in cases {
        assert_eq!(error.message(), message);
    }
    let too_old = LauncherError::JavaTooOld {
        required: 21,
        minecraft_version: "1.21".to_string(),
        found: 17,
        path: "C:\\java.exe".to_string(),
    };
    assert_eq!(
        too_old.message(),
        "Java 21 required for Minecraft 1.21, but found Java 17 (C:\\java.exe)"
    );
}
