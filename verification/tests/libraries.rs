use round_studio_launcher::library::{
    current_minecraft_arch, current_minecraft_os, library_allowed, library_rule_matches,
    maven_library_path, resolve_library_artifact_url_path, resolve_library_relative_path,
    resolve_native_artifact, HostOs, MojangLibrary, MojangLibraryArtifact, MojangLibraryDownloads,
    MojangLibraryRule, MojangRuleOs,
};

fn library(name: Option<&str>) -> MojangLibrary {
    MojangLibrary {
        name: name.map(str::to_string),
        url: None,
        natives: None,
        rules: None,
        downloads: None,
    }
}

fn rule(action: &str, os: Option<&str>) -> MojangLibraryRule {
    MojangLibraryRule {
        action: action.to_string(),
        os: os.map(|name| MojangRuleOs { name: Some(name.to_string()), arch: None }),
        features: None,
    }
}

fn artifact(path: &str) -> MojangLibraryArtifact {
    MojangLibraryArtifact { path: path.to_string(), url: format!("https://host/{path}") }
}

#[test]
fn the_machine_has_a_name() {
    assert_eq!(current_minecraft_os(HostOs::Windows), "windows");
    assert_eq!(current_minecraft_os(HostOs::MacOs), "osx");
    assert_eq!(current_minecraft_os(HostOs::Other), "linux");
    let expected = if usize::BITS == 64 { "64" } else { "32" };
    assert_eq!(current_minecraft_arch(), expected);
}

#[test]
fn rules_match_machine_and_features() {
    assert!(library_rule_matches(&rule("allow", None), HostOs::Windows));
    assert!(library_rule_matches(&rule("allow", Some("windows")), HostOs::Windows));
    assert!(!library_rule_matches(&rule("allow", Some("osx")), HostOs::Windows));
    let mut wrong_arch = rule("allow", Some("windows"));
    wrong_arch.os = Some(MojangRuleOs { name: None, arch: Some("x86".to_string()) });
    assert!(!library_rule_matches(&wrong_arch, HostOs::Windows));
    let mut demo = rule("allow", None);
    demo.features = Some(vec![("is_demo_user".to_string(), true)]);
    assert!(!library_rule_matches(&demo, HostOs::Windows));
    demo.features = Some(vec![("is_demo_user".to_string(), false), ("x".to_string(), false)]);
    assert!(library_rule_matches(&demo, HostOs::Windows));
}

#[test]
fn the_last_matching_rule_decides() {
    let mut lib = library(None);
    assert!(library_allowed(&lib, HostOs::Other));
    lib.rules = Some(Vec::new());
    assert!(!library_allowed(&lib, HostOs::Other));
    lib.rules = Some(vec![rule("allow", None), rule("disallow", Some("osx"))]);
    assert!(library_allowed(&lib, HostOs::Other));
    assert!(!library_allowed(&lib, HostOs::MacOs));
    lib.rules = Some(vec![rule("disallow", None), rule("ALLOW", Some("osx"))]);
    assert!(library_allowed(&lib, HostOs::MacOs));
    assert!(!library_allowed(&lib, HostOs::Windows));
    lib.rules = Some(vec![rule("allow", Some("osx"))]);
    assert!(!library_allowed(&lib, HostOs::Windows));
}

#[test]
fn maven_names_become_paths() {
    assert_eq!(
        maven_library_path("org.lwjgl:lwjgl:3.3.1"),
        Some("org/lwjgl/lwjgl/3.3.1/lwjgl-3.3.1.jar".to_string())
    );
    assert_eq!(
        maven_library_path("org.lwjgl:lwjgl:3.3.1:natives-windows"),
        Some("org/lwjgl/lwjgl/3.3.1/lwjgl-3.3.1-natives-windows.jar".to_string())
    );
    assert_eq!(maven_library_path("a:b:c:d:e"), Some("a/b/c/b-c-d.jar".to_string()));
    assert_eq!(maven_library_path("a:b"), None);
    assert_eq!(maven_library_path(""), None);
}

#[test]
fn libraries_come_from_their_artifact_or_their_name() {
    let mut lib = library(Some("net.fabricmc:loader:1.0"));
    assert_eq!(
        resolve_library_artifact_url_path(&lib),
        Some((
            "https://libraries.minecraft.net/net/fabricmc/loader/1.0/loader-1.0.jar".to_string(),
            "net/fabricmc/loader/1.0/loader-1.0.jar".to_string()
        ))
    );
    lib.url = Some("https://maven.fabricmc.net".to_string());
    let (url, path) = resolve_library_artifact_url_path(&lib).unwrap();
    assert_eq!(url, "https://maven.fabricmc.net/net/fabricmc/loader/1.0/loader-1.0.jar");
    assert_eq!(resolve_library_relative_path(&lib), Some(path));
    lib.url = Some("https://maven.fabricmc.net/".to_string());
    let (url, _) = resolve_library_artifact_url_path(&lib).unwrap();
    assert_eq!(url, "https://maven.fabricmc.net/net/fabricmc/loader/1.0/loader-1.0.jar");
    lib.downloads = Some(MojangLibraryDownloads { artifact: Some(artifact("x.jar")), classifiers: None });
    assert_eq!(
        resolve_library_artifact_url_path(&lib),
        Some(("https://host/x.jar".to_string(), "x.jar".to_string()))
    );
    assert_eq!(resolve_library_relative_path(&lib), Some("x.jar".to_string()));
    assert_eq!(resolve_library_artifact_url_path(&library(None)), None);
    assert_eq!(resolve_library_relative_path(&library(Some("short"))), None);
}

#[test]
fn native_parts_are_found() {
    let with = |names: &[&str]| MojangLibrary {
        name: None,
        url: None,
        natives: Some(vec![
            ("windows".to_string(), "natives-${os}-${arch}".to_string()),
            ("linux".to_string(), "natives-linux".to_string()),
        ]),
        rules: None,
        downloads: Some(MojangLibraryDownloads {
            artifact: None,
            classifiers: Some(
                names.iter().map(|name| (name.to_string(), artifact(name))).collect(),
            ),
        }),
    };
    let path = |lib: &MojangLibrary, host: HostOs| {
        resolve_native_artifact(lib, host).map(|found| found.path)
    };
    let arch = current_minecraft_arch();
    let named = format!("natives-windows-{arch}");
    let lib = with(&["natives-windows", named.as_str(), "natives-linux"]);
    assert_eq!(path(&lib, HostOs::Windows), Some(named));
    assert_eq!(path(&lib, HostOs::Other), Some("natives-linux".to_string()));
    assert_eq!(path(&lib, HostOs::MacOs), Some("natives-windows".to_string()));
    let lib = with(&["other", "natives-windows-arm64"]);
    assert_eq!(path(&lib, HostOs::MacOs), Some("natives-windows-arm64".to_string()));
    let lib = with(&["natives-windows-arm64", "natives-windows-64"]);
    assert_eq!(path(&lib, HostOs::MacOs), Some("natives-windows-64".to_string()));
    assert_eq!(path(&with(&["sources"]), HostOs::Windows), None);
    assert_eq!(path(&library(Some("a:b:c")), HostOs::Windows), None);
}
