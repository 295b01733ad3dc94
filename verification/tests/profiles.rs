use round_studio_launcher::error::LauncherError;
use round_studio_launcher::paths::{
    app_root, asset_index_path, bundled_java_path, client_jar_path, compat_content_dir,
    content_dir, forge_installer_path, instance_root, manifest_lock_path, profile_dirs,
    profile_json_path, profile_root, profiles_root, save_lock, save_profile, skin_file_path,
    version_meta_path, AppPath, ContentKind, RootBase,
};
use round_studio_launcher::profile::{
    copy_profile, create_profile, profiles_clone, profiles_create, profiles_list, profiles_update,
    CreateProfileInput, LoaderType, Profile, ProfilePatch,
};

fn steps(path: &AppPath) -> String {
    path.steps.join("/")
}

fn profile(id: &str, name: &str) -> Profile {
    Profile {
        id: id.to_string(),
        name: name.to_string(),
        minecraft_version: "1.20.1".to_string(),
        loader: LoaderType::Fabric,
        loader_version: Some("0.15.0".to_string()),
        nickname: "Steve".to_string(),
        ram_mb: 2048,
        java_path: Some("C:\\jdk\\bin\\java.exe".to_string()),
        jvm_args: vec!["-XX:+UseG1GC".to_string()],
        skin_path: Some("skin.png".to_string()),
        created_at: "5".to_string(),
    }
}

fn no_changes() -> ProfilePatch {
    ProfilePatch {
        name: None,
        minecraft_version: None,
        loader: None,
        loader_version: None,
        nickname: None,
        ram_mb: None,
        java_path: None,
        jvm_args: None,
    }
}

fn input(nickname: &str) -> CreateProfileInput {
    CreateProfileInput {
        name: "Main".to_string(),
        minecraft_version: "1.21".to_string(),
        loader: LoaderType::Vanilla,
        loader_version: None,
        nickname: nickname.to_string(),
        ram_mb: None,
        java_path: None,
        jvm_args: None,
    }
}

fn same(a: &Profile, b: &Profile) -> bool {
    format!("{a:?}") == format!("{b:?}")
}

#[test]
fn data_directory() {
    assert_eq!(app_root(true, true), (RootBase::AppData, "RoundStudioLauncher".to_string()));
    assert_eq!(
        app_root(false, true),
        (RootBase::CurrentDir, ".round-studio-launcher".to_string())
    );
    assert_eq!(
        app_root(false, false),
        (RootBase::Dot, ".round-studio-launcher".to_string())
    );
}

#[test]
fn profile_paths() {
    let p = profile("id", "Main");
    assert_eq!(steps(&profiles_root()), "profiles");
    assert_eq!(steps(&profile_root("id")), "profiles/id");
    assert_eq!(steps(&profile_json_path("id")), "profiles/id/profile.json");
    assert_eq!(steps(&manifest_lock_path("id")), "profiles/id/manifest-lock.json");
    assert_eq!(steps(&instance_root("id")), "profiles/id/instance");
    assert_eq!(
        steps(&version_meta_path(&p)),
        "profiles/id/instance/versions/1.20.1/1.20.1.json"
    );
    assert_eq!(
        steps(&client_jar_path(&p)),
        "profiles/id/instance/versions/1.20.1/1.20.1.jar"
    );
    assert_eq!(
        steps(&asset_index_path("id", "5")),
        "profiles/id/instance/assets/indexes/5.json"
    );
    assert_eq!(steps(&skin_file_path("id")), "profiles/id/instance/skin/current.png");
    assert_eq!(steps(&bundled_java_path(21, "java.exe")), "java/jdk-21/bin/java.exe");
    assert_eq!(
        steps(&forge_installer_path("1.20.1-47.2.0")),
        "cache/forge/forge-1.20.1-47.2.0-installer.jar"
    );
}

#[test]
fn profile_directories_in_order() {
    let dirs: Vec<String> = profile_dirs("id").iter().map(steps).collect();
    let names = [
        "", "/mods", "/textures", "/shaders", "/resourcepacks", "/shaderpacks", "/versions",
        "/libraries", "/assets", "/natives", "/skin",
    ];
    let expected: Vec<String> =
        names.iter().map(|name| format!("profiles/id/instance{name}")).collect();
    assert_eq!(dirs, expected);
}

#[test]
fn content_directories() {
    assert_eq!(steps(&content_dir("id", ContentKind::Mod)), "profiles/id/instance/mods");
    assert_eq!(
        steps(&content_dir("id", ContentKind::Resourcepack)),
        "profiles/id/instance/textures"
    );
    assert_eq!(
        steps(&content_dir("id", ContentKind::Shaderpack)),
        "profiles/id/instance/shaders"
    );
    assert!(compat_content_dir("id", ContentKind::Mod).is_none());
    let packs = compat_content_dir("id", ContentKind::Resourcepack).unwrap();
    assert_eq!(steps(&packs), "profiles/id/instance/resourcepacks");
    let shaders = compat_content_dir("id", ContentKind::Shaderpack).unwrap();
    assert_eq!(steps(&shaders), "profiles/id/instance/shaderpacks");
}

#[test]
fn saving_renames_within_the_directory() {
    let write = save_profile(&profile("id", "Main"));
    assert_eq!(steps(&write.temporary), "profiles/id/profile.tmp");
    assert_eq!(steps(&write.target), "profiles/id/profile.json");
    let write = save_lock("id");
    assert_eq!(steps(&write.temporary), "profiles/id/manifest-lock.tmp");
    assert_eq!(steps(&write.target), "profiles/id/manifest-lock.json");
}

#[test]
fn creates_with_defaults() {
    let created = create_profile(input("Steve"), "id".to_string(), Some(7)).unwrap();
    assert_eq!(created.id, "id");
    assert_eq!(created.name, "Main");
    assert_eq!(created.minecraft_version, "1.21");
    assert_eq!(created.loader, LoaderType::Vanilla);
    assert_eq!(created.loader_version, None);
    assert_eq!(created.nickname, "Steve");
    assert_eq!(created.ram_mb, 4096);
    assert_eq!(created.java_path, None);
    assert_eq!(created.jvm_args, Vec::<String>::new());
    assert_eq!(created.skin_path, None);
    assert_eq!(created.created_at, "7");
}

#[test]
fn creates_with_what_is_given() {
    let mut given = input("Steve");
    given.ram_mb = Some(512);
    given.jvm_args = Some(vec!["-Da=b".to_string()]);
    given.loader = LoaderType::Forge;
    given.loader_version = Some(" ".to_string());
    let created = profiles_create(given, None).unwrap();
    assert_eq!(created.ram_mb, 512);
    assert_eq!(created.jvm_args, vec!["-Da=b".to_string()]);
    assert_eq!(created.loader_version, Some(" ".to_string()));
    assert_eq!(created.created_at, "0");
    assert_eq!(created.id.len(), 36);
}

#[test]
fn does_not_create_without_a_nickname() {
    assert!(matches!(
        profiles_create(input("no"), Some(1)),
        Err(LauncherError::InvalidNickname)
    ));
}

#[test]
fn copies_keep_everything_else() {
    let source = profile("old", "Main");
    let copy = copy_profile(profile("old", "Main"), None, "new".to_string(), Some(9));
    let mut expected = source;
    expected.id = "new".to_string();
    expected.name = "Main Copy".to_string();
    expected.created_at = "9".to_string();
    assert!(same(&copy, &expected));
}

#[test]
fn copies_take_a_given_name() {
    let named = copy_profile(
        profile("old", "Main"),
        Some("  Other \n".to_string()),
        "new".to_string(),
        None,
    );
    assert_eq!(named.name, "Other");
    let blank = profiles_clone(profile("old", "Main"), Some(" \t".to_string()), None);
    assert_eq!(blank.name, "Main Copy");
    assert_ne!(blank.id, "old");
}

#[test]
fn an_empty_patch_changes_nothing() {
    let updated = profiles_update(profile("id", "Main"), no_changes()).unwrap();
    assert!(same(&updated, &profile("id", "Main")));
}

#[test]
fn a_patch_changes_what_it_names() {
    let patch = || {
        let mut patch = no_changes();
        patch.name = Some("Other".to_string());
        patch.minecraft_version = Some("1.8.9".to_string());
        patch.loader = Some(LoaderType::Forge);
        patch.loader_version = Some("11.15".to_string());
        patch.nickname = Some("Alex".to_string());
        patch.ram_mb = Some(100);
        patch.java_path = Some("  ".to_string());
        patch.jvm_args = Some(Vec::new());
        patch
    };
    let updated = profiles_update(profile("id", "Main"), patch()).unwrap();
    assert_eq!(updated.name, "Other");
    assert_eq!(updated.minecraft_version, "1.8.9");
    assert_eq!(updated.loader, LoaderType::Forge);
    assert_eq!(updated.loader_version, Some("11.15".to_string()));
    assert_eq!(updated.nickname, "Alex");
    assert_eq!(updated.ram_mb, 1024);
    assert_eq!(updated.java_path, None);
    assert_eq!(updated.jvm_args, Vec::<String>::new());
    assert_eq!(updated.id, "id");
    assert_eq!(updated.skin_path, Some("skin.png".to_string()));
    assert_eq!(updated.created_at, "5");
    let text = format!("{updated:?}");
    let again = profiles_update(updated, patch()).unwrap();
    assert_eq!(format!("{again:?}"), text);
}

#[test]
fn giving_up_the_loader_gives_up_its_version() {
    let mut patch = no_changes();
    patch.loader = Some(LoaderType::Vanilla);
    let updated = profiles_update(profile("id", "Main"), patch).unwrap();
    assert_eq!(updated.loader_version, None);
    let mut patch = no_changes();
    patch.loader = Some(LoaderType::Vanilla);
    patch.loader_version = Some("0.15.0".to_string());
    let updated = profiles_update(profile("id", "Main"), patch).unwrap();
    assert_eq!(updated.loader_version, Some("0.15.0".to_string()));
    let mut patch = no_changes();
    patch.loader_version = Some(" ".to_string());
    let updated = profiles_update(profile("id", "Main"), patch).unwrap();
    assert_eq!(updated.loader_version, None);
}

#[test]
fn a_patch_keeps_a_java_path_as_it_is_given() {
    let mut patch = no_changes();
    patch.java_path = Some(" C:\\java.exe".to_string());
    patch.ram_mb = Some(6000);
    let updated = profiles_update(profile("id", "Main"), patch).unwrap();
    assert_eq!(updated.java_path, Some(" C:\\java.exe".to_string()));
    assert_eq!(updated.ram_mb, 6000);
}

#[test]
fn a_patch_with_a_bad_nickname_is_refused() {
    let mut patch = no_changes();
    patch.nickname = Some("a b".to_string());
    assert!(matches!(
        profiles_update(profile("id", "Main"), patch),
        Err(LauncherError::InvalidNickname)
    ));
}

#[test]
fn lists_by_name_and_keeps_the_order_of_equals() {
    let list = profiles_list(vec![
        profile("1", "b"),
        profile("2", "a"),
        profile("3", "b"),
        profile("4", "B"),
        profile("5", "a"),
    ]);
    let ids: Vec<&str> = list.iter().map(|entry| entry.id.as_str()).collect();
    assert_eq!(ids, vec!["4", "2", "5", "1", "3"]);
    assert_eq!(list[0].minecraft_version, "1.20.1");
    assert_eq!(list[0].loader_version, Some("0.15.0".to_string()));
    assert_eq!(list[0].nickname, "Steve");
    assert!(profiles_list(Vec::new()).is_empty());
}

#[test]
fn profiles_are_separate() {
    let root = profile_root("id");
    for dir in profile_dirs("id") {
        assert!(dir.steps.starts_with(&root.steps));
        assert!(!dir.steps.starts_with(&profile_root("other").steps));
    }
    for path in [profile_json_path("id"), manifest_lock_path("id"), skin_file_path("id")] {
        assert!(path.steps.starts_with(&root.steps));
    }
}
