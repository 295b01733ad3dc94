use round_studio_launcher::content::{
    append_lock_item, content_import_local, content_install_modrinth, content_targets,
    import_file, install_version, load_lock, ContentItem, StoredLock,
};
use round_studio_launcher::error::LauncherError;
use round_studio_launcher::json::{Json, JsonNumber};
use round_studio_launcher::modrinth::{
    choose_file, fetch_modrinth_version, first_version, read_search_page, search_page, search_url,
    ModrinthVersion, ModrinthVersionFile, VersionRequest, PAGE_SIZE,
};
use round_studio_launcher::paths::ContentKind;
use round_studio_launcher::profile::{LoaderType, Profile};
use round_studio_launcher::skin::{
    skin_loader_request, skin_state, try_install_custom_skin_loader, wear_skin,
};

fn text(value: &str) -> Json {
    Json::Text(value.to_string())
}

fn number(text: &str, unsigned: Option<u64>) -> Json {
    Json::Number(JsonNumber { text: text.to_string(), unsigned })
}

fn object(members: Vec<(&str, Json)>) -> Json {
    Json::Object(members.into_iter().map(|(key, value)| (key.to_string(), value)).collect())
}

fn version(files: &[(&str, bool)]) -> ModrinthVersion {
    ModrinthVersion {
        files: files
            .iter()
            .map(|(name, primary)| ModrinthVersionFile {
                url: format!("https://cdn/{name}"),
                filename: name.to_string(),
                primary: *primary,
            })
            .collect(),
    }
}

fn profile(loader: LoaderType) -> Profile {
    Profile {
        id: "id".to_string(),
        name: "Main".to_string(),
        minecraft_version: "1.20.1".to_string(),
        loader,
        loader_version: None,
        nickname: "Steve".to_string(),
        ram_mb: 2048,
        java_path: None,
        jvm_args: Vec::new(),
        skin_path: None,
        created_at: "0".to_string(),
    }
}

#[test]
fn pages_start_at_one() {
    assert_eq!(search_page(None), 1);
    assert_eq!(search_page(Some(0)), 1);
    assert_eq!(search_page(Some(7)), 7);
    assert_eq!(PAGE_SIZE, 20);
}

#[test]
fn searches_have_addresses() {
    assert_eq!(
        search_url(ContentKind::Mod, "so dium&\u{e9}", "1.20.1", "fabric", Some(" downloads "), 3),
        "https://api.modrinth.com/v2/search?query=so%20dium%26%C3%A9&limit=20&offset=40&index=downloads&facets=%5B%5B%22project_type%3Amod%22%5D%2C%5B%22versions%3A1.20.1%22%5D%2C%5B%22categories%3Afabric%22%5D%5D"
    );
    assert_eq!(
        search_url(ContentKind::Shaderpack, "", "1.21", "fabric", Some("rating"), 1),
        "https://api.modrinth.com/v2/search?query=&limit=20&offset=0&index=relevance&facets=%5B%5B%22project_type%3Ashader%22%5D%2C%5B%22versions%3A1.21%22%5D%5D"
    );
    for loader in ["", "vanilla"] {
        assert_eq!(
            search_url(ContentKind::Mod, "-_.~", "1", loader, None, 2),
            "https://api.modrinth.com/v2/search?query=-_.~&limit=20&offset=20&index=relevance&facets=%5B%5B%22project_type%3Amod%22%5D%2C%5B%22versions%3A1%22%5D%5D"
        );
    }
    for order in ["follows", "updated", "newest"] {
        let url = search_url(ContentKind::Resourcepack, "q", "1", "forge", Some(order), 1);
        assert!(url.contains(&format!("&index={order}&facets=")));
        assert!(url.contains("project_type%3Aresourcepack"));
        assert!(!url.contains("forge"));
    }
}

#[test]
fn search_answers_are_read() {
    let payload = object(vec![
        (
            "hits",
            Json::Array(vec![
                object(vec![
                    ("project_id", text("AANobbMI")),
                    ("slug", text("sodium")),
                    ("title", text("Sodium")),
                    ("description", text("Fast")),
                ]),
                object(vec![("projectId", number("7", Some(7))), ("title", Json::Null)]),
                object(vec![("project_id", Json::Null), ("projectId", text("x"))]),
                object(vec![("slug", text("no-id"))]),
                text("odd"),
                object(vec![("project_id", text("p")), ("slug", Json::Bool(true))]),
            ]),
        ),
        ("total_hits", number("41", Some(41))),
    ]);
    let page = read_search_page(&payload, 2);
    assert_eq!(page.page, 2);
    assert_eq!(page.page_size, 20);
    assert_eq!(page.total_hits, 41);
    assert_eq!(page.hits.len(), 3);
    assert_eq!(page.hits[0].project_id, "AANobbMI");
    assert_eq!(page.hits[0].slug, "sodium");
    assert_eq!(page.hits[0].title, "Sodium");
    assert_eq!(page.hits[0].description, "Fast");
    assert_eq!(page.hits[1].project_id, "7");
    assert_eq!(page.hits[1].slug, "");
    assert_eq!(page.hits[1].title, "Untitled");
    assert_eq!(page.hits[1].description, "");
    assert_eq!(page.hits[2].slug, "true");
}

#[test]
fn odd_search_answers_are_empty() {
    let page = read_search_page(&Json::Null, 1);
    assert!(page.hits.is_empty());
    assert_eq!(page.total_hits, 0);
    let total = |value: Json| read_search_page(&object(vec![("total_hits", value)]), 1).total_hits;
    assert_eq!(total(number("4294967295", Some(4294967295))), u32::MAX);
    assert_eq!(total(number("4294967296", Some(4294967296))), 0);
    assert_eq!(total(number("-1", None)), 0);
    assert_eq!(total(text("5")), 0);
}

#[test]
fn versions_are_asked_for() {
    match fetch_modrinth_version("p", "abc", "1.20", ContentKind::Mod, LoaderType::Fabric) {
        VersionRequest::Single { url } => {
            assert_eq!(url, "https://api.modrinth.com/v2/version/abc")
        }
        other => panic!("{other:?}"),
    }
    match fetch_modrinth_version("p", " ", "1.20", ContentKind::Mod, LoaderType::Forge) {
        VersionRequest::List { url } => assert_eq!(
            url,
            "https://api.modrinth.com/v2/project/p/version?game_versions=[\"1.20\"]&loaders=[\"forge\"]"
        ),
        other => panic!("{other:?}"),
    }
    for (kind, loader) in [
        (ContentKind::Mod, LoaderType::Vanilla),
        (ContentKind::Shaderpack, LoaderType::Fabric),
    ] {
        match fetch_modrinth_version("p", "", "1.20", kind, loader) {
            VersionRequest::List { url } => assert_eq!(
                url,
                "https://api.modrinth.com/v2/project/p/version?game_versions=[\"1.20\"]"
            ),
            other => panic!("{other:?}"),
        }
    }
    assert!(matches!(first_version(Vec::new()), Err(LauncherError::NoCompatibleVersion)));
    let first = first_version(vec![version(&[("a", false)]), version(&[("b", false)])]).unwrap();
    assert_eq!(first.files[0].filename, "a");
}

#[test]
fn the_primary_file_is_chosen() {
    let name = |version: &ModrinthVersion| choose_file(version).map(|file| file.filename.clone());
    assert_eq!(
        name(&version(&[("a", false), ("b", true), ("c", true)])),
        Some("b".to_string())
    );
    assert_eq!(name(&version(&[("a", false), ("b", false)])), Some("a".to_string()));
    assert_eq!(name(&version(&[])), None);
}

#[test]
fn content_goes_to_its_directories() {
    let targets = |kind: ContentKind| {
        content_targets("id", kind, "x.zip")
            .iter()
            .map(|path| path.steps.join("/"))
            .collect::<Vec<_>>()
    };
    assert_eq!(targets(ContentKind::Mod), vec!["profiles/id/instance/mods/x.zip".to_string()]);
    assert_eq!(
        targets(ContentKind::Resourcepack),
        vec![
            "profiles/id/instance/textures/x.zip".to_string(),
            "profiles/id/instance/resourcepacks/x.zip".to_string()
        ]
    );
    assert_eq!(
        targets(ContentKind::Shaderpack),
        vec![
            "profiles/id/instance/shaders/x.zip".to_string(),
            "profiles/id/instance/shaderpacks/x.zip".to_string()
        ]
    );
}

#[test]
fn files_are_imported() {
    let plan =
        content_import_local("id", ContentKind::Shaderpack, "/tmp/packs/bsl.zip", true, Some(3)).unwrap();
    assert_eq!(plan.item.file_name, "bsl.zip");
    assert_eq!(plan.item.kind, ContentKind::Shaderpack);
    assert_eq!(plan.item.source, "local");
    assert_eq!(plan.item.added_at, "3");
    assert_eq!(plan.item.id.len(), 36);
    assert_eq!(plan.targets.len(), 2);
    assert_eq!(
        plan.targets[1].steps.join("/"),
        "profiles/id/instance/shaderpacks/bsl.zip"
    );
    assert!(matches!(
        content_import_local("id", ContentKind::Mod, "/tmp/x.jar", false, None),
        Err(LauncherError::FileNotFound)
    ));
    assert!(matches!(
        content_import_local("id", ContentKind::Mod, "/tmp/..", true, None),
        Err(LauncherError::InvalidFileName)
    ));
    for path in ["packs/bsl/", "bsl/.", "bsl//./", "./bsl"] {
        let plan = content_import_local("id", ContentKind::Mod, path, true, None).unwrap();
        assert_eq!(plan.item.file_name, "bsl", "{path}");
    }
    for path in ["", "/", ".", "./", "..", "a/../"] {
        assert!(matches!(
            content_import_local("id", ContentKind::Mod, path, true, None),
            Err(LauncherError::InvalidFileName)
        ));
    }
    assert!(matches!(
        import_file("id", ContentKind::Mod, true, None, "i".to_string(), None),
        Err(LauncherError::InvalidFileName)
    ));
    let plan = import_file("id", ContentKind::Mod, true, Some("m.jar".to_string()), "i".to_string(), None)
        .unwrap();
    assert_eq!(plan.item.id, "i");
    assert_eq!(plan.targets[0].steps.join("/"), "profiles/id/instance/mods/m.jar");
}

#[test]
fn versions_are_installed() {
    let plan = install_version(
        "id",
        ContentKind::Mod,
        &version(&[("a.jar", false), ("b.jar", true)]),
        "i".to_string(),
        Some(4),
    )
    .unwrap();
    assert_eq!(plan.url, "https://cdn/b.jar");
    assert_eq!(plan.content.item.id, "i");
    assert_eq!(plan.content.item.file_name, "b.jar");
    assert_eq!(plan.content.item.source, "modrinth");
    assert_eq!(plan.content.item.added_at, "4");
    assert_eq!(plan.content.targets[0].steps.join("/"), "profiles/id/instance/mods/b.jar");
    assert!(matches!(
        content_install_modrinth("id", ContentKind::Mod, &version(&[]), None),
        Err(LauncherError::NoVersionFiles)
    ));
    let plan = content_install_modrinth("id", ContentKind::Mod, &version(&[("a.jar", false)]), None)
        .unwrap();
    assert_eq!(plan.content.item.id.len(), 36);
}

#[test]
fn the_list_of_content_grows() {
    let item = |id: &str| ContentItem {
        id: id.to_string(),
        file_name: "f".to_string(),
        kind: ContentKind::Mod,
        source: "local".to_string(),
        added_at: "0".to_string(),
    };
    let one = append_lock_item(StoredLock::Missing, item("a")).unwrap();
    let two = append_lock_item(StoredLock::Items(one), item("a")).unwrap();
    let three = append_lock_item(StoredLock::Items(two), item("b")).unwrap();
    let listed = load_lock(StoredLock::Items(three)).unwrap();
    let ids: Vec<&str> = listed.iter().map(|item| item.id.as_str()).collect();
    assert_eq!(ids, vec!["a", "a", "b"]);
    assert!(load_lock(StoredLock::Missing).unwrap().is_empty());
}

#[test]
fn an_unreadable_list_of_content_is_not_written() {
    let item = ContentItem {
        id: "a".to_string(),
        file_name: "f".to_string(),
        kind: ContentKind::Mod,
        source: "local".to_string(),
        added_at: "0".to_string(),
    };
    let broken = || StoredLock::Unreadable("expected value".to_string());
    assert_eq!(append_lock_item(broken(), item).err(), Some("expected value".to_string()));
    assert_eq!(load_lock(broken()).err(), Some("expected value".to_string()));
}

#[test]
fn windows_paths_are_imported() {
    for path in ["C:\\packs\\bsl.zip", "D:bsl.zip", "\\\\server\\share\\bsl.zip", "packs\\bsl.zip"] {
        let plan = content_import_local("id", ContentKind::Mod, path, true, None).unwrap();
        let expected = if std::path::MAIN_SEPARATOR == '\\' { "bsl.zip" } else { path };
        assert_eq!(plan.item.file_name, expected);
    }
}

#[test]
fn skins_are_worn() {
    let worn = wear_skin(profile(LoaderType::Fabric), true, "s.png").unwrap();
    assert_eq!(worn.skin_path, Some("s.png".to_string()));
    assert_eq!(worn.id, "id");
    assert!(matches!(
        wear_skin(profile(LoaderType::Fabric), false, "s.png"),
        Err(LauncherError::SkinNotFound)
    ));
}

#[test]
fn the_skin_loader_is_installed() {
    assert!(skin_loader_request(&profile(LoaderType::Vanilla)).is_none());
    match skin_loader_request(&profile(LoaderType::Fabric)) {
        Some(VersionRequest::List { url }) => assert_eq!(
            url,
            "https://api.modrinth.com/v2/project/customskinloader/version?game_versions=[\"1.20.1\"]&loaders=[\"fabric\"]"
        ),
        other => panic!("{other:?}"),
    }
    let (url, path) = try_install_custom_skin_loader("id", &version(&[("csl.jar", true)])).unwrap();
    assert_eq!(url, "https://cdn/csl.jar");
    assert_eq!(path.steps.join("/"), "profiles/id/instance/mods/csl.jar");
    assert!(matches!(
        try_install_custom_skin_loader("id", &version(&[])),
        Err(LauncherError::NoSkinLoaderFiles)
    ));
}

#[test]
fn skins_have_a_state() {
    let state = skin_state("id", "s.png", LoaderType::Vanilla, None);
    assert_eq!(state.profile_id, "id");
    assert_eq!(state.skin_path, "s.png");
    assert!(!state.applied_with_csl);
    assert_eq!(
        state.warning,
        Some("Skin application may not work in vanilla.".to_string())
    );
    let state = skin_state("id", "s.png", LoaderType::Fabric, Some("HTTP 404"));
    assert!(!state.applied_with_csl);
    assert_eq!(
        state.warning,
        Some("Failed to install CustomSkinLoader automatically: HTTP 404".to_string())
    );
    let state = skin_state("id", "s.png", LoaderType::Forge, None);
    assert!(state.applied_with_csl);
    assert_eq!(state.warning, None);
}
