use round_studio_launcher::error::LauncherError;
use round_studio_launcher::install::installed_metadata;
use round_studio_launcher::json::{print, value_to_string, Json, JsonNumber};
use round_studio_launcher::loaders::{
    fabric_versions, fabric_versions_url, fetch_loader_version_json, forge_metadata,
    forge_versions, loader_name, loader_options, LoaderSource, FORGE_PROMOTIONS_URL,
};
use round_studio_launcher::merge::{merge_version_values, unique_library_key};
use round_studio_launcher::profile::{LoaderType, Profile};
use round_studio_launcher::versions::{
    find_version, versions_list_minecraft, MojangVersionEntry, MOJANG_MANIFEST_URL,
};

fn text(value: &str) -> Json {
    Json::Text(value.to_string())
}

fn number(value: u64) -> Json {
    Json::Number(JsonNumber { text: value.to_string(), unsigned: Some(value) })
}

fn object(members: Vec<(&str, Json)>) -> Json {
    Json::Object(members.into_iter().map(|(key, value)| (key.to_string(), value)).collect())
}

fn names(items: &[&str]) -> Json {
    Json::Array(items.iter().map(|item| object(vec![("name", text(item))])).collect())
}

fn profile(loader: LoaderType, version: Option<&str>) -> Profile {
    Profile {
        id: "id".to_string(),
        name: "Main".to_string(),
        minecraft_version: "1.20.1".to_string(),
        loader,
        loader_version: version.map(str::to_string),
        nickname: "Steve".to_string(),
        ram_mb: 2048,
        java_path: None,
        jvm_args: Vec::new(),
        skin_path: None,
        created_at: "0".to_string(),
    }
}

#[test]
fn documents_print_like_serde_json() {
    let hard = "q\"b\\ t\t n\n r\r f\u{c} b\u{8} c\u{1} d\u{7f} e\u{e9} s/\u{1f600}";
    let mine = object(vec![
        ("a", Json::Null),
        ("b", Json::Array(vec![Json::Bool(true), Json::Bool(false), number(7)])),
        ("c\"", text(hard)),
        ("d", object(vec![])),
        ("e", Json::Array(vec![])),
    ]);
    let mut theirs = serde_json::Map::new();
    theirs.insert("a".to_string(), serde_json::Value::Null);
    theirs.insert(
        "b".to_string(),
        serde_json::Value::Array(vec![
            serde_json::Value::Bool(true),
            serde_json::Value::Bool(false),
            serde_json::Value::from(7u64),
        ]),
    );
    theirs.insert("c\"".to_string(), serde_json::Value::String(hard.to_string()));
    theirs.insert("d".to_string(), serde_json::Value::Object(serde_json::Map::new()));
    theirs.insert("e".to_string(), serde_json::Value::Array(Vec::new()));
    assert_eq!(print(&mine), serde_json::Value::Object(theirs).to_string());
}

#[test]
fn documents_as_plain_text() {
    assert_eq!(value_to_string(&Json::Null), None);
    assert_eq!(value_to_string(&text("a\"b")), Some("a\"b".to_string()));
    assert_eq!(value_to_string(&number(12)), Some("12".to_string()));
    assert_eq!(value_to_string(&Json::Bool(true)), Some("true".to_string()));
    assert_eq!(
        value_to_string(&Json::Array(vec![text("x\n")])),
        Some("[\"x\\n\"]".to_string())
    );
}

#[test]
fn libraries_have_keys() {
    assert_eq!(unique_library_key(&object(vec![("name", text("a:b:c"))])), "a:b:c");
    let artifact = object(vec![(
        "downloads",
        object(vec![("artifact", object(vec![("path", text("x.jar"))]))]),
    )]);
    assert_eq!(unique_library_key(&artifact), "x.jar");
    assert_eq!(unique_library_key(&object(vec![("name", number(1))])), "{\"name\":1}");
    assert_eq!(unique_library_key(&text("q\"")), "\"q\\\"\"");
}

#[test]
fn loader_metadata_is_laid_over_the_game() {
    let base = object(vec![
        ("id", text("1.20.1")),
        ("mainClass", text("net.minecraft.client.main.Main")),
        ("libraries", names(&["a", "b"])),
        (
            "arguments",
            object(vec![
                ("game", Json::Array(vec![text("--username")])),
                ("jvm", Json::Array(vec![text("-cp")])),
                ("x", text("old")),
            ]),
        ),
        ("type", text("release")),
        ("inheritsFrom", text("kept")),
    ]);
    let overlay = object(vec![
        ("id", text("fabric")),
        ("inheritsFrom", text("1.20.1")),
        ("mainClass", text("Knot")),
        ("libraries", names(&["b", "c", "c"])),
        (
            "arguments",
            object(vec![
                ("jvm", Json::Array(vec![text("-DFabricMcEmu=")])),
                ("x", text("new")),
                ("y", Json::Array(vec![text("more")])),
            ]),
        ),
    ]);
    let merged = merge_version_values(base, overlay).unwrap();
    let show = |key: &str| merged.member(key).map(print);
    assert_eq!(show("id"), Some("\"fabric\"".to_string()));
    assert_eq!(show("mainClass"), Some("\"Knot\"".to_string()));
    assert_eq!(show("type"), Some("\"release\"".to_string()));
    assert_eq!(show("inheritsFrom"), Some("\"kept\"".to_string()));
    assert_eq!(
        show("libraries"),
        Some("[{\"name\":\"a\"},{\"name\":\"b\"},{\"name\":\"c\"}]".to_string())
    );
    let arguments = merged.member("arguments").unwrap();
    let argument = |key: &str| arguments.member(key).map(print);
    assert_eq!(argument("game"), Some("[\"--username\"]".to_string()));
    assert_eq!(argument("jvm"), Some("[\"-cp\",\"-DFabricMcEmu=\"]".to_string()));
    assert_eq!(argument("x"), Some("\"new\"".to_string()));
    assert_eq!(argument("y"), Some("[\"more\"]".to_string()));
}

#[test]
fn merging_again_adds_no_library() {
    let overlay = || object(vec![("libraries", names(&["b", "c"]))]);
    let once = merge_version_values(object(vec![("libraries", names(&["a"]))]), overlay()).unwrap();
    let shown = print(once.member("libraries").unwrap());
    let twice = merge_version_values(once, overlay()).unwrap();
    assert_eq!(print(twice.member("libraries").unwrap()), shown);
}

#[test]
fn merging_makes_a_list_of_libraries() {
    let base = object(vec![("libraries", text("none")), ("arguments", text("odd"))]);
    let overlay = object(vec![("libraries", Json::Null), ("arguments", Json::Null)]);
    let merged = merge_version_values(base, overlay).unwrap();
    assert_eq!(print(merged.member("libraries").unwrap()), "[]");
    assert_eq!(print(merged.member("arguments").unwrap()), "{}");
}

#[test]
fn only_objects_are_merged() {
    assert!(matches!(
        merge_version_values(Json::Null, text("x")),
        Err(LauncherError::BaseNotObject)
    ));
    assert!(matches!(
        merge_version_values(object(vec![]), text("x")),
        Err(LauncherError::OverlayNotObject)
    ));
    assert!(matches!(
        installed_metadata(Json::Null, Some(object(vec![]))),
        Err(LauncherError::BaseNotObject)
    ));
    assert!(matches!(installed_metadata(Json::Null, None), Ok(Json::Null)));
}

#[test]
fn fabric_versions_are_the_first_twenty() {
    let item = |version: Json| object(vec![("loader", object(vec![("version", version)]))]);
    let mut items = vec![object(vec![]), item(Json::Null), Json::Null];
    for n in 0..25 {
        items.push(item(text(&format!("0.{n}"))));
    }
    let versions = fabric_versions(&items);
    let expected: Vec<String> = (0..20).map(|n| format!("0.{n}")).collect();
    assert_eq!(versions, expected);
    items.truncate(5);
    assert_eq!(fabric_versions(&items), vec!["0.0".to_string(), "0.1".to_string()]);
    assert_eq!(
        fabric_versions_url("1.20.1"),
        "https://meta.fabricmc.net/v2/versions/loader/1.20.1"
    );
}

#[test]
fn forge_versions_are_promoted_ones() {
    let json = object(vec![(
        "promos",
        object(vec![
            ("1.20.1-latest", text("47.2.20")),
            ("1.20.1-recommended", text("47.2.0")),
            ("1.20-latest", text("46.0.14")),
            ("1.20.10-latest", text("99")),
            ("1.20.1-odd", number(3)),
            ("1.20.1-again", text("47.2.0")),
        ]),
    )]);
    assert_eq!(
        forge_versions(&json, "1.20.1"),
        vec!["47.2.0".to_string(), "47.2.20".to_string(), "99".to_string()]
    );
    assert!(forge_versions(&Json::Null, "1.20.1").is_empty());
    let options = loader_options(&Vec::new(), &json, "1.20-");
    assert!(options.fabric.is_empty());
    assert_eq!(options.forge, vec!["46.0.14".to_string()]);
    assert_eq!(
        FORGE_PROMOTIONS_URL,
        "https://files.minecraftforge.net/net/minecraftforge/forge/promotions_slim.json"
    );
}

#[test]
fn loaders_have_sources() {
    assert_eq!(loader_name(LoaderType::Vanilla), "vanilla");
    assert_eq!(loader_name(LoaderType::Fabric), "fabric");
    assert_eq!(loader_name(LoaderType::Forge), "forge");
    assert!(matches!(
        fetch_loader_version_json(&profile(LoaderType::Vanilla, None)),
        Ok(LoaderSource::Nothing)
    ));
    match fetch_loader_version_json(&profile(LoaderType::Fabric, Some("0.15.0"))) {
        Ok(LoaderSource::Metadata { url }) => assert_eq!(
            url,
            "https://meta.fabricmc.net/v2/versions/loader/1.20.1/0.15.0/profile/json"
        ),
        other => panic!("{other:?}"),
    }
    match fetch_loader_version_json(&profile(LoaderType::Forge, Some("1.20.1-47.2.0"))) {
        Ok(LoaderSource::Installer { url, path }) => {
            assert_eq!(
                url,
                "https://maven.minecraftforge.net/net/minecraftforge/forge/1.20.1-47.2.0/forge-1.20.1-47.2.0-installer.jar"
            );
            assert_eq!(path.steps.join("/"), "cache/forge/forge-1.20.1-47.2.0-installer.jar");
        }
        other => panic!("{other:?}"),
    }
    for version in [None, Some(" ")] {
        assert!(matches!(
            fetch_loader_version_json(&profile(LoaderType::Fabric, version)),
            Err(LauncherError::FabricVersionNotSelected)
        ));
        assert!(matches!(
            fetch_loader_version_json(&profile(LoaderType::Forge, version)),
            Err(LauncherError::ForgeVersionNotSelected)
        ));
    }
}

#[test]
fn forge_installers_hold_metadata() {
    match forge_metadata(Some(text("a")), Some(text("b"))) {
        Ok(json) => assert_eq!(print(&json), "\"a\""),
        other => panic!("{other:?}"),
    }
    match forge_metadata(None, Some(text("b"))) {
        Ok(json) => assert_eq!(print(&json), "\"b\""),
        other => panic!("{other:?}"),
    }
    assert!(matches!(
        forge_metadata(None, None),
        Err(LauncherError::ForgeMetadataMissing)
    ));
}

fn entry(id: &str, url: &str) -> MojangVersionEntry {
    MojangVersionEntry {
        id: id.to_string(),
        version_type: "release".to_string(),
        release_time: "2023".to_string(),
        url: url.to_string(),
    }
}

#[test]
fn versions_are_listed_and_found() {
    let shown = versions_list_minecraft(vec![entry("1.20", "a"), entry("1.19", "b")]);
    assert_eq!(shown.len(), 2);
    assert_eq!(shown[1].id, "1.19");
    assert_eq!(shown[1].version_type, "release");
    assert_eq!(shown[1].release_time, "2023");
    let list = || vec![entry("1.20", "a"), entry("1.19", "b"), entry("1.19", "c")];
    assert_eq!(find_version(list(), "1.19").unwrap().url, "b");
    assert!(matches!(find_version(list(), "1.18"), Err(LauncherError::UnknownVersion)));
    assert_eq!(
        MOJANG_MANIFEST_URL,
        "https://piston-meta.mojang.com/mc/game/version_manifest_v2.json"
    );
}
