use round_studio_launcher::error::LauncherError;
use round_studio_launcher::java::JavaResolution;
use round_studio_launcher::launch::{
    asset_name, build_classpath_from_meta, contains_any_arg, expand_launch_argument_items,
    launch_arguments, launch_arguments_as, launch_dirs, launch_java, launch_replacements,
    legacy_game_arguments, plan_launch, ram_notice, replace_placeholders,
    required_java_major_from_installed_meta, LaunchArgumentItem, LaunchArgumentValue,
    LaunchArguments, LaunchEnv, LaunchJavaVersion, LaunchVersionMeta, MojangAssetIndex,
};
use round_studio_launcher::library::{HostOs, MojangLibrary, MojangLibraryRule, MojangRuleOs};
use round_studio_launcher::natives::{FoundFile, Listing, Node};
use round_studio_launcher::process::{
    output_event, started_event, stopped_event, watch_step, LaunchEvent, Observation, OutputStream,
    ProcessTable,
};
use round_studio_launcher::profile::{LoaderType, Profile};
use round_studio_launcher::validate::{
    asset_state, has_shader_runtime, is_shader_runtime, needs_native_restore, profile_validate,
    AssetState, ProfileFacts, ValidationIssue,
};

fn owned(items: &[&str]) -> Vec<String> {
    items.iter().map(|item| item.to_string()).collect()
}

fn pairs(items: &[(&str, &str)]) -> Vec<(String, String)> {
    items.iter().map(|(key, value)| (key.to_string(), value.to_string())).collect()
}

fn profile() -> Profile {
    Profile {
        id: "id".to_string(),
        name: "Main".to_string(),
        minecraft_version: "1.20.1".to_string(),
        loader: LoaderType::Vanilla,
        loader_version: None,
        nickname: "Steve".to_string(),
        ram_mb: 2048,
        java_path: None,
        jvm_args: owned(&["-XX:+UseG1GC", "-Xmx1G"]),
        skin_path: None,
        created_at: "0".to_string(),
    }
}

fn meta() -> LaunchVersionMeta {
    LaunchVersionMeta {
        id: "1.20.1-fabric".to_string(),
        main_class: "Main".to_string(),
        version_type: None,
        libraries: Vec::new(),
        asset_index: Some(MojangAssetIndex { id: "5".to_string(), url: "u".to_string() }),
        minecraft_arguments: None,
        arguments: None,
        java_version: None,
    }
}

fn env() -> LaunchEnv {
    LaunchEnv {
        game_dir: "G".to_string(),
        assets_dir: "A".to_string(),
        natives_dir: "N".to_string(),
        libraries_dir: "L".to_string(),
        classpath: "a.jar;c.jar".to_string(),
    }
}

fn plain(text: &str) -> LaunchArgumentItem {
    LaunchArgumentItem::Plain(text.to_string())
}

fn rule(action: &str, os: &str) -> MojangLibraryRule {
    MojangLibraryRule {
        action: action.to_string(),
        os: Some(MojangRuleOs { name: Some(os.to_string()), arch: None }),
        features: None,
    }
}

const UUID: &str = "d205fef7-eb9e-59a8-82e0-525fbaf2e1bf";
const SESSION: &str = "token:offline-token:d205fef7-eb9e-59a8-82e0-525fbaf2e1bf";

#[test]
fn placeholders_are_replaced() {
    let values = pairs(&[("a", "1"), ("b", "2"), ("empty", "")]);
    assert_eq!(replace_placeholders("x${a}y${b}${a}z", &values), "x1y21z");
    assert_eq!(replace_placeholders("${c}${empty}", &values), "${c}");
    assert_eq!(replace_placeholders("$a {a} ${a", &values), "$a {a} ${a");
    assert_eq!(replace_placeholders("", &values), "");
    assert_eq!(replace_placeholders("${a}", &Vec::new()), "${a}");
}

#[test]
fn the_order_of_values_does_not_matter() {
    let values = pairs(&[("a", "1"), ("b", "{}"), ("c", "}")]);
    let reordered = pairs(&[("c", "}"), ("b", "{}"), ("a", "1")]);
    for template in ["${a}${b}${c}", "x${b}y", "${d}${c}"] {
        assert_eq!(
            replace_placeholders(template, &values),
            replace_placeholders(template, &reordered)
        );
    }
}

#[test]
fn argument_templates_are_expanded() {
    let values = pairs(&[("a", "1")]);
    let items = vec![
        plain("--x"),
        plain("${a}"),
        LaunchArgumentItem::Conditional {
            rules: Some(vec![rule("allow", "windows")]),
            value: LaunchArgumentValue::Many(owned(&["-w", "${a}"])),
        },
        LaunchArgumentItem::Conditional {
            rules: None,
            value: LaunchArgumentValue::One("=${a}=".to_string()),
        },
        LaunchArgumentItem::Conditional {
            rules: Some(Vec::new()),
            value: LaunchArgumentValue::One("never".to_string()),
        },
    ];
    assert_eq!(
        expand_launch_argument_items(&items, &values, HostOs::Windows),
        owned(&["--x", "1", "-w", "1", "=1="])
    );
    assert_eq!(
        expand_launch_argument_items(&items, &values, HostOs::Other),
        owned(&["--x", "1", "=1="])
    );
    assert_eq!(
        legacy_game_arguments(" --u ${a}\t--v  b ", &values),
        owned(&["--u", "1", "--v", "b"])
    );
}

#[test]
fn arguments_are_looked_for() {
    let args = owned(&["--version", "1"]);
    assert!(contains_any_arg(&args, &["--v", "--version"]));
    assert!(!contains_any_arg(&args, &["--vers"]));
    assert!(!contains_any_arg(&args, &[]));
}

#[test]
fn metadata_names_the_runtime_and_the_assets() {
    let mut meta = meta();
    assert_eq!(required_java_major_from_installed_meta(None), None);
    assert_eq!(required_java_major_from_installed_meta(Some(&meta)), None);
    meta.java_version = Some(LaunchJavaVersion { major_version: 17 });
    assert_eq!(required_java_major_from_installed_meta(Some(&meta)), Some(17));
    assert_eq!(asset_name(&meta, &profile()), "5");
    meta.asset_index = None;
    assert_eq!(asset_name(&meta, &profile()), "1.20.1");
}

#[test]
fn the_class_path_has_what_is_there() {
    let library = |name: &str, rules: Option<Vec<MojangLibraryRule>>| MojangLibrary {
        name: Some(name.to_string()),
        url: None,
        natives: None,
        rules,
        downloads: None,
    };
    let mut meta = meta();
    meta.libraries = vec![
        library("a:b:1", None),
        library("c:d:1", None),
        library("e:f:1", Some(vec![rule("allow", "osx")])),
        library("bad", None),
    ];
    let present = pairs(&[("a/b/1/b-1.jar", "L/a/b/1/b-1.jar"), ("e/f/1/f-1.jar", "L/e")]);
    assert_eq!(
        build_classpath_from_meta(&meta, &present, "V/c.jar", HostOs::Windows),
        "L/a/b/1/b-1.jar;V/c.jar"
    );
    assert_eq!(
        build_classpath_from_meta(&meta, &Vec::new(), "V/c.jar", HostOs::Windows),
        "V/c.jar"
    );
}

#[test]
fn the_values_of_a_launch() {
    let values = launch_replacements(&profile(), &meta(), &env(), UUID);
    assert_eq!(values.len(), 28);
    let value = |key: &str| {
        values.iter().find(|(name, _)| name == key).map(|(_, value)| value.as_str())
    };
    for key in ["auth_player_name", "auth_username", "profile_name", "user_name", "username"] {
        assert_eq!(value(key), Some("Steve"));
    }
    assert_eq!(value("version_name"), Some("1.20.1-fabric"));
    assert_eq!(value("game_directory"), Some("G"));
    assert_eq!(value("assets_root"), Some("A"));
    assert_eq!(value("game_assets"), Some("A"));
    assert_eq!(value("assets_index_name"), Some("5"));
    assert_eq!(value("auth_uuid"), Some(UUID));
    assert_eq!(value("auth_access_token"), Some("offline-token"));
    assert_eq!(value("user_type"), Some("legacy"));
    assert_eq!(value("version_type"), Some("release"));
    assert_eq!(value("auth_session"), Some(SESSION));
    assert_eq!(value("user_properties"), Some("{}"));
    assert_eq!(value("natives_directory"), Some("N"));
    assert_eq!(value("launcher_name"), Some("RoundStudioLauncher"));
    assert_eq!(value("launcher_version"), Some("0.1.0"));
    assert_eq!(value("library_directory"), Some("L"));
    assert_eq!(value("classpath_separator"), Some(";"));
    assert_eq!(value("classpath"), Some("a.jar;c.jar"));
    for key in ["clientid", "client_id", "xuid", "auth_xuid"] {
        assert_eq!(value(key), Some(""));
    }
    assert_eq!(value("resolution_width"), Some("854"));
    assert_eq!(value("resolution_height"), Some("480"));
}

#[test]
fn the_keys_of_a_launch_are_distinct() {
    let values = launch_replacements(&profile(), &meta(), &env(), UUID);
    for (i, (left, _)) in values.iter().enumerate() {
        for (right, _) in &values[i + 1..] {
            assert_ne!(left, right);
        }
    }
}

#[test]
fn a_launch_without_templates() {
    assert_eq!(
        launch_arguments(&profile(), &meta(), &env(), Some(64), HostOs::Windows),
        owned(&[
            "-Xms512M",
            "-Xmx2048M",
            "-Djava.library.path=N",
            "-cp",
            "a.jar;c.jar",
            "-XX:+UseG1GC",
            "Main",
            "--username",
            "Steve",
            "--version",
            "1.20.1-fabric",
            "--gameDir",
            "G",
            "--assetsDir",
            "A",
            "--assetIndex",
            "5",
            "--uuid",
            UUID,
            "--accessToken",
            "offline-token",
            "--session",
            SESSION,
            "--userType",
            "legacy",
            "--versionType",
            "release",
        ])
    );
}

#[test]
fn a_launch_with_a_line_of_words() {
    let mut meta = meta();
    meta.minecraft_arguments = Some("${auth_player_name} --session ${auth_session}".to_string());
    let args = launch_arguments(&profile(), &meta, &env(), Some(32), HostOs::Windows);
    assert_eq!(args[1], "-Xmx1024M");
    assert_eq!(
        args[6..],
        owned(&["Main", "Steve", "--session", SESSION, "--username", "Steve"])
    );
    meta.minecraft_arguments = Some("--userName x".to_string());
    let args = launch_arguments(&profile(), &meta, &env(), None, HostOs::Windows);
    assert_eq!(args[7..], owned(&["--userName", "x", "--session", SESSION]));
}

#[test]
fn a_launch_with_templates() {
    let mut meta = meta();
    meta.version_type = Some("snapshot".to_string());
    meta.arguments = Some(LaunchArguments {
        game: vec![plain("--username"), plain("${auth_player_name}"), plain("--uuid"), plain("u")],
        jvm: vec![plain("-Djava.library.path=${natives_directory}/x")],
    });
    meta.minecraft_arguments = Some("--ignored".to_string());
    assert_eq!(
        launch_arguments_as(&profile(), &meta, &env(), "U", None, HostOs::Windows),
        owned(&[
            "-Xms512M",
            "-Xmx2048M",
            "-Djava.library.path=N/x",
            "-cp",
            "a.jar;c.jar",
            "-XX:+UseG1GC",
            "Main",
            "--username",
            "Steve",
            "--uuid",
            "u",
            "--version",
            "1.20.1-fabric",
            "--gameDir",
            "G",
            "--assetsDir",
            "A",
            "--assetIndex",
            "5",
            "--accessToken",
            "offline-token",
            "--userType",
            "legacy",
            "--versionType",
            "snapshot",
        ])
    );
    meta.arguments = Some(LaunchArguments {
        game: Vec::new(),
        jvm: vec![plain("-cp"), plain("${classpath}")],
    });
    let args = launch_arguments_as(&profile(), &meta, &env(), "U", None, HostOs::Windows);
    assert_eq!(args[2..5], owned(&["-cp", "a.jar;c.jar", "-Djava.library.path=N"]));
    assert_eq!(args[7..9], owned(&["--username", "Steve"]));
}

#[test]
fn the_player_is_told_of_other_memory() {
    assert_eq!(ram_notice(2048, Some(64)), None);
    assert_eq!(
        ram_notice(2048, Some(32)),
        Some("[launcher] RAM adjusted from 2048M to 1024M for detected Java Some(32)-bit".to_string())
    );
    assert_eq!(
        ram_notice(9000, None),
        Some("[launcher] RAM adjusted from 9000M to 8192M for detected Java None-bit".to_string())
    );
    let plan = plan_launch(&profile(), &meta(), &env(), "J", Some(32), HostOs::Other);
    assert_eq!(plan.program, "J");
    assert_eq!(plan.args[1], "-Xmx1024M");
    assert!(plan.notice.is_some());
}

#[test]
fn launches_need_a_valid_profile_and_a_runtime() {
    let java = |path: Option<&str>| JavaResolution {
        required_major: 17,
        resolved_path: path.map(str::to_string),
        source: None,
    };
    assert!(matches!(
        launch_java(false, &java(None)),
        Err(LauncherError::ValidationFailed)
    ));
    assert!(matches!(launch_java(true, &java(None)), Err(LauncherError::JavaNotFound)));
    assert_eq!(launch_java(true, &java(Some("J"))).ok(), Some("J".to_string()));
    let dirs = launch_dirs(&profile());
    assert_eq!(dirs.game.steps.join("/"), "profiles/id/instance");
    assert_eq!(dirs.assets.steps.join("/"), "profiles/id/instance/assets");
    assert_eq!(dirs.natives.steps.join("/"), "profiles/id/instance/natives");
    assert_eq!(dirs.libraries.steps.join("/"), "profiles/id/instance/libraries");
    assert_eq!(
        dirs.client_jar.steps.join("/"),
        "profiles/id/instance/versions/1.20.1/1.20.1.jar"
    );
}

fn jar() -> Listing {
    Listing::Entries(vec![Node::File(FoundFile {
        path: "a.jar".to_string(),
        name: Some("a.jar".to_string()),
        extension: Some("jar".to_string()),
    })])
}

fn facts() -> ProfileFacts {
    ProfileFacts {
        java: JavaResolution {
            required_major: 17,
            resolved_path: Some("J".to_string()),
            source: Some("systemInstalled".to_string()),
        },
        console_path: "C".to_string(),
        found_major: Some(17),
        client_jar_exists: true,
        libraries: jar(),
        natives: jar(),
        restored_natives: None,
        assets: AssetState::ObjectPresent,
        shaderpacks: None,
        mods: None,
    }
}

fn codes(issues: &[ValidationIssue]) -> Vec<&str> {
    issues.iter().map(|issue| issue.code.as_str()).collect()
}

#[test]
fn a_good_profile_can_be_launched() {
    let report = profile_validate(&profile(), &facts());
    assert!(report.can_launch);
    assert!(report.critical.is_empty());
    assert!(report.warnings.is_empty());
}

#[test]
fn everything_can_be_wrong_at_once() {
    let mut bad = profile();
    bad.loader = LoaderType::Forge;
    bad.loader_version = Some(" ".to_string());
    bad.nickname = "x".to_string();
    let mut facts = facts();
    facts.java.resolved_path = None;
    facts.client_jar_exists = false;
    facts.libraries = Listing::Missing;
    facts.natives = Listing::Missing;
    facts.restored_natives = Some(Listing::Entries(Vec::new()));
    facts.assets = AssetState::IndexMissing;
    facts.shaderpacks = Some(owned(&["bsl.zip"]));
    let report = profile_validate(&bad, &facts);
    assert!(!report.can_launch);
    assert_eq!(
        codes(&report.critical),
        vec![
            "MISSING_LOADER_VERSION",
            "INVALID_NICK",
            "JAVA_NOT_FOUND",
            "MISSING_CLIENT_JAR",
            "MISSING_LIBRARIES",
            "MISSING_NATIVES",
            "MISSING_ASSET_INDEX",
        ]
    );
    assert_eq!(codes(&report.warnings), vec!["LOADER_BETA", "MISSING_SHADER_RUNTIME"]);
    let messages: Vec<&str> =
        report.critical.iter().map(|issue| issue.message.as_str()).collect();
    assert_eq!(
        messages,
        vec![
            "Loader version is not selected.",
            "Nickname must match [A-Za-z0-9_]{3,16}",
            "Java 17 not found (java.exe/javaw.exe)",
            "Minecraft client is not installed. Run profile install first.",
            "Minecraft libraries are missing. Run install before launch.",
            "Minecraft native libraries are missing. Run install before launch.",
            "Asset index is missing. Run install before launch.",
        ]
    );
    assert!(report.critical.iter().all(|issue| issue.severity == "critical"));
    assert!(report.warnings.iter().all(|issue| issue.severity == "warning"));
    assert_eq!(
        report.warnings[0].message,
        "Fabric is fully wired into the launcher. Forge uses a lightweight installer flow and may still fail on some modern packs."
    );
    assert_eq!(
        report.warnings[1].message,
        "Shaders are present, but Iris/Oculus/OptiFine was not found."
    );
}

#[test]
fn runtimes_are_judged() {
    let mut facts = facts();
    facts.found_major = Some(8);
    let report = profile_validate(&profile(), &facts);
    assert_eq!(codes(&report.critical), vec!["JAVA_VERSION_MISMATCH"]);
    assert_eq!(
        report.critical[0].message,
        "Java 17 is required for Minecraft 1.20.1, but detected Java 8 at C"
    );
    facts.found_major = None;
    let report = profile_validate(&profile(), &facts);
    assert!(report.can_launch);
    assert_eq!(codes(&report.warnings), vec!["JAVA_VERSION_UNKNOWN"]);
    assert_eq!(
        report.warnings[0].message,
        "Unable to detect Java version from selected executable."
    );
}

#[test]
fn natives_may_be_restored() {
    let mut facts = facts();
    facts.natives = Listing::Missing;
    assert!(needs_native_restore(&facts.natives));
    facts.restored_natives = Some(jar());
    assert!(profile_validate(&profile(), &facts).can_launch);
    facts.restored_natives = None;
    assert_eq!(codes(&profile_validate(&profile(), &facts).critical), vec!["MISSING_NATIVES"]);
    assert!(!needs_native_restore(&jar()));
    facts.natives = jar();
    facts.libraries = Listing::Failed;
    assert!(profile_validate(&profile(), &facts).can_launch);
}

#[test]
fn assets_are_judged() {
    assert_eq!(asset_state(false, true, true, Some(false)), AssetState::NoMetadata);
    assert_eq!(asset_state(true, false, true, Some(false)), AssetState::IndexMissing);
    assert_eq!(asset_state(true, true, false, Some(false)), AssetState::IndexUnreadable);
    assert_eq!(asset_state(true, true, true, None), AssetState::NothingListed);
    assert_eq!(asset_state(true, true, true, Some(true)), AssetState::ObjectPresent);
    assert_eq!(asset_state(true, true, true, Some(false)), AssetState::ObjectMissing);
    let mut facts = facts();
    for state in [AssetState::NoMetadata, AssetState::IndexUnreadable, AssetState::NothingListed] {
        facts.assets = state;
        assert!(profile_validate(&profile(), &facts).can_launch);
    }
    facts.assets = AssetState::ObjectMissing;
    let report = profile_validate(&profile(), &facts);
    assert_eq!(codes(&report.critical), vec!["MISSING_ASSETS"]);
    assert_eq!(
        report.critical[0].message,
        "Assets are incomplete. Run install before launch."
    );
}

#[test]
fn shader_runtimes_are_found_in_any_case() {
    assert!(is_shader_runtime("iris-1.6.jar"));
    assert!(!is_shader_runtime("IRIS.jar"));
    assert!(has_shader_runtime(&owned(&["sodium.jar", "IRIS-1.6.jar"])));
    assert!(has_shader_runtime(&owned(&["Oculus.jar"])));
    assert!(has_shader_runtime(&owned(&["OptiFine_1.20.jar"])));
    assert!(!has_shader_runtime(&owned(&["sodium.jar"])));
    let mut facts = facts();
    facts.shaderpacks = Some(owned(&["bsl.zip"]));
    facts.mods = Some(owned(&["OptiFine.jar"]));
    assert!(profile_validate(&profile(), &facts).warnings.is_empty());
    facts.mods = Some(Vec::new());
    assert_eq!(
        codes(&profile_validate(&profile(), &facts).warnings),
        vec!["MISSING_SHADER_RUNTIME"]
    );
    facts.shaderpacks = Some(Vec::new());
    assert!(profile_validate(&profile(), &facts).warnings.is_empty());
}

fn shown(event: &LaunchEvent) -> String {
    match event {
        LaunchEvent::State(text) => format!("state {text}"),
        LaunchEvent::Log(text) => format!("log {text}"),
    }
}

#[test]
fn processes_have_handles() {
    let mut table: ProcessTable<&str> = ProcessTable::new();
    assert_eq!(table.register("a"), 1);
    assert_eq!(table.register("b"), 2);
    assert_eq!(table.release(1).ok(), Some("a"));
    assert!(matches!(table.release(1), Err(LauncherError::ProcessNotFound)));
    assert_eq!(table.register("c"), 3);
    assert_eq!(table.release(2).ok(), Some("b"));
    table.next = u64::MAX;
    assert_eq!(table.register("d"), u64::MAX);
    assert_eq!(table.register("e"), 0);
}

#[test]
fn launches_are_reported() {
    assert_eq!(shown(&started_event(3)), "state started:3");
    assert_eq!(shown(&stopped_event(3)), "state stopped:3");
    assert_eq!(shown(&output_event(OutputStream::Stdout, "hi")), "log [stdout] hi");
    assert_eq!(shown(&output_event(OutputStream::Stderr, "hi")), "log [stderr] hi");
}

#[test]
fn processes_are_watched() {
    let step = |observation: Observation| {
        let step = watch_step(7, observation);
        let events: Vec<String> = step.events.iter().map(shown).collect();
        (events, step.remove, step.go_on)
    };
    assert_eq!(step(Observation::Running), (Vec::new(), false, true));
    assert_eq!(step(Observation::Gone), (Vec::new(), false, false));
    assert_eq!(
        step(Observation::TableUnavailable),
        (
            owned(&["log [launcher] process table error: Failed to access process table"]),
            false,
            false
        )
    );
    assert_eq!(
        step(Observation::Exited(Some(0))),
        (owned(&["state exited:7:0"]), true, false)
    );
    assert_eq!(
        step(Observation::Exited(Some(-5))),
        (
            owned(&["state exited:7:-5", "log [launcher] process exited with code -5"]),
            true,
            false
        )
    );
    assert_eq!(
        step(Observation::Exited(None)),
        (
            owned(&["state exited:7:-1", "log [launcher] process exited with code -1"]),
            true,
            false
        )
    );
    assert_eq!(
        step(Observation::StatusFailed("denied".to_string())),
        (
            owned(&[
                "log [launcher] failed to read process status: denied",
                "state exited:7:-1",
                "log [launcher] process exited with code -1"
            ]),
            true,
            false
        )
    );
}
