use round_studio_launcher::assets::{
    asset_batches, asset_object_path, asset_prefix, asset_progress, asset_queue, ProbedAsset,
    ASSETS_CACHED, ASSET_BATCH,
};
use round_studio_launcher::install::{
    checksum_notice, emit_install_progress, emit_install_progress_precise, install_report,
    library_files, library_progress, next_stage, plan_libraries, stage_message, stage_step,
    verify_client, InstallStage, LibraryFile, ProbedFile, INSTALL_STEPS,
};
use round_studio_launcher::launch::{library_candidates, LaunchVersionMeta};
use round_studio_launcher::library::{
    HostOs, MojangLibrary, MojangLibraryArtifact, MojangLibraryDownloads, MojangLibraryRule,
};
use round_studio_launcher::natives::{
    collect_jars_recursive, extract_native_jar, has_native_binaries, native_entry_target,
    restore_natives_from_library_cache, FoundFile, Listing, Node,
};
use round_studio_launcher::profile::LoaderType;

fn library(name: &str, native: bool, allowed: bool) -> MojangLibrary {
    MojangLibrary {
        name: Some(name.to_string()),
        url: None,
        natives: None,
        rules: if allowed {
            None
        } else {
            Some(vec![MojangLibraryRule {
                action: "disallow".to_string(),
                os: None,
                features: None,
            }])
        },
        downloads: if native {
            Some(MojangLibraryDownloads {
                artifact: None,
                classifiers: Some(vec![(
                    "natives-windows".to_string(),
                    MojangLibraryArtifact { path: "n.jar".to_string(), url: "u".to_string() },
                )]),
            })
        } else {
            None
        },
    }
}

fn meta(libraries: Vec<MojangLibrary>) -> LaunchVersionMeta {
    LaunchVersionMeta {
        id: "1.20.1".to_string(),
        main_class: "Main".to_string(),
        version_type: None,
        libraries,
        asset_index: None,
        minecraft_arguments: None,
        arguments: None,
        java_version: None,
    }
}

fn file(path: &str) -> Node {
    let name = path.rsplit('/').next().unwrap().to_string();
    let extension = match name.rsplit_once('.') {
        Some((_, extension)) => Some(extension.to_string()),
        None => None,
    };
    Node::File(FoundFile { path: path.to_string(), name: Some(name), extension })
}

fn paths(jars: Option<Vec<FoundFile>>) -> Option<Vec<String>> {
    jars.map(|jars| jars.into_iter().map(|jar| jar.path).collect())
}

#[test]
fn stages_in_order() {
    let walk = |has_assets: bool| {
        let mut stage = InstallStage::LoadMetadata;
        let mut steps = vec![stage_step(stage)];
        while let Some(next) = next_stage(stage, has_assets) {
            stage = next;
            steps.push(stage_step(stage));
        }
        steps
    };
    assert_eq!(walk(true), vec![1, 2, 3, 4, 5, 6, 7, 8]);
    assert_eq!(walk(false), vec![1, 2, 3, 4, 5, 7, 8]);
    assert_eq!(INSTALL_STEPS, 8);
}

#[test]
fn stages_have_messages() {
    let message = |stage: InstallStage| stage_message(stage, LoaderType::Fabric, "1.20.1");
    assert_eq!(message(InstallStage::LoadMetadata), "Loading Minecraft metadata...");
    assert_eq!(message(InstallStage::Prepare), "Preparing fabric 1.20.1...");
    assert_eq!(message(InstallStage::Client), "Downloading client.jar...");
    assert_eq!(message(InstallStage::SaveMetadata), "Saving version metadata...");
    assert_eq!(message(InstallStage::Libraries), "Downloading libraries and natives...");
    assert_eq!(message(InstallStage::Assets), "Downloading assets...");
    assert_eq!(message(InstallStage::Verify), "Verifying downloaded files...");
    assert_eq!(message(InstallStage::Completed), "Install completed.");
}

#[test]
fn progress_stays_within_the_total() {
    assert_eq!(emit_install_progress(3, 8), (3, 8));
    assert_eq!(emit_install_progress(9, 8), (8, 8));
    assert_eq!(emit_install_progress(0, 0), (0, 1));
    assert_eq!(emit_install_progress_precise(5, 8), (5, 4, 8));
    assert_eq!(emit_install_progress_precise(0, 8), (1, 0, 8));
    assert_eq!(emit_install_progress_precise(9, 8), (8, 7, 8));
    assert_eq!(emit_install_progress_precise(3, 0), (1, 0, 1));
}

#[test]
fn library_files_are_planned() {
    let meta = meta(vec![
        library("a:b:1", true, true),
        library("x:y:1", true, false),
        library("short", false, true),
        library("c:d:2", false, true),
    ]);
    let files = library_files(&meta, HostOs::Windows);
    let shown: Vec<(&str, &str, bool)> = files
        .iter()
        .map(|file| (file.url.as_str(), file.path.as_str(), file.native))
        .collect();
    assert_eq!(
        shown,
        vec![
            ("https://libraries.minecraft.net/a/b/1/b-1.jar", "a/b/1/b-1.jar", false),
            ("u", "n.jar", true),
            ("https://libraries.minecraft.net/c/d/2/d-2.jar", "c/d/2/d-2.jar", false),
        ]
    );
    let on_class_path: Vec<String> =
        files.iter().filter(|file| !file.native).map(|file| file.path.clone()).collect();
    assert_eq!(library_candidates(&meta, HostOs::Windows), on_class_path);
}

#[test]
fn missing_library_files_are_fetched() {
    let probed = |path: &str, native: bool, exists: bool| ProbedFile {
        file: LibraryFile { url: format!("u/{path}"), path: path.to_string(), native },
        exists,
    };
    let plan = plan_libraries(&vec![
        probed("a", false, true),
        probed("b", true, false),
        probed("c", false, false),
        probed("d", true, true),
    ]);
    assert_eq!(plan.present, vec!["a".to_string(), "d".to_string()]);
    assert_eq!(
        plan.downloads,
        vec![
            ("u/b".to_string(), "b".to_string()),
            ("u/c".to_string(), "c".to_string())
        ]
    );
    assert_eq!(plan.natives, vec!["b".to_string(), "d".to_string()]);
    let all_there = plan_libraries(&vec![probed("a", false, true)]);
    assert!(all_there.downloads.is_empty());
    assert_eq!(library_progress(2, 5), "Downloading libraries... 2/5");
    assert_eq!(library_progress(0, 0), "Downloading libraries... 0/1");
}

#[test]
fn assets_are_named_by_their_hash() {
    assert_eq!(asset_prefix("00ab"), Some("00".to_string()));
    assert_eq!(asset_prefix("\u{e9}x"), Some("\u{e9}".to_string()));
    assert_eq!(asset_prefix("a"), None);
    assert_eq!(asset_prefix(""), None);
    assert_eq!(asset_prefix("a\u{e9}"), None);
    assert_eq!(asset_prefix("\u{20ac}"), None);
    assert_eq!(
        asset_object_path("id", "00ab").steps.join("/"),
        "profiles/id/instance/assets/objects/00/00ab"
    );
}

#[test]
fn missing_assets_are_fetched() {
    let asset = |hash: &str, exists: bool| ProbedAsset { hash: hash.to_string(), exists };
    let queue = asset_queue("id", &vec![asset("00ab", true), asset("11cd", false), asset("22ef", false)]);
    assert_eq!(queue.len(), 2);
    assert_eq!(queue[0].url, "https://resources.download.minecraft.net/11/11cd");
    assert_eq!(
        queue[0].path.steps.join("/"),
        "profiles/id/instance/assets/objects/11/11cd"
    );
    assert_eq!(queue[1].url, "https://resources.download.minecraft.net/22/22ef");
    assert!(asset_queue("id", &vec![asset("00ab", true)]).is_empty());
    assert_eq!(asset_progress(24, 50), "Downloading assets... 24/50");
    assert_eq!(ASSETS_CACHED, "Assets already cached.");
}

#[test]
fn assets_come_in_batches() {
    assert_eq!(ASSET_BATCH, 24);
    assert_eq!(asset_batches(0), Vec::<(usize, usize)>::new());
    assert_eq!(asset_batches(24), vec![(0, 24)]);
    assert_eq!(asset_batches(25), vec![(0, 24), (24, 25)]);
    assert_eq!(asset_batches(50), vec![(0, 24), (24, 48), (48, 50)]);
    let items: Vec<usize> = (0..100).collect();
    let chunks: Vec<usize> = items.chunks(24).map(|chunk| chunk.len()).collect();
    let batches: Vec<usize> = asset_batches(100).iter().map(|(from, to)| to - from).collect();
    assert_eq!(batches, chunks);
}

#[test]
fn the_client_is_verified() {
    let mismatch = Some("Client.jar checksum mismatch. File can be corrupted.".to_string());
    assert_eq!(verify_client(b"abc", Some("a9993e364706816aba3e25717850c26c9cd0d89d")), None);
    assert_eq!(verify_client(b"", Some("da39a3ee5e6b4b0d3255bfef95601890afd80709")), None);
    assert_eq!(verify_client(b"abd", Some("a9993e364706816aba3e25717850c26c9cd0d89d")), mismatch);
    assert_eq!(verify_client(b"abc", Some("A9993E364706816ABA3E25717850C26C9CD0D89D")), mismatch);
    assert_eq!(verify_client(b"abc", Some("abc")), mismatch);
    assert_eq!(verify_client(b"abc", None), None);
    assert_eq!(checksum_notice("x", "x"), None);
    assert_eq!(checksum_notice("x", "y"), mismatch);
}

#[test]
fn installations_are_reported() {
    let list = |items: &[&str]| items.iter().map(|item| item.to_string()).collect::<Vec<_>>();
    let report = install_report(
        LoaderType::Forge,
        "c.jar",
        "m.json",
        &list(&["p"]),
        &list(&["f", "g"]),
        &list(&["index", "a"]),
    );
    assert!(report.success);
    assert_eq!(
        report.downloaded_files,
        list(&["c.jar", "m.json", "p", "f", "g", "index", "a"])
    );
    assert_eq!(
        report.warnings,
        list(&["Forge metadata is installed through a lightweight flow. If a specific pack fails, send the launch error and I will tighten the installer path."])
    );
    let none = Vec::new();
    let report = install_report(LoaderType::Fabric, "c", "m", &none, &none, &none);
    assert!(report.warnings.is_empty());
}

#[test]
fn jars_are_collected() {
    let tree = Listing::Entries(vec![
        file("l/a.jar"),
        Node::Directory(Listing::Entries(vec![file("l/d/b.JAR"), file("l/d/c.txt")])),
        file("l/noext"),
        Node::Directory(Listing::Missing),
        file("l/e.jar"),
    ]);
    assert_eq!(
        paths(collect_jars_recursive(&tree)),
        Some(vec!["l/a.jar".to_string(), "l/d/b.JAR".to_string(), "l/e.jar".to_string()])
    );
    assert_eq!(paths(collect_jars_recursive(&Listing::Missing)), Some(Vec::new()));
    assert_eq!(paths(collect_jars_recursive(&Listing::Failed)), None);
    let broken = Listing::Entries(vec![file("a.jar"), Node::Unreadable]);
    assert_eq!(paths(collect_jars_recursive(&broken)), None);
    let deep = Listing::Entries(vec![Node::Directory(Listing::Failed), file("a.jar")]);
    assert_eq!(paths(collect_jars_recursive(&deep)), None);
}

#[test]
fn native_libraries_are_found() {
    assert!(!has_native_binaries(&Listing::Missing));
    assert!(!has_native_binaries(&Listing::Failed));
    assert!(!has_native_binaries(&Listing::Entries(vec![file("a.txt")])));
    assert!(has_native_binaries(&Listing::Entries(vec![file("a.jar")])));
    for name in ["n/lwjgl.dll", "n/lib.SO", "n/lib.dylib"] {
        assert!(has_native_binaries(&Listing::Entries(vec![file("a.txt"), file(name)])));
        assert!(has_native_binaries(&Listing::Entries(vec![
            Node::Unreadable,
            Node::Directory(Listing::Entries(vec![file(name)])),
        ])));
    }
    assert!(!has_native_binaries(&Listing::Entries(vec![Node::Unreadable, file("a.jar")])));
}

#[test]
fn natives_are_restored_from_their_jars() {
    let tree = Listing::Entries(vec![
        file("l/lwjgl-3.3.1.jar"),
        file("l/lwjgl-3.3.1-Natives-windows.jar"),
        file("natives/plain.jar"),
        file("l/natives.txt"),
        Node::File(FoundFile {
            path: "l/?.jar".to_string(),
            name: None,
            extension: Some("jar".to_string()),
        }),
    ]);
    assert_eq!(
        paths(restore_natives_from_library_cache(&tree)),
        Some(vec!["l/lwjgl-3.3.1-Natives-windows.jar".to_string()])
    );
    assert_eq!(paths(restore_natives_from_library_cache(&Listing::Failed)), None);
}

#[test]
fn native_entries_are_extracted() {
    let target = |name: &str| match extract_native_jar(name) {
        Ok(target) => Ok(target),
        Err(error) => Err(error.message()),
    };
    assert_eq!(target("lwjgl.dll"), Ok(Some("lwjgl.dll".to_string())));
    assert_eq!(target("windows/x64/lwjgl.dll"), Ok(Some("lwjgl.dll".to_string())));
    assert_eq!(target("windows\\x64\\lwjgl.dll"), Ok(Some("lwjgl.dll".to_string())));
    assert_eq!(target("windows/"), Ok(None));
    assert_eq!(target("windows\\"), Ok(None));
    assert_eq!(target("META-INF/MANIFEST.MF"), Ok(None));
    assert_eq!(target("META-INF\\x"), Ok(None));
    assert_eq!(target("x/META-INF/y"), Ok(Some("y".to_string())));
    assert_eq!(target(".."), Err("invalid native entry name".to_string()));
    assert_eq!(target("../../evil.dll"), Ok(Some("evil.dll".to_string())));
    assert_eq!(target("x/a:b.dll").map(|name| name.is_some()), Ok(true));
    assert_eq!(target("a/./."), Ok(Some("a".to_string())));
    assert_eq!(target("/lib//x.so"), Ok(Some("x.so".to_string())));
    assert_eq!(target("."), Err("invalid native entry name".to_string()));
    assert_eq!(target("a/.."), Err("invalid native entry name".to_string()));
    assert_eq!(target("..."), Ok(Some("...".to_string())));
    assert_eq!(target(""), Err("invalid native entry name".to_string()));
    assert!(matches!(native_entry_target("a/b", Some("b".to_string())), Ok(Some(_))));
    assert!(matches!(native_entry_target("a/", Some("a".to_string())), Ok(None)));
    assert!(native_entry_target("a", None).is_err());
}
