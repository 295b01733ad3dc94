use round_studio_launcher::error::LauncherError;
use round_studio_launcher::java::{
    check_java_version, collect_java_candidates, console_program, detect_java_bitness, detect_java_major,
    effective_ram_mb, java_programs, java_search_plan, minecraft_java_major, needs_system_java,
    parse_java_major, parse_mc, paths_in_output, push_java_candidate, required_java_major,
    resolve_best_system_java, resolve_java_for_profile, sanitized_jvm_args, to_java_console_path,
    JavaPath, JavaProbe, JavaSearch, ProbedJava, ProbedPath,
};
use round_studio_launcher::profile::{LoaderType, Profile};

fn profile(version: &str, java_path: Option<&str>) -> Profile {
    Profile {
        id: "id".to_string(),
        name: "Main".to_string(),
        minecraft_version: version.to_string(),
        loader: LoaderType::Vanilla,
        loader_version: None,
        nickname: "Steve".to_string(),
        ram_mb: 2048,
        java_path: java_path.map(str::to_string),
        jvm_args: Vec::new(),
        skin_path: None,
        created_at: "0".to_string(),
    }
}

fn path(text: &str) -> JavaPath {
    JavaPath {
        text: text.to_string(),
        components: text
            .split('/')
            .filter(|part| !part.is_empty())
            .map(str::to_string)
            .collect(),
    }
}

fn java(path: &str, major: Option<u8>, bits: Option<u32>) -> ProbedJava {
    ProbedJava { path: path.to_string(), major, bits }
}

fn owned(items: &[&str]) -> Vec<String> {
    items.iter().map(|item| item.to_string()).collect()
}

#[test]
fn game_versions_have_two_numbers() {
    assert_eq!(parse_mc("1.20.1"), Some((1, 20)));
    assert_eq!(parse_mc("1.7"), Some((1, 7)));
    assert_eq!(parse_mc("26.1"), Some((26, 1)));
    assert_eq!(parse_mc("1"), None);
    assert_eq!(parse_mc("23w14a"), None);
    assert_eq!(parse_mc("1.x"), None);
    assert_eq!(parse_mc("1.300"), None);
    assert_eq!(parse_mc(""), None);
}

#[test]
fn game_versions_need_runtimes() {
    assert_eq!(minecraft_java_major("1.21"), 21);
    assert_eq!(minecraft_java_major("1.20.6"), 17);
    assert_eq!(minecraft_java_major("1.18"), 17);
    assert_eq!(minecraft_java_major("1.17.1"), 8);
    assert_eq!(minecraft_java_major("1.8.9"), 8);
    assert_eq!(minecraft_java_major("2.0"), 21);
    assert_eq!(minecraft_java_major("24w10a"), 17);
}

#[test]
fn installed_metadata_has_the_last_word() {
    assert_eq!(required_java_major(&profile("1.8.9", None), Some(16)), 16);
    assert_eq!(required_java_major(&profile("1.8.9", None), None), 8);
}

#[test]
fn reads_the_version_of_a_runtime() {
    assert_eq!(parse_java_major("openjdk version \"17.0.9\" 2023-10-17"), Some(17));
    assert_eq!(parse_java_major("java version \"1.8.0_391\"\nrest"), Some(8));
    assert_eq!(parse_java_major("openjdk version \"21\" 2023"), Some(21));
    assert_eq!(parse_java_major("openjdk version \"22-ea\""), Some(22));
    assert_eq!(parse_java_major("noise\nversion \"11.0\""), Some(11));
    assert_eq!(parse_java_major("version \"1.\""), None);
    assert_eq!(parse_java_major("version \"999\""), None);
    assert_eq!(parse_java_major("version \"17"), None);
    assert_eq!(parse_java_major("version \"17\nversion \"8.0\""), Some(8));
    assert_eq!(parse_java_major(""), None);
    assert_eq!(detect_java_major("", "openjdk version \"17.0.1\""), Some(17));
    assert_eq!(detect_java_major("version \"8\"", "version \"17\""), Some(8));
}

#[test]
fn reads_the_word_size_of_a_runtime() {
    assert_eq!(detect_java_bitness("", "    sun.arch.data.model = 64\n"), Some(64));
    assert_eq!(detect_java_bitness("SUN.ARCH.DATA.MODEL = 32", ""), Some(32));
    assert_eq!(detect_java_bitness("sun.arch.data.model = ?", "64"), None);
    assert_eq!(detect_java_bitness("os.arch = amd64", ""), None);
}

#[test]
fn old_runtimes_are_refused() {
    assert!(check_java_version(17, "1.20", Some(17), "p").is_ok());
    assert!(check_java_version(17, "1.20", Some(21), "p").is_ok());
    assert!(check_java_version(17, "1.20", None, "p").is_ok());
    match check_java_version(17, "1.20", Some(8), "p") {
        Err(error) => {
            assert!(matches!(error, LauncherError::JavaTooOld { .. }));
            assert_eq!(
                error.message(),
                "Java 17 required for Minecraft 1.20, but found Java 8 (p)"
            );
        }
        Ok(()) => panic!("an old runtime was accepted"),
    }
}

#[test]
fn memory_stays_within_limits() {
    assert_eq!(effective_ram_mb(4096, Some(64)), 4096);
    assert_eq!(effective_ram_mb(4096, None), 4096);
    assert_eq!(effective_ram_mb(4096, Some(32)), 1024);
    assert_eq!(effective_ram_mb(100, Some(64)), 1024);
    assert_eq!(effective_ram_mb(0, Some(32)), 1024);
    assert_eq!(effective_ram_mb(u32::MAX, None), 8192);
    let once = effective_ram_mb(9000, None);
    assert_eq!(effective_ram_mb(once, None), once);
}

#[test]
fn arguments_are_filtered() {
    let given = owned(&[
        "-XX:+UseG1GC", " -Dfoo=bar ", "-Xmx9G", " -Xms1G", "", "  ", "main", "-X",
    ]);
    let kept = sanitized_jvm_args(&given);
    assert_eq!(kept, owned(&["-XX:+UseG1GC", " -Dfoo=bar ", "-X"]));
    assert_eq!(sanitized_jvm_args(&kept), kept);
}

#[test]
fn searches_in_order() {
    let plan = java_search_plan(17, Some("C:\\jdk"), &owned(&["C:\\PF", "C:\\PF86"]));
    assert_eq!(plan.len(), 2 + 2 + 20 + 2);
    match &plan[1] {
        JavaSearch::Bundled(path) => {
            assert_eq!(path.steps, owned(&["java", "jdk-17", "bin", "javaw.exe"]))
        }
        other => panic!("{other:?}"),
    }
    match &plan[2] {
        JavaSearch::Home { home, program } => {
            assert_eq!((home.as_str(), program.as_str()), ("C:\\jdk", "java.exe"))
        }
        other => panic!("{other:?}"),
    }
    match &plan[4 + 10 + 1] {
        JavaSearch::Vendor { root, vendor } => {
            assert_eq!((root.as_str(), vendor.as_str()), ("C:\\PF86", "Eclipse Adoptium"))
        }
        other => panic!("{other:?}"),
    }
    match &plan[25] {
        JavaSearch::OnPath(program) => assert_eq!(program, "javaw.exe"),
        other => panic!("{other:?}"),
    }
    assert_eq!(java_search_plan(8, None, &Vec::new()).len(), 4);
    assert_eq!(java_programs(), owned(&["java.exe", "javaw.exe"]));
}

#[test]
fn search_output_is_read_by_lines() {
    assert_eq!(
        paths_in_output("C:\\a\\java.exe\r\n  C:\\b\\java.exe \r\n"),
        owned(&["C:\\a\\java.exe", "C:\\b\\java.exe"])
    );
}

#[test]
fn candidates_exist_and_are_distinct() {
    let found = vec![
        ProbedPath { path: path("a/b"), exists: true },
        ProbedPath { path: path("c"), exists: false },
        ProbedPath { path: path("a//b"), exists: true },
        ProbedPath { path: path("d"), exists: true },
    ];
    let texts: Vec<String> =
        collect_java_candidates(found).into_iter().map(|candidate| candidate.text).collect();
    assert_eq!(texts, owned(&["a/b", "d"]));
    let mut candidates = vec![path("a")];
    push_java_candidate(&mut candidates, path("a"), true);
    push_java_candidate(&mut candidates, path("b"), false);
    push_java_candidate(&mut candidates, path("c"), true);
    assert_eq!(candidates.len(), 2);
}

#[test]
fn the_best_runtime_is_chosen() {
    let found = vec![
        java("z", Some(17), Some(64)),
        java("b", Some(21), Some(32)),
        java("d", Some(21), Some(64)),
        java("c", Some(21), Some(64)),
        java("a", Some(21), None),
        java("y", Some(8), Some(64)),
        java("x", None, Some(64)),
    ];
    assert_eq!(
        resolve_best_system_java(17, &found),
        Some(("c".to_string(), "systemInstalled".to_string()))
    );
    assert_eq!(resolve_best_system_java(22, &found), None);
    assert_eq!(resolve_best_system_java(8, &Vec::new()), None);
}

#[test]
fn a_profile_gets_its_runtime() {
    let system = vec![java("sys", Some(21), Some(64))];
    let all = JavaProbe {
        override_exists: true,
        bundled_java: Some("bundled".to_string()),
        bundled_javaw: Some("bundledw".to_string()),
    };
    let chosen = resolve_java_for_profile(&profile("1.20", Some("own")), None, &all, &system);
    assert_eq!(chosen.required_major, 17);
    assert_eq!(chosen.resolved_path.as_deref(), Some("own"));
    assert_eq!(chosen.source.as_deref(), Some("profileOverride"));
    assert!(!needs_system_java(&profile("1.20", Some("own")), &all));

    let chosen = resolve_java_for_profile(&profile("1.20", None), Some(8), &all, &system);
    assert_eq!(chosen.required_major, 8);
    assert_eq!(chosen.resolved_path.as_deref(), Some("bundled"));
    assert_eq!(chosen.source.as_deref(), Some("bundledTemurin"));

    let windowed = JavaProbe {
        override_exists: false,
        bundled_java: None,
        bundled_javaw: Some("bundledw".to_string()),
    };
    let chosen = resolve_java_for_profile(&profile("1.20", Some("own")), None, &windowed, &system);
    assert_eq!(chosen.resolved_path.as_deref(), Some("bundledw"));

    let nothing = JavaProbe { override_exists: false, bundled_java: None, bundled_javaw: None };
    assert!(needs_system_java(&profile("1.20", Some("own")), &nothing));
    let chosen = resolve_java_for_profile(&profile("1.20", Some("own")), None, &nothing, &system);
    assert_eq!(chosen.resolved_path.as_deref(), Some("sys"));
    assert_eq!(chosen.source.as_deref(), Some("systemInstalled"));
    let chosen = resolve_java_for_profile(&profile("1.20", None), None, &nothing, &Vec::new());
    assert_eq!(chosen.resolved_path, None);
    assert_eq!(chosen.source, None);
}

#[test]
fn the_console_program_is_used() {
    let console = |path: &str, name: Option<&str>, sibling: Option<&str>| {
        console_program(path, name, sibling)
    };
    assert_eq!(console("b/JavaW.exe", Some("JavaW.exe"), Some("b/java.exe")), "b/java.exe");
    assert_eq!(console("b/javaw.exe", Some("javaw.exe"), None), "b/javaw.exe");
    assert_eq!(console("b/java.exe", Some("java.exe"), Some("c/java.exe")), "b/java.exe");
    assert_eq!(console("b", None, Some("x")), "b");
}

#[test]
fn the_console_program_goes_by_the_end_of_the_path() {
    assert_eq!(to_java_console_path("b/JavaW.exe", Some("b/java.exe")), "b/java.exe");
    assert_eq!(to_java_console_path("b/javaw.exe/.", Some("b/java.exe")), "b/java.exe");
    assert_eq!(to_java_console_path("javaw.exe", Some("java.exe")), "java.exe");
    assert_eq!(to_java_console_path("b/javaw.exe", None), "b/javaw.exe");
    assert_eq!(to_java_console_path("javaw.exe/java", Some("x")), "javaw.exe/java");
    assert_eq!(to_java_console_path("b/javaw.exe/..", Some("x")), "b/javaw.exe/..");
    for path in ["C:\\jdk\\bin\\other.exe", "C:\\javaw.exe\\x", "C:java.exe", "\\\\s\\h\\xjavaw.exe"] {
        assert_eq!(to_java_console_path(path, Some("C:\\java.exe")), path);
    }
}

#[test]
fn the_console_program_is_stable() {
    for path in ["b/javaw.exe", "b/java.exe", "b/other"] {
        let once = to_java_console_path(path, Some("b/java.exe"));
        assert_eq!(to_java_console_path(&once, Some("b/java.exe")), once);
    }
}
