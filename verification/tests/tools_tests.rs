use appforge::assets::{find_icons_dir, get_assets, icon_dir_candidates, icons_dir, IconsDir, WalkedDir};
use appforge::config::config_file_name;
use appforge::env_check::{
    adb_check, check_environment, first_line, get_version, studio_check, tool_check, xcode_check,
    EnvProbes,
};
use appforge::git::{git_branch, git_status};
use appforge::mobile::get_devices;
use appforge::project_init::{file_node, ignores_entry};
use appforge::quick_commands::{
    artifact_from, artifact_of, bump, bump_name, detect_package_manager, detect_project_info,
    find_android_artifacts, find_lock_manager, read_android_version, update_android_version,
    xcode_target, DirFacts, FoundFile, ProjectFacts,
};
use appforge::runner::{command_line, keeps_lowered, keeps_variable};
use appforge::search::{
    any_true, is_binary_extension, is_binary_lowered, limit_reached, matches_any_pattern,
    parse_patterns, scan_file, search_in_files, skips_dir, split_patterns, wanted, wants_file,
    with_slashes, SearchResult, TextFile,
};

fn status(list: &[appforge::git::FileStatus]) -> Vec<(String, String, bool)> {
    list.iter().map(|f| (f.path.clone(), f.status.clone(), f.staged)).collect()
}

fn t(path: &str, status: &str, staged: bool) -> (String, String, bool) {
    (path.to_string(), status.to_string(), staged)
}

#[test]
fn git_status_sorts_changes() {
    let output = "M  src/a.rs\n M src/b.rs\nMM src/c.rs\n?? new file.txt\nA  added.rs\nD  gone.rs\n";
    let r = git_status(output);
    assert_eq!(
        status(&r.staged),
        vec![
            t("src/a.rs", "M", true),
            t("src/c.rs", "M", true),
            t("added.rs", "A", true),
            t("gone.rs", "D", true),
        ]
    );
    assert_eq!(
        status(&r.unstaged),
        vec![
            t("src/b.rs", "M", false),
            t("src/c.rs", "M", false),
            t("new file.txt", "??", false),
        ]
    );
}

#[test]
fn git_status_passes_over_short_lines() {
    let r = git_status("\nM\nM a\n  \nR  x\r\n?M odd\n");
    assert_eq!(status(&r.staged), vec![t("x", "R", true)]);
    assert_eq!(status(&r.unstaged), vec![t("odd", "M", false)]);
    let empty = git_status("");
    assert!(empty.staged.is_empty() && empty.unstaged.is_empty());
}

#[test]
fn git_status_counts_bytes_not_characters() {
    // three characters, four bytes: the path starts at the third byte
    let r = git_status("aéb\n");
    assert_eq!(status(&r.staged), vec![t("b", "a", true)]);
    assert_eq!(status(&r.unstaged), vec![t("b", "é", false)]);
    // the third byte ends inside a character: the line says nothing
    let r = git_status("ééx y\n");
    assert!(r.staged.is_empty() && r.unstaged.is_empty());
    let r = git_status("Méé x\n");
    assert_eq!(status(&r.staged), vec![t("é x", "M", true)]);
    // paths keep their own characters
    let r = git_status("M  dé jà.txt  \n");
    assert_eq!(status(&r.staged), vec![t("dé jà.txt", "M", true)]);
}

#[test]
fn git_branch_is_trimmed() {
    assert_eq!(git_branch("main\n"), "main");
    assert_eq!(git_branch("  feature/x \r\n"), "feature/x");
    assert_eq!(git_branch(""), "");
}

#[test]
fn devices_are_read_after_the_heading() {
    let output = "List of devices attached\nHT75B0200000 device product:marlin model:Pixel_XL device:marlin transport_id:1\nemulator-5554\toffline\n\n";
    let devices = get_devices(output);
    assert_eq!(devices.len(), 2);
    assert_eq!(devices[0].id, "HT75B0200000");
    assert_eq!(devices[0].model, "Pixel_XL");
    assert_eq!(devices[0].manufacturer, "marlin");
    assert_eq!(devices[0].platform, "android");
    assert_eq!(devices[1].id, "emulator-5554");
    assert_eq!(devices[1].model, "Unknown");
    assert_eq!(devices[1].manufacturer, "Unknown");
}

#[test]
fn devices_skip_headings_and_short_lines() {
    assert!(get_devices("").is_empty());
    assert!(get_devices("List of devices attached\n").is_empty());
    assert!(get_devices("first line is always skipped device\n").is_empty());
    let devices = get_devices("* daemon started\nList of devices attached\nalone\nMyList1 device\nabc device model:A model:B product:model:C\n");
    assert_eq!(devices.len(), 1);
    assert_eq!(devices[0].id, "abc");
    // the last word with the tag decides, and the tag is taken out wherever it stands
    assert_eq!(devices[0].model, "B");
    assert_eq!(devices[0].manufacturer, "model:C");
    let devices = get_devices("heading\nid device model:model:model:X product:a:product:b\n");
    assert_eq!(devices[0].model, "X");
    assert_eq!(devices[0].manufacturer, "a:b");
}

fn dir(bun: bool, pnpm: bool, yarn: bool, npm: bool, package: bool, workspace: bool) -> DirFacts {
    DirFacts {
        bun_lock: bun,
        pnpm_lock: pnpm,
        yarn_lock: yarn,
        npm_lock: npm,
        package_json: package,
        pnpm_workspace: workspace,
    }
}

#[test]
fn package_manager_by_lock_file() {
    assert_eq!(detect_package_manager(&vec![dir(true, true, true, true, true, false)]), "bun");
    assert_eq!(detect_package_manager(&vec![dir(false, true, true, true, true, false)]), "pnpm");
    assert_eq!(detect_package_manager(&vec![dir(false, false, true, true, true, false)]), "yarn");
    assert_eq!(detect_package_manager(&vec![dir(false, false, false, true, false, false)]), "npm");
    assert_eq!(detect_package_manager(&vec![dir(false, false, false, false, true, false)]), "npm");
    assert_eq!(detect_package_manager(&vec![dir(false, false, false, false, false, true)]), "unknown");
    assert_eq!(detect_package_manager(&vec![]), "unknown");
}

#[test]
fn package_manager_is_looked_for_upwards() {
    let none = dir(false, false, false, false, false, false);
    let package = dir(false, false, false, false, true, false);
    let workspace = dir(false, false, false, false, false, true);
    let pnpm = dir(false, true, false, false, true, false);
    let yarn_only = dir(false, false, true, false, false, false);
    assert_eq!(detect_package_manager(&vec![package, workspace, pnpm]), "pnpm");
    assert_eq!(detect_package_manager(&vec![none, pnpm]), "pnpm");
    // a directory without package description stops the way up
    assert_eq!(detect_package_manager(&vec![package, none, pnpm]), "npm");
    assert_eq!(detect_package_manager(&vec![none, none, pnpm]), "unknown");
    assert_eq!(detect_package_manager(&vec![none, yarn_only]), "unknown");
    assert_eq!(find_lock_manager(&vec![package, none, pnpm]), None);
    assert_eq!(find_lock_manager(&vec![package, package, pnpm]), Some("pnpm".to_string()));
}

fn facts() -> ProjectFacts {
    ProjectFacts {
        src_tauri: false,
        tauri_conf: false,
        gen_android: false,
        gen_apple: false,
        next_config_js: false,
        next_config_mjs: false,
        vite_config_ts: false,
        vite_config_js: false,
        package_json: false,
        cargo_toml: false,
        node_modules: false,
    }
}

#[test]
fn project_type_by_first_mark() {
    let none = dir(false, false, false, false, false, false);
    let kind = |f: ProjectFacts| detect_project_info(&vec![none], f).project_type;
    assert_eq!(kind(facts()), "unknown");
    assert_eq!(kind(ProjectFacts { cargo_toml: true, ..facts() }), "rust");
    assert_eq!(kind(ProjectFacts { cargo_toml: true, package_json: true, ..facts() }), "node");
    assert_eq!(kind(ProjectFacts { vite_config_js: true, package_json: true, ..facts() }), "vite");
    assert_eq!(kind(ProjectFacts { vite_config_ts: true, ..facts() }), "vite");
    assert_eq!(kind(ProjectFacts { next_config_mjs: true, vite_config_ts: true, ..facts() }), "nextjs");
    assert_eq!(kind(ProjectFacts { next_config_js: true, ..facts() }), "nextjs");
    assert_eq!(kind(ProjectFacts { tauri_conf: true, next_config_js: true, ..facts() }), "tauri");
    assert_eq!(kind(ProjectFacts { src_tauri: true, ..facts() }), "tauri");
}

#[test]
fn project_info_reports_what_was_found() {
    let none = dir(false, false, false, false, false, false);
    let info = detect_project_info(
        &vec![none],
        ProjectFacts { src_tauri: true, gen_android: true, node_modules: true, ..facts() },
    );
    assert_eq!(info.package_manager, "npm");
    assert!(info.has_tauri && info.has_android && info.has_node_modules && !info.has_ios);
    let info = detect_project_info(
        &vec![none, dir(true, false, false, false, true, false)],
        ProjectFacts { gen_apple: true, ..facts() },
    );
    assert_eq!(info.package_manager, "bun");
    assert!(!info.has_tauri && info.has_ios);
}

const GRADLE: &str = "android {\n    defaultConfig {\n        applicationId = \"com.example.app\"\n        versionCode = 41\n        versionName = \"1.4.9\"\n    }\n}\n";

#[test]
fn android_version_is_read() {
    let version = read_android_version(GRADLE);
    assert_eq!(version.version_code, 41);
    assert_eq!(version.version_name, "1.4.9");
}

#[test]
fn android_version_defaults() {
    let version = read_android_version("nothing here\n");
    assert_eq!(version.version_code, 1);
    assert_eq!(version.version_name, "1.0.0");
    let version = read_android_version("versionCode = many\nversionName = plain\n");
    assert_eq!(version.version_code, 1);
    assert_eq!(version.version_name, "plain");
    let version = read_android_version("versionCode 7\nversionCode=8\nversionCode = 9 = 10\nversionName=\"\"2\"\"\n");
    assert_eq!(version.version_code, 9);
    assert_eq!(version.version_name, "2");
}

#[test]
fn android_version_is_raised() {
    let (content, version) = update_android_version(GRADLE);
    assert_eq!(version.version_code, 42);
    assert_eq!(version.version_name, "1.4.10");
    assert_eq!(
        content,
        "android {\n    defaultConfig {\n        applicationId = \"com.example.app\"\n        versionCode = 42\n        versionName = \"1.4.10\"\n    }\n}\n"
    );
}

#[test]
fn android_version_raise_edge_cases() {
    let (content, version) = update_android_version("a\r\nversionCode = x\nversionName = \"2.0\"\nversionCode\nlast");
    assert_eq!(
        content,
        "a\n        versionCode = 2\n        versionName = \"2.0\"\nversionCode\nlast\n"
    );
    assert_eq!(version.version_code, 2);
    assert_eq!(version.version_name, "2.0");
    let (content, version) = update_android_version("versionName = \"1.2.beta\"\nversionCode = -3\n");
    assert_eq!(content, "        versionName = \"1.2.1\"\n        versionCode = -2\n");
    assert_eq!(version.version_code, -2);
    assert_eq!(version.version_name, "1.2.1");
    let (content, version) = update_android_version("");
    assert_eq!(content, "");
    assert_eq!(version.version_code, 1);
    assert_eq!(version.version_name, "1.0.0");
}

#[test]
fn bump_wraps_at_the_largest_number() {
    assert_eq!(bump(0), 1);
    assert_eq!(bump(-1), 0);
    assert_eq!(bump(i32::MAX), i32::MIN);
    assert_eq!(bump_name(&"1.2.3".chars().collect()), "1.2.4");
    assert_eq!(bump_name(&"1.2".chars().collect()), "1.2");
    assert_eq!(bump_name(&"1.2.3.4".chars().collect()), "1.2.3.4");
    assert_eq!(bump_name(&"a..".chars().collect()), "a..1");
    assert_eq!(bump_name(&"1.2.-7".chars().collect()), "1.2.-6");
}

#[test]
fn artifacts_are_recognised_by_extension() {
    let apk = artifact_of("/out/app-release.apk", "app-release.apk", "APK").unwrap();
    assert_eq!(apk.path, "/out/app-release.apk");
    assert_eq!(apk.name, "app-release.apk");
    assert_eq!(apk.extension, "apk");
    assert_eq!(apk.artifact_type, "apk");
    assert_eq!(artifact_of("a.aab", "a.aab", "aab").unwrap().artifact_type, "aab");
    assert!(artifact_of("a.zip", "a.zip", "zip").is_none());
    assert!(artifact_of("a", "a", "").is_none());
    // the Kelvin sign is an upper-case k
    assert!(artifact_of("a.AP\u{212a}", "a", "AP\u{212a}").is_some());
    assert!(artifact_from("a", "a", "APK".to_string()).is_none());
}

#[test]
fn xcode_prefers_the_workspace() {
    assert_eq!(xcode_target(true, true), Some("app.xcworkspace".to_string()));
    assert_eq!(xcode_target(true, false), Some("app.xcworkspace".to_string()));
    assert_eq!(xcode_target(false, true), Some("app.xcodeproj".to_string()));
    assert_eq!(xcode_target(false, false), None);
}

#[test]
fn environment_variables_of_package_managers_are_dropped() {
    for name in [
        "npm_config_registry",
        "NPM_CONFIG_REGISTRY",
        "npm_package_name",
        "npm_lifecycle_event",
        "PNPM_HOME",
        "pnpm_",
        "INIT_CWD",
        "npm_execpath",
        "Npm_ExecPath",
    ] {
        assert!(!keeps_variable(name), "{}", name);
    }
    for name in ["PATH", "HOME", "npm", "npm_config", "NODE_PATH", "pnpm", "init_cwd_", "", "xnpm_config_a"] {
        assert!(keeps_variable(name), "{}", name);
    }
    assert!(keeps_lowered("NPM_CONFIG_X"));
    assert!(!keeps_lowered("npm_config_x"));
}

#[test]
fn command_line_per_platform() {
    let args = vec!["run".to_string(), "dev".to_string()];
    let (program, all) = command_line("pnpm".to_string(), args.clone(), true);
    assert_eq!(program, "cmd");
    assert_eq!(all, vec!["/C", "pnpm", "run", "dev"]);
    let (program, all) = command_line("pnpm".to_string(), args.clone(), false);
    assert_eq!(program, "pnpm");
    assert_eq!(all, args);
    let (program, all) = command_line("dir".to_string(), Vec::new(), true);
    assert_eq!((program.as_str(), all), ("cmd", vec!["/C".to_string(), "dir".to_string()]));
}

#[test]
fn tree_leaves_out_hidden_and_built_entries() {
    for name in [".git", ".env", ".", "node_modules", "target", "dist"] {
        assert!(ignores_entry(name), "{}", name);
    }
    for name in ["src", "build", "Target", "dist2", "a.b", ""] {
        assert!(!ignores_entry(name), "{}", name);
    }
}

#[test]
fn file_nodes() {
    let leaf = file_node(Some("a.txt"), "/p/a.txt", false, Vec::new(), 12);
    assert_eq!((leaf.name.as_str(), leaf.path.as_str(), leaf.is_dir, leaf.size), ("a.txt", "/p/a.txt", false, 12));
    assert!(leaf.children.is_none());
    let root = file_node(None, "/", true, vec![leaf], 4096);
    assert_eq!((root.name.as_str(), root.is_dir, root.size), ("project", true, 0));
    assert_eq!(root.children.unwrap().len(), 1);
}

#[test]
fn icons_directory_candidates() {
    let places = icon_dir_candidates();
    let joined: Vec<String> = places.iter().map(|p| p.join("/")).collect();
    assert_eq!(
        joined,
        vec![
            "src-tauri/icons",
            "src-tauri/icon",
            "tauri/icons",
            "icons",
            "apps/desktop/src-tauri/icons",
            "packages/desktop/src-tauri/icons",
            "app/src-tauri/icons",
        ]
    );
}

fn walked(name: &str, parent: Option<&str>, is_dir: bool) -> WalkedDir {
    WalkedDir { name: name.to_string(), parent_name: parent.map(|p| p.to_string()), is_dir }
}

#[test]
fn icons_directory_is_chosen_in_order() {
    let seen = vec![
        walked("src", Some("app"), true),
        walked("icons", Some("assets"), true),
        walked("icons", Some("src-tauri"), false),
        walked("icons", Some("tauri"), true),
        walked("icons", Some("src-tauri"), true),
    ];
    assert!(!icons_dir(&seen[1]) && !icons_dir(&seen[2]) && icons_dir(&seen[3]));
    assert!(!icons_dir(&walked("icons", None, true)));
    assert_eq!(
        find_icons_dir(&vec![false, true, false, true, false, false, false], &seen),
        Some(IconsDir::Conventional(1))
    );
    assert_eq!(find_icons_dir(&vec![false; 7], &seen), Some(IconsDir::Walked(3)));
    assert_eq!(find_icons_dir(&vec![false; 7], &seen[..3].iter().map(|w| walked(&w.name, w.parent_name.as_deref(), w.is_dir)).collect()), None);
    assert_eq!(find_icons_dir(&Vec::new(), &Vec::new()), None);
    assert!(get_assets().is_empty());
}

#[test]
fn config_files_are_named_by_key() {
    assert_eq!(config_file_name("settings"), "settings.json");
    assert_eq!(config_file_name(""), ".json");
}

#[test]
fn version_line_is_the_first_line_said() {
    assert_eq!(get_version("v20.11.0\n", ""), Some("v20.11.0".to_string()));
    assert_eq!(get_version("\n\n  git version 2.43.0\nmore\n", "warn"), Some("git version 2.43.0".to_string()));
    assert_eq!(get_version("  \n", "openjdk version \"17.0.9\"\nOpenJDK Runtime\n"), Some("openjdk version \"17.0.9\"".to_string()));
    assert_eq!(get_version("", ""), None);
    assert_eq!(get_version(" \n", "\t"), None);
    assert_eq!(first_line("Android Debug Bridge version 1.0.41\nVersion 34\n"), Some("Android Debug Bridge version 1.0.41".to_string()));
    assert_eq!(first_line("  padded  \r\nx"), Some("  padded  ".to_string()));
    assert_eq!(first_line(""), None);
}

fn shown(check: &appforge::models::CheckResult) -> (String, bool, Option<String>, Option<String>) {
    (check.name.clone(), check.status, check.version.clone(), check.message.clone())
}

fn s(text: &str) -> Option<String> {
    Some(text.to_string())
}

#[test]
fn adb_is_reported_by_where_it_was_found() {
    assert_eq!(shown(&adb_check(true, s("1.0.41"), s("sys"))), ("ADB (Internal Bundle)".to_string(), true, s("1.0.41"), None));
    assert_eq!(shown(&adb_check(false, s("1.0.41"), None)), ("ADB (Internal Bundle)".to_string(), true, s("1.0.41"), None));
    assert_eq!(
        shown(&adb_check(true, None, s("sys"))),
        (
            "ADB (Internal Bundle)".to_string(),
            true,
            s("Bundled (dev mode - DLL issue)"),
            s("Binary bundled. Will work in production build.")
        )
    );
    assert_eq!(shown(&adb_check(false, None, s("sys"))), ("ADB (System)".to_string(), true, s("sys"), None));
    assert_eq!(shown(&adb_check(false, None, None)), ("ADB".to_string(), false, None, s("ADB not found")));
}

#[test]
fn single_checks() {
    assert_eq!(shown(&tool_check("Git", s("2.4"), Some("install"))), ("Git".to_string(), true, s("2.4"), None));
    assert_eq!(shown(&tool_check("Git", None, Some("install"))), ("Git".to_string(), false, None, s("install")));
    assert_eq!(shown(&tool_check("Git", None, None)), ("Git".to_string(), false, None, None));
    assert_eq!(shown(&studio_check(true)), ("Android Studio".to_string(), true, s("Installed"), None));
    assert_eq!(
        shown(&studio_check(false)),
        ("Android Studio".to_string(), false, None, s("Install Android Studio for mobile development"))
    );
    assert_eq!(shown(&xcode_check(true, s("Xcode 15"))), ("Xcode".to_string(), true, s("Xcode 15"), None));
    assert_eq!(shown(&xcode_check(true, None)), ("Xcode".to_string(), false, None, s("Required for iOS development")));
    assert_eq!(
        shown(&xcode_check(false, s("ignored"))),
        ("Xcode".to_string(), false, None, s("macOS required for iOS development"))
    );
}

#[test]
fn environment_report_in_order() {
    let report = check_environment(EnvProbes {
        node: s("v20"),
        git: None,
        rust: s("rustc 1.80"),
        cargo: s("cargo 1.80"),
        adb_bundled: false,
        adb_bundled_version: None,
        adb_system_version: None,
        java: None,
        studio_found: false,
        python: s("Python 3.12"),
        on_macos: false,
        xcode: None,
    });
    let names: Vec<&str> = report.iter().map(|c| c.name.as_str()).collect();
    assert_eq!(
        names,
        vec!["Node.js", "Git", "Rust", "Cargo", "ADB", "Java (JDK)", "Android Studio", "Python", "Xcode"]
    );
    let present: Vec<bool> = report.iter().map(|c| c.status).collect();
    assert_eq!(present, vec![true, false, true, true, false, false, false, true, false]);
    assert_eq!(report[1].message, None);
    assert_eq!(report[5].message, s("Install JDK 17+ for Android builds"));
    assert_eq!(report[0].version, s("v20"));
}

#[test]
fn pattern_lists_are_split_at_commas() {
    assert_eq!(split_patterns(&s("*.ts, src/** ,,  ,*.rs")), vec!["*.ts", "src/**", "*.rs"]);
    assert!(split_patterns(&None).is_empty());
    assert!(split_patterns(&s("")).is_empty());
    assert!(split_patterns(&s("  \t ")).is_empty());
    assert_eq!(split_patterns(&s(" , ")), Vec::<String>::new());
    assert_eq!(split_patterns(&s("a b")), vec!["a b"]);
}

#[test]
fn patterns_that_do_not_compile_are_left_out() {
    let patterns = parse_patterns(&s("*.ts, a**b, ***, src/**/*.rs"));
    let texts: Vec<&str> = patterns.iter().map(|p| p.text.as_str()).collect();
    assert_eq!(texts, vec!["*.ts", "src/**/*.rs"]);
    assert!(parse_patterns(&None).is_empty());
}

#[test]
fn files_match_by_name_or_path() {
    let patterns = parse_patterns(&s("*.ts,src/**"));
    assert!(matches_any_pattern("main.ts", "/p/lib/main.ts", &patterns));
    assert!(matches_any_pattern("main.rs", "src/bin/main.rs", &patterns));
    assert!(matches_any_pattern("main.rs", "src\\bin\\main.rs", &patterns));
    assert!(!matches_any_pattern("main.rs", "/p/lib/main.rs", &patterns));
    assert!(!matches_any_pattern("main.ts", "src/main.ts", &Vec::new()));
    assert_eq!(with_slashes("a\\b/c\\\\d"), "a/b/c//d");
}

#[test]
fn any_true_is_a_disjunction() {
    assert!(!any_true(&vec![]));
    assert!(!any_true(&vec![false, false]));
    assert!(any_true(&vec![false, true, false]));
}

#[test]
fn search_skips_what_holds_no_source() {
    for name in ["node_modules", ".git", "target", "dist", "build", ".svelte-kit", ".next", "__pycache__"] {
        assert!(skips_dir(name), "{}", name);
    }
    for name in ["src", "Build", ".github", "", "dist "] {
        assert!(!skips_dir(name), "{}", name);
    }
    for ext in [
        "png", "jpg", "jpeg", "gif", "ico", "icns", "woff", "woff2", "ttf", "eot", "exe", "dll",
        "so", "dylib", "pdf", "zip", "tar", "gz", "webp", "svg", "mp3", "mp4", "wav", "avi",
        "PNG", "Jpg",
    ] {
        assert!(is_binary_extension(ext), "{}", ext);
    }
    for ext in ["rs", "ts", "", "pngx", "md"] {
        assert!(!is_binary_extension(ext), "{}", ext);
    }
    assert!(!is_binary_lowered("PNG"));
}

#[test]
fn wanted_files() {
    assert!(wanted(false, false, false, false));
    assert!(wanted(false, true, true, false));
    assert!(!wanted(false, true, false, false));
    assert!(!wanted(false, false, false, true));
    assert!(!wanted(true, false, false, false));
    assert!(!wanted(true, true, true, false));
    let only = parse_patterns(&s("*.ts"));
    let except = parse_patterns(&s("*.d.ts"));
    assert!(wants_file("a.ts", "src/a.ts", "ts", &only, &except));
    assert!(!wants_file("a.d.ts", "src/a.d.ts", "ts", &only, &except));
    assert!(!wants_file("a.rs", "src/a.rs", "rs", &only, &except));
    assert!(wants_file("a.rs", "src/a.rs", "rs", &Vec::new(), &except));
    assert!(!wants_file("a.png", "src/a.png", "PNG", &Vec::new(), &Vec::new()));
}

fn found(list: &[SearchResult]) -> Vec<(String, usize, String)> {
    list.iter().map(|r| (r.file.clone(), r.line, r.content.clone())).collect()
}

#[test]
fn matching_lines_are_reported_trimmed() {
    let mut results = Vec::new();
    scan_file(&mut results, "a.rs", "fn main() {\n    let x = todo();\n}\n// todo later\r\n", "todo");
    assert_eq!(
        found(&results),
        vec![
            ("a.rs".to_string(), 2, "let x = todo();".to_string()),
            ("a.rs".to_string(), 4, "// todo later".to_string()),
        ]
    );
    scan_file(&mut results, "b.rs", "none\n", "todo");
    assert_eq!(results.len(), 2);
    scan_file(&mut results, "c.rs", "x\ny", "");
    assert_eq!(results.len(), 4);
    assert!(!limit_reached(&results));
}

#[test]
fn a_search_ends_with_the_two_hundredth_result() {
    let content = "hit\n".repeat(150);
    let mut results = Vec::new();
    scan_file(&mut results, "a", &content, "hit");
    assert_eq!(results.len(), 150);
    assert!(!limit_reached(&results));
    scan_file(&mut results, "b", &content, "hit");
    assert_eq!(results.len(), 200);
    assert!(limit_reached(&results));
    assert_eq!(results[199].file, "b");
    assert_eq!(results[199].line, 50);
    // a scan that starts at the limit still reports its first line
    scan_file(&mut results, "c", "miss\nhit\nhit\n", "hit");
    assert_eq!(results.len(), 201);
    assert_eq!(results[200].line, 2);
}

#[test]
fn packages_are_picked_in_order() {
    let found = |path: &str, ext: Option<&str>| FoundFile {
        path: path.to_string(),
        name: path.rsplit('/').next().unwrap().to_string(),
        extension: ext.map(|e| e.to_string()),
    };
    let files = vec![
        found("out/apk/release/app.apk", Some("apk")),
        found("out/logs/build.log", Some("log")),
        found("out/bundle/app.AAB", Some("AAB")),
        found("out/README", None),
        found("out/apk/debug/app-debug.Apk", Some("Apk")),
    ];
    let artifacts = find_android_artifacts(&files);
    let shown: Vec<(&str, &str, &str, &str)> = artifacts
        .iter()
        .map(|a| (a.path.as_str(), a.name.as_str(), a.extension.as_str(), a.artifact_type.as_str()))
        .collect();
    assert_eq!(
        shown,
        vec![
            ("out/apk/release/app.apk", "app.apk", "apk", "apk"),
            ("out/bundle/app.AAB", "app.AAB", "aab", "aab"),
            ("out/apk/debug/app-debug.Apk", "app-debug.Apk", "apk", "apk"),
        ]
    );
    assert!(find_android_artifacts(&Vec::new()).is_empty());
}

#[test]
fn files_are_searched_in_order_up_to_the_limit() {
    let text = |path: &str, content: Option<&str>| TextFile {
        path: path.to_string(),
        content: content.map(|c| c.to_string()),
    };
    let files = vec![
        text("a.rs", Some("one\nneedle here\n")),
        text("b.bin", None),
        text("c.rs", Some("  needle  \nno\nneedle")),
    ];
    let results = search_in_files("needle", &files);
    assert_eq!(
        found(&results),
        vec![
            ("a.rs".to_string(), 2, "needle here".to_string()),
            ("c.rs".to_string(), 1, "needle".to_string()),
            ("c.rs".to_string(), 3, "needle".to_string()),
        ]
    );
    let many = "x\n".repeat(120);
    let files = vec![
        text("1", Some(&many)),
        text("2", Some(&many)),
        text("3", Some(&many)),
    ];
    let results = search_in_files("x", &files);
    assert_eq!(results.len(), 200);
    assert_eq!(results[199].file, "2");
    assert_eq!(results[199].line, 80);
    assert!(search_in_files("x", &Vec::new()).is_empty());
}

#[test]
fn patterns_without_bracket_or_double_star_always_compile() {
    let list = "*.ts, a?b ,plain.txt,*,a*b*c, src/*, ]x, !y, d\\e, é*";
    let patterns = parse_patterns(&s(list));
    let texts: Vec<&str> = patterns.iter().map(|p| p.text.as_str()).collect();
    assert_eq!(
        texts,
        vec!["*.ts", "a?b", "plain.txt", "*", "a*b*c", "src/*", "]x", "!y", "d\\e", "é*"]
    );
    for p in &patterns {
        assert_eq!(p.compiled.as_str(), p.text);
    }
    // the order of the list is kept around what is left out
    let patterns = parse_patterns(&s("x, [, y, a***, z"));
    let texts: Vec<&str> = patterns.iter().map(|p| p.text.as_str()).collect();
    assert_eq!(texts, vec!["x", "y", "z"]);
}

#[test]
fn without_patterns_every_text_file_is_wanted() {
    let none = Vec::new();
    let other = Vec::new();
    assert!(wants_file("a.rs", "src/a.rs", "rs", &none, &other));
    assert!(wants_file("Makefile", "Makefile", "", &none, &other));
    assert!(!wants_file("a.png", "src/a.png", "png", &none, &other));
    assert!(!wants_file("a.ICO", "src/a.ICO", "ICO", &none, &other));
}
