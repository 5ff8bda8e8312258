use buzz_daemon::package::{
    hash_package_files, inspect_package_tree, is_executable, join_with_slash,
    validate_relative_support_path, PackageContent, PathPart, ScanEntry, ScanKind,
};
use buzz_daemon::types::{DaemonActivationMode, DaemonFrontmatter};
use buzz_daemon::validation::{
    build_daemon_policy, split_daemon_md, trim_list, validate_daemon_id, validate_nonempty_list,
    yaml_frontmatter_error,
};
use sha2::Digest;

fn strings(v: &[&str]) -> Vec<String> {
    v.iter().map(|s| s.to_string()).collect()
}

fn fm(id: &str, watch: &[&str], schedule: Option<&str>) -> DaemonFrontmatter {
    DaemonFrontmatter {
        id: id.into(),
        purpose: " Keep a bounded test state healthy. ".into(),
        watch: strings(watch),
        routines: strings(&["Inspect one bounded state."]),
        deny: strings(&["Never expose secrets."]),
        schedule: schedule.map(|s| s.to_string()),
    }
}

#[test]
fn policies_take_their_activation_mode_from_their_wake_sources() {
    let watch = build_daemon_policy(fm("watcher", &["A pull request changes."], None), "# Policy", Some("watcher")).unwrap();
    assert_eq!(watch.activation_mode, DaemonActivationMode::WatchOnly);
    assert_eq!(watch.purpose, "Keep a bounded test state healthy.");
    let schedule = build_daemon_policy(fm("scheduled", &[], Some("0 9 * * 1")), "# Policy", Some("scheduled")).unwrap();
    assert_eq!(schedule.activation_mode, DaemonActivationMode::ScheduleOnly);
    let hybrid = build_daemon_policy(fm("hybrid", &["A Linear issue changes."], Some(" */15 * * * * ")), "# Policy", None).unwrap();
    assert_eq!(hybrid.activation_mode, DaemonActivationMode::Hybrid);
    assert_eq!(hybrid.schedule.as_deref(), Some("*/15 * * * *"));
}

#[test]
fn policies_refuse_missing_wake_source_bad_cron_and_id_mismatch() {
    assert!(build_daemon_policy(fm("bad", &[], None), "# Policy", Some("bad")).unwrap_err().contains("wake source"));
    assert!(build_daemon_policy(fm("bad", &[""], None), "# Policy", Some("bad")).is_err());
    assert!(build_daemon_policy(fm("bad", &[], Some("0 1 * *")), "# Policy", Some("bad")).unwrap_err().contains("exactly five"));
    assert!(build_daemon_policy(fm("bad", &[], Some("0 1 * * * extra")), "# Policy", Some("bad")).unwrap_err().contains("exactly five"));
    assert!(build_daemon_policy(fm("actual", &["A change occurs."], None), "# Policy", Some("expected")).unwrap_err().contains("match its directory"));
    assert!(build_daemon_policy(fm("ok", &["w"], None), " \n", None).unwrap_err().contains("body must be non-empty"));
    let error = yaml_frontmatter_error("found character that cannot start any token");
    assert!(error.contains("invalid DAEMON.md frontmatter"));
    assert!(error.contains("YAML-reserved syntax"));
    assert!(error.contains("schedule: \"*/2 * * * *\""));
}

#[test]
fn daemon_ids_and_lists_are_checked() {
    assert!(validate_daemon_id("safe-1").is_ok());
    for bad in ["", "-a", "a-", "A", "a_b", &"a".repeat(65)] {
        assert!(validate_daemon_id(bad).is_err(), "{bad}");
    }
    assert!(validate_daemon_id(&"a".repeat(64)).is_ok());
    assert_eq!(
        validate_nonempty_list("routines", &Vec::new(), true).unwrap_err(),
        "DAEMON.md routines must contain at least one entry"
    );
    assert_eq!(
        validate_nonempty_list("watch", &strings(&["x", " "]), false).unwrap_err(),
        "DAEMON.md watch entries must be non-empty"
    );
    assert_eq!(trim_list(strings(&[" a ", "b\n"])), strings(&["a", "b"]));
}

#[test]
fn daemon_md_splits_on_its_delimiters() {
    let parts = split_daemon_md("---\r\nid: x\r\n---\r\n# Body\r").unwrap();
    assert_eq!(parts.frontmatter, "id: x");
    assert_eq!(parts.body, "# Body\n");
    assert_eq!(split_daemon_md("id: x").unwrap_err(), "DAEMON.md must start with YAML frontmatter");
    assert_eq!(
        split_daemon_md("---\nid: x\n--\n").unwrap_err(),
        "DAEMON.md frontmatter is missing its closing delimiter"
    );
    assert_eq!(split_daemon_md(&"x".repeat(256 * 1024 + 1)).unwrap_err(), "DAEMON.md exceeds 256 KiB");
}

#[test]
fn crlf_daemon_md_splits_like_lf() {
    for lf in [
        "---\nid: x\nschedule: \"0 * * * *\"\n---\n# Body\n\nline\n",
        "---\nid: x\n--\n",
        "id: x\n",
    ] {
        let crlf = lf.replace('\n', "\r\n");
        assert!(lf.len() <= crlf.len());
        assert_eq!(split_daemon_md(&crlf), split_daemon_md(lf));
        assert_eq!(
            buzz_daemon::direct::split_daemon_policy(&crlf),
            buzz_daemon::direct::split_daemon_policy(lf)
        );
    }
}

#[test]
fn crlf_daemon_md_at_the_size_limit_splits_like_lf() {
    let head = "---\nid: x\n---\n";
    let filler = 256 * 1024 - head.replace('\n', "\r\n").len();
    let lf = format!("{head}{}", "x".repeat(filler));
    let crlf = lf.replace('\n', "\r\n");
    assert_eq!(crlf.len(), 256 * 1024);
    let parts = split_daemon_md(&crlf).unwrap();
    assert_eq!(split_daemon_md(&lf).unwrap(), parts);
    assert_eq!(parts.frontmatter, "id: x");
}

fn entry(parent: &[&str], name: &str, kind: ScanKind) -> ScanEntry {
    ScanEntry { parent: strings(parent), name: Some(name.into()), kind, path_display: format!("/pkg/{name}") }
}

#[test]
fn package_tree_lists_files_sorted_and_refuses_bad_entries() {
    let entries = vec![
        entry(&[], "scripts", ScanKind::Directory),
        entry(&["scripts"], "lint.sh", ScanKind::File(17)),
        entry(&[], "DAEMON.md", ScanKind::File(100)),
        entry(&[], "references", ScanKind::Directory),
        entry(&["references"], "policy.md", ScanKind::File(7)),
    ];
    let files = inspect_package_tree(&entries).unwrap();
    let slashes: Vec<&str> = files.iter().map(|f| f.slash.as_str()).collect();
    assert_eq!(slashes, vec!["DAEMON.md", "references/policy.md", "scripts/lint.sh"]);
    assert_eq!(files[2].parts, strings(&["scripts", "lint.sh"]));

    let link = vec![entry(&[], "scripts", ScanKind::Directory), entry(&["scripts"], "link", ScanKind::Symlink)];
    assert!(inspect_package_tree(&link).unwrap_err().contains("symlinks"));
    let unexpected = vec![entry(&[], "unexpected.txt", ScanKind::File(1))];
    assert!(inspect_package_tree(&unexpected).unwrap_err().contains("unexpected"));
    let huge = vec![entry(&[], "scripts", ScanKind::Directory), entry(&["scripts"], "huge", ScanKind::File(1024 * 1024 + 1))];
    assert!(inspect_package_tree(&huge).unwrap_err().contains("exceeds 1 MiB"));
    let mut many = vec![entry(&[], "scripts", ScanKind::Directory)];
    for i in 0..257 {
        many.push(entry(&["scripts"], &format!("f{i}"), ScanKind::File(1)));
    }
    assert!(inspect_package_tree(&many).unwrap_err().contains("files"));
    let mut deep = vec![entry(&[], "scripts", ScanKind::Directory)];
    let mut parent = vec!["scripts"];
    for _ in 0..8 {
        deep.push(entry(&parent, "d", ScanKind::Directory));
        parent.push("d");
    }
    assert!(inspect_package_tree(&deep).unwrap_err().contains("depth"));
    let unnamed = vec![ScanEntry { parent: Vec::new(), name: None, kind: ScanKind::File(1), path_display: "?".into() }];
    assert_eq!(inspect_package_tree(&unnamed).unwrap_err(), "daemon package paths must be unambiguous UTF-8");
}

#[test]
fn support_paths_must_be_relative_and_inside_the_root_entries() {
    let ok = vec![PathPart::Normal("scripts".into()), PathPart::Normal("lint.sh".into())];
    assert!(validate_relative_support_path(&ok, "scripts/lint.sh").is_ok());
    let up = vec![PathPart::Normal("scripts".into()), PathPart::ParentDir];
    assert!(validate_relative_support_path(&up, "scripts/..").is_err());
    let abs = vec![PathPart::RootDir, PathPart::Normal("scripts".into())];
    assert!(validate_relative_support_path(&abs, "/scripts").is_err());
    let md = vec![PathPart::Normal("DAEMON.md".into())];
    assert!(validate_relative_support_path(&md, "DAEMON.md").is_err());
    assert_eq!(join_with_slash(&strings(&["scripts", "lint.sh"])), "scripts/lint.sh");
    assert!(is_executable(0o755));
    assert!(is_executable(0o100));
    assert!(!is_executable(0o644));
}

#[test]
fn package_hash_frames_each_path_and_content() {
    let files = vec![
        PackageContent { slash: "DAEMON.md".into(), bytes: b"md".to_vec() },
        PackageContent { slash: "scripts/a".into(), bytes: b"x".to_vec() },
    ];
    let mut input = Vec::new();
    for f in &files {
        input.extend_from_slice(&(f.slash.len() as u64).to_be_bytes());
        input.extend_from_slice(f.slash.as_bytes());
        input.extend_from_slice(&(f.bytes.len() as u64).to_be_bytes());
        input.extend_from_slice(&f.bytes);
    }
    let expected = hex::encode(sha2::Sha256::digest(&input));
    assert_eq!(hash_package_files(&files), expected);
    let changed = vec![
        PackageContent { slash: "DAEMON.md".into(), bytes: b"md".to_vec() },
        PackageContent { slash: "scripts/a".into(), bytes: b"y".to_vec() },
    ];
    assert_ne!(hash_package_files(&changed), expected);
}
