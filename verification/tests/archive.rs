use sps2::archive::{
    archive_format, extraction_target, plan_extraction, should_strip_components, ArchiveEntry,
    ArchiveFormat,
};
use sps2::paths::{join_path, strip_suffix, text_after_last};

fn entry(path: &str, is_dir: bool) -> ArchiveEntry {
    ArchiveEntry {
        components: path.split('/').filter(|c| !c.is_empty()).map(String::from).collect(),
        is_dir,
    }
}

fn planned(entries: &[ArchiveEntry]) -> Vec<Option<String>> {
    plan_extraction(&entries.to_vec()).into_iter().map(|p| p.map(|c| c.join("/"))).collect()
}

#[test]
fn formats_by_ending() {
    assert_eq!(archive_format("zlib-1.3.tar.gz"), Some(ArchiveFormat::TarGz));
    assert_eq!(archive_format("zlib-1.3.tgz"), Some(ArchiveFormat::TarGz));
    assert_eq!(archive_format("/work/x.tar.bz2"), Some(ArchiveFormat::TarBz2));
    assert_eq!(archive_format("x.tar.xz"), Some(ArchiveFormat::TarXz));
    assert_eq!(archive_format("x.zip"), Some(ArchiveFormat::Zip));
    assert_eq!(archive_format("x.gz"), None);
    assert_eq!(archive_format("x.tar"), None);
    assert_eq!(archive_format("patch.diff"), None);
    assert_eq!(archive_format(""), None);
}

#[test]
fn single_root_is_stripped() {
    let entries = vec![
        entry("pkg-1.0/", true),
        entry("pkg-1.0/configure", false),
        entry("pkg-1.0/src/", true),
        entry("pkg-1.0/src/main.c", false),
    ];
    assert!(should_strip_components(&entries));
    assert_eq!(
        planned(&entries),
        vec![
            None,
            Some("configure".to_string()),
            Some("src".to_string()),
            Some("src/main.c".to_string()),
        ]
    );
}

#[test]
fn archive_without_single_root_is_unchanged() {
    let two_roots =
        vec![entry("a/", true), entry("a/x", false), entry("b/", true), entry("b/y", false)];
    let top_file = vec![entry("a/", true), entry("a/x", false), entry("README", false)];
    let second_root_unlisted = vec![entry("a/", true), entry("a/x", false), entry("b/y", false)];
    let both_roots_unlisted = vec![entry("a/x", false), entry("b/y", false)];
    let empty: Vec<ArchiveEntry> = vec![];
    for entries in [two_roots, top_file, second_root_unlisted, both_roots_unlisted, empty] {
        assert!(!should_strip_components(&entries));
        let expected: Vec<Option<String>> =
            entries.iter().map(|e| Some(e.components.join("/"))).collect();
        assert_eq!(planned(&entries), expected);
    }
}

#[test]
fn repeated_root_entry_still_counts_as_one() {
    let entries = vec![entry("a/", true), entry("a/", true), entry("a/x", false)];
    assert!(should_strip_components(&entries));
}

#[test]
fn target_of_one_entry() {
    let e = entry("root/dir/file", false);
    assert_eq!(extraction_target(&e, true), Some(vec!["dir".to_string(), "file".to_string()]));
    assert_eq!(
        extraction_target(&e, false),
        Some(vec!["root".to_string(), "dir".to_string(), "file".to_string()])
    );
    assert_eq!(extraction_target(&entry("root", true), true), None);
    assert_eq!(extraction_target(&entry("", false), true), None);
    assert_eq!(extraction_target(&entry("", false), false), Some(vec![]));
}

#[test]
fn path_helpers() {
    assert_eq!(join_path("/work", "file.tar.gz"), "/work/file.tar.gz");
    assert_eq!(join_path("/work/", "file"), "/work/file");
    assert_eq!(join_path("", "file"), "file");
    assert_eq!(join_path("/work", "/abs/file"), "/abs/file");
    assert_eq!(join_path("/work", ""), "/work/");
    assert_eq!(text_after_last("https://host/dir/file.tgz", '/'), "file.tgz");
    assert_eq!(text_after_last("plain", '/'), "plain");
    assert_eq!(text_after_last("ends/", '/'), "");
    assert_eq!(text_after_last("", '/'), "");
    assert_eq!(strip_suffix("repo.git", ".git"), "repo");
    assert_eq!(strip_suffix("repo", ".git"), "repo");
    assert_eq!(strip_suffix(".git", ".git"), "");
}

#[test]
fn a_root_known_only_from_the_paths_below_it_is_stripped() {
    let only_file = vec![entry("d/x", false)];
    assert!(should_strip_components(&only_file));
    assert_eq!(planned(&only_file), vec![Some("x".to_string())]);
    let unlisted = vec![entry("d/x", false), entry("d/sub/y", false)];
    assert!(should_strip_components(&unlisted));
    assert_eq!(planned(&unlisted), vec![Some("x".to_string()), Some("sub/y".to_string())]);
    let listed_late = vec![entry("d/x", false), entry("d/", true)];
    assert!(should_strip_components(&listed_late));
    assert_eq!(planned(&listed_late), vec![Some("x".to_string()), None]);
}

#[test]
fn entries_without_components_do_not_count() {
    let entries = vec![entry("", true), entry("d/", true), entry("d/x", false)];
    assert!(should_strip_components(&entries));
    assert!(!should_strip_components(&vec![entry("", true)]));
    assert!(!should_strip_components(&vec![entry("d/", true), entry("e/", true)]));
    assert!(should_strip_components(&vec![entry("d/", true)]));
}
