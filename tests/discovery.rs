use appwaffle::discovery::{
    applications_dirs_for, discover_apps_and_folders, get_apps_in_dir, sort_paths_by_name,
    ScannedEntry,
};
use appwaffle::paths::{
    folder_name, join_path, path_file_name, path_file_stem, path_is_absolute, path_is_bundle,
    path_within_dir,
};

fn s(v: &str) -> String {
    v.to_string()
}

fn bundle(path: &str) -> ScannedEntry {
    ScannedEntry { path: s(path), is_dir: true, children: Vec::new() }
}

fn dir(path: &str, children: &[&str]) -> ScannedEntry {
    ScannedEntry { path: s(path), is_dir: true, children: children.iter().map(|c| s(c)).collect() }
}

#[test]
fn stems_names_and_extensions() {
    assert_eq!(path_file_stem("/Applications/Safari.app"), "Safari");
    assert_eq!(path_file_name("/Applications/Safari.app"), "Safari.app");
    assert_eq!(path_file_stem("/Applications/archive.tar.gz"), "archive.tar");
    assert_eq!(path_file_stem("/Applications/.app"), ".app");
    assert_eq!(path_file_stem("Notes"), "Notes");
    assert!(path_is_bundle("/Applications/Safari.app"));
    assert!(!path_is_bundle("/Applications/.app"));
    assert!(!path_is_bundle("/Applications/Safari.apps"));
    assert!(!path_is_bundle("/Applications/Safari.APP"));
    assert!(!path_is_bundle("/Applications/Utilities"));
    assert!(path_is_absolute("/Applications"));
    assert!(!path_is_absolute("Applications/A.app"));
}

#[test]
fn joining_and_containment() {
    assert_eq!(join_path("/home/u", "Applications"), "/home/u/Applications");
    assert_eq!(join_path("/home/u/", "Applications"), "/home/u/Applications");
    assert_eq!(join_path("", "Applications"), "Applications");
    assert!(path_within_dir("/Applications/A.app", "/Applications"));
    assert!(path_within_dir("/Applications", "/Applications"));
    assert!(!path_within_dir("/Applications2/A.app", "/Applications"));
    assert!(!path_within_dir("/App", "/Applications"));
    assert!(path_within_dir("/Applications/A.app", "/"));
    assert!(!path_within_dir("/Applications/A.app", ""));
}

#[test]
fn localized_marker_is_stripped() {
    assert_eq!(folder_name("/Applications/Utilities.localized"), "Utilities");
    assert_eq!(folder_name("/Applications/Utils"), "Utils");
    assert_eq!(folder_name("/Applications/.localized"), "");
    assert_eq!(folder_name("/Applications/localized"), "localized");
}

#[test]
fn install_roots() {
    assert_eq!(
        applications_dirs_for(Some(s("/home/u"))),
        vec![s("/Applications"), s("/System/Applications"), s("/home/u/Applications")]
    );
    assert_eq!(applications_dirs_for(None), vec![s("/Applications"), s("/System/Applications")]);
}

#[test]
fn paths_sort_by_stem_ignoring_case() {
    let sorted = sort_paths_by_name(vec![
        s("/Applications/zeta.app"),
        s("/Applications/Alpha.app"),
        s("/Users/u/Applications/beta.app"),
    ]);
    assert_eq!(
        sorted,
        vec![
            s("/Applications/Alpha.app"),
            s("/Users/u/Applications/beta.app"),
            s("/Applications/zeta.app")
        ]
    );
    assert!(sort_paths_by_name(Vec::new()).is_empty());
}

#[test]
fn apps_in_dir_are_filtered_and_sorted() {
    let found = get_apps_in_dir(&vec![
        s("/Applications/Utils/Zed.app"),
        s("/Applications/Utils/readme.txt"),
        s("/Applications/Utils/alpha.app"),
    ]);
    assert_eq!(found, vec![s("/Applications/Utils/alpha.app"), s("/Applications/Utils/Zed.app")]);
}

#[test]
fn two_or_more_bundles_form_one_folder() {
    let entries = vec![dir(
        "/Applications/Tools",
        &["/Applications/Tools/c.app", "/Applications/Tools/B.app", "/Applications/Tools/a.app"],
    )];
    let d = discover_apps_and_folders(&entries);
    assert!(d.apps.is_empty());
    assert_eq!(d.folders.len(), 1);
    assert_eq!(d.folders[0].path, "/Applications/Tools");
    assert_eq!(
        d.folders[0].apps,
        vec![
            s("/Applications/Tools/a.app"),
            s("/Applications/Tools/B.app"),
            s("/Applications/Tools/c.app")
        ]
    );
}

#[test]
fn single_bundle_is_promoted() {
    let entries = vec![
        bundle("/Applications/Mail.app"),
        dir("/Applications/Tools", &["/Applications/Tools/Only.app", "/Applications/Tools/notes.txt"]),
    ];
    let d = discover_apps_and_folders(&entries);
    assert!(d.folders.is_empty());
    assert_eq!(d.apps, vec![s("/Applications/Mail.app"), s("/Applications/Tools/Only.app")]);
}

#[test]
fn directory_without_bundles_adds_nothing() {
    let entries = vec![
        dir("/Applications/Empty", &[]),
        dir("/Applications/Docs", &["/Applications/Docs/notes.txt"]),
    ];
    let d = discover_apps_and_folders(&entries);
    assert!(d.apps.is_empty());
    assert!(d.folders.is_empty());
}

#[test]
fn plain_files_are_ignored() {
    let entries = vec![
        ScannedEntry { path: s("/Applications/notes.txt"), is_dir: false, children: Vec::new() },
        bundle("/Applications/B.app"),
    ];
    let d = discover_apps_and_folders(&entries);
    assert_eq!(d.apps, vec![s("/Applications/B.app")]);
    assert!(d.folders.is_empty());
}

#[test]
fn folders_sort_by_name_ignoring_case() {
    let entries = vec![
        dir("/Applications/zeta", &["/Applications/zeta/x.app", "/Applications/zeta/y.app"]),
        dir("/Applications/Alpha", &["/Applications/Alpha/x.app", "/Applications/Alpha/y.app"]),
        dir("/Users/u/Applications/beta", &[
            "/Users/u/Applications/beta/x.app",
            "/Users/u/Applications/beta/y.app",
        ]),
    ];
    let d = discover_apps_and_folders(&entries);
    let paths: Vec<&str> = d.folders.iter().map(|f| f.path.as_str()).collect();
    assert_eq!(paths, vec!["/Applications/Alpha", "/Users/u/Applications/beta", "/Applications/zeta"]);
}
