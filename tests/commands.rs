use appwaffle::commands::{
    app_info, build_listing, check_launch_path, get_app_icon, listing_paths, next_icon_action,
    IconAction, IconEvent,
};
use appwaffle::discovery::{discover_apps_and_folders, ScannedEntry};
use appwaffle::icon_cache::{get_icon_filename, get_icon_if_cached, CacheProbe};
use appwaffle::model::AppError;

fn s(v: &str) -> String {
    v.to_string()
}

fn missing() -> CacheProbe {
    CacheProbe { icon_modified: None, app_modified: Some(10) }
}

const DIR: &str = "/cache/icons";

#[test]
fn launch_outside_allowed_roots_is_refused() {
    let allowed = vec![s("/Applications"), s("/System/Applications"), s("/Users/u/Applications")];
    assert_eq!(check_launch_path("/Applications/Safari.app", &allowed), Ok(()));
    assert_eq!(check_launch_path("/Users/u/Applications/Tools/X.app", &allowed), Ok(()));
    // "/Applications/Evil.app" was a link into /tmp: only the canonical path counts
    assert_eq!(
        check_launch_path("/tmp/evil/Evil.app", &allowed),
        Err(AppError::Validation(s("App not in allowed directory")))
    );
    assert_eq!(
        check_launch_path("/Applications2/Evil.app", &allowed),
        Err(AppError::Validation(s("App not in allowed directory")))
    );
    assert_eq!(
        check_launch_path("/Applications/run.sh", &allowed),
        Err(AppError::Validation(s("Invalid app path")))
    );
}

#[test]
fn icon_request_needs_absolute_bundle_path() {
    let dir = Some(s(DIR));
    assert!(matches!(get_app_icon("Applications/A.app", &dir), IconAction::Finish(None)));
    assert!(matches!(get_app_icon("/Applications/A.txt", &dir), IconAction::Finish(None)));
    assert!(matches!(get_app_icon("/Applications/A.app", &None), IconAction::Finish(None)));
    match get_app_icon("/Applications/A.app", &dir) {
        IconAction::Probe { icon_file } => {
            assert_eq!(icon_file, format!("{}/{}", DIR, get_icon_filename("/Applications/A.app")))
        }
        _ => panic!("expected a probe"),
    }
}

#[test]
fn icon_resolution_steps() {
    let p = "/Applications/A.app";
    let fresh = CacheProbe { icon_modified: Some(20), app_modified: Some(10) };
    let hit = next_icon_action(p, DIR, IconEvent::Probed(fresh));
    let url = format!("file://{}/{}", DIR, get_icon_filename(p));
    assert!(matches!(hit, IconAction::Finish(Some(ref u)) if *u == url));
    assert!(matches!(next_icon_action(p, DIR, IconEvent::Probed(missing())), IconAction::Extract));
    assert!(matches!(next_icon_action(p, DIR, IconEvent::Extracted(None)), IconAction::Finish(None)));
    let w = match next_icon_action(p, DIR, IconEvent::Extracted(Some(vec![9, 9]))) {
        IconAction::Store(w) => w,
        _ => panic!("expected a store"),
    };
    assert_eq!(w.png, vec![9, 9]);
    let failed = next_icon_action(p, DIR, IconEvent::Stored(w, false));
    assert!(matches!(failed, IconAction::Finish(None)));
}

#[test]
fn listing_of_fixture_directory() {
    let entries = vec![
        ScannedEntry { path: s("/Applications/B.app"), is_dir: true, children: vec![] },
        ScannedEntry {
            path: s("/Applications/Utils"),
            is_dir: true,
            children: vec![s("/Applications/Utils/Y.app"), s("/Applications/Utils/X.app")],
        },
        ScannedEntry { path: s("/Applications/A.app"), is_dir: true, children: vec![] },
    ];
    let d = discover_apps_and_folders(&entries);
    let dir = Some(s(DIR));
    let app_probes = vec![missing(), missing()];
    let folder_probes = vec![vec![missing(), missing()]];
    let r = build_listing(&d, &dir, &app_probes, &folder_probes);
    let names: Vec<&str> = r.apps.iter().map(|a| a.name.as_str()).collect();
    assert_eq!(names, vec!["A", "B"]);
    assert!(r.apps.iter().all(|a| a.icon.is_none()));
    assert_eq!(r.folders.len(), 1);
    assert_eq!(r.folders[0].name, "Utils");
    assert_eq!(r.folders[0].path, "/Applications/Utils");
    let nested: Vec<&str> = r.folders[0].apps.iter().map(|a| a.name.as_str()).collect();
    assert_eq!(nested, vec!["X", "Y"]);
    assert!(r.folders[0].apps.iter().all(|a| a.icon.is_none()));
    assert_eq!(
        listing_paths(&r),
        vec![
            s("/Applications/A.app"),
            s("/Applications/B.app"),
            s("/Applications/Utils/X.app"),
            s("/Applications/Utils/Y.app")
        ]
    );

    // the first icon request for A.app extracts, stores and answers
    let a = "/Applications/A.app";
    assert!(matches!(get_app_icon(a, &dir), IconAction::Probe { .. }));
    assert!(matches!(next_icon_action(a, DIR, IconEvent::Probed(missing())), IconAction::Extract));
    let w = match next_icon_action(a, DIR, IconEvent::Extracted(Some(vec![137, 80]))) {
        IconAction::Store(w) => w,
        _ => panic!("expected a store"),
    };
    let answer = match next_icon_action(a, DIR, IconEvent::Stored(w, true)) {
        IconAction::Finish(u) => u,
        _ => panic!("expected an answer"),
    };
    assert!(answer.is_some());
    let written = CacheProbe { icon_modified: Some(11), app_modified: Some(10) };
    assert_eq!(get_icon_if_cached(DIR, a, &written), answer);
}

#[test]
fn listing_uses_fresh_cached_icons_only() {
    let p = s("/Applications/Localized.app");
    let fresh = CacheProbe { icon_modified: Some(3), app_modified: Some(3) };
    let info = app_info(&p, &Some(s(DIR)), &fresh);
    assert_eq!(info.name, "Localized");
    assert_eq!(info.icon, Some(format!("file://{}/{}", DIR, get_icon_filename(&p))));
    assert_eq!(app_info(&p, &None, &fresh).icon, None);
}
