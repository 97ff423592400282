use appwaffle::model::{AppConfig, AppError, FolderMetadata};
use appwaffle::order::{check_order, OrderStore, OrderViolation};
use appwaffle::persist::{config_or_default, config_to_save, flush_plan, save_order_to_disk, FlushStep};
use std::collections::HashMap;

fn s(v: &str) -> String {
    v.to_string()
}

fn folder(id: &str, paths: Vec<String>) -> FolderMetadata {
    FolderMetadata { id: s(id), name: s("Work"), app_paths: paths, created_at: 1_700_000_000 }
}

fn main_list(n: usize) -> Vec<String> {
    (0..n).map(|i| format!("/Applications/App{}.app", i)).collect()
}

#[test]
fn update_stages_whole_order() {
    let mut store = OrderStore::new();
    assert!(store.staged().is_none());
    assert_eq!(store.update_order(vec![s("/Applications/A.app")], vec![folder("f1", vec![])]), Ok(()));
    assert_eq!(store.update_order(vec![s("/Applications/B.app")], Vec::new()), Ok(()));
    let staged = store.staged().as_ref().unwrap();
    assert_eq!(staged.main, vec![s("/Applications/B.app")]);
    assert!(staged.folders.is_empty());
}

#[test]
fn oversized_main_list_rejected_without_change() {
    let mut store = OrderStore::new();
    assert_eq!(store.update_order(vec![s("/Applications/A.app")], Vec::new()), Ok(()));
    let r = store.update_order(main_list(1001), Vec::new());
    assert_eq!(r, Err(AppError::Validation(s("Too many main entries"))));
    assert_eq!(store.staged().as_ref().unwrap().main, vec![s("/Applications/A.app")]);
    assert_eq!(store.update_order(main_list(1000), Vec::new()), Ok(()));
    assert_eq!(store.staged().as_ref().unwrap().main.len(), 1000);
}

#[test]
fn every_bound_is_checked() {
    let long = "x".repeat(1025);
    let ok_len = "x".repeat(1024);
    let folders201: Vec<FolderMetadata> = (0..201).map(|i| folder(&format!("f{}", i), vec![])).collect();
    assert_eq!(check_order(&vec![], &folders201), Some(OrderViolation::TooManyFolders));
    assert_eq!(check_order(&vec![long.clone()], &vec![]), Some(OrderViolation::MainEntryTooLong));
    assert_eq!(check_order(&vec![ok_len.clone()], &vec![]), None);
    assert_eq!(check_order(&vec![], &vec![folder(&long, vec![])]), Some(OrderViolation::FolderFieldTooLong));
    let mut named = folder("f", vec![]);
    named.name = long.clone();
    assert_eq!(check_order(&vec![], &vec![named]), Some(OrderViolation::FolderFieldTooLong));
    assert_eq!(
        check_order(&vec![], &vec![folder("f", main_list(501))]),
        Some(OrderViolation::TooManyFolderApps)
    );
    assert_eq!(check_order(&vec![], &vec![folder("f", main_list(500))]), None);
    assert_eq!(
        check_order(&vec![], &vec![folder("ok", vec![]), folder("f", vec![long.clone()])]),
        Some(OrderViolation::FolderAppPathTooLong)
    );
    assert_eq!(check_order(&main_list(1001), &folders201), Some(OrderViolation::TooManyMainEntries));
    // the limit is in bytes: 600 two-byte characters are 1200 bytes
    assert_eq!(check_order(&vec!["é".repeat(600)], &vec![]), Some(OrderViolation::MainEntryTooLong));
}

#[test]
fn violation_messages() {
    let mut store = OrderStore::new();
    let long = "x".repeat(1025);
    assert_eq!(
        store.update_order(vec![], vec![folder("f", vec![long])]),
        Err(AppError::Validation(s("Folder app path too long")))
    );
    assert_eq!(
        store.update_order(vec![], vec![folder("f", main_list(501))]),
        Err(AppError::Validation(s("Too many apps in folder")))
    );
    assert!(store.staged().is_none());
}

fn run(files: &mut HashMap<String, Vec<u8>>, step: &FlushStep) {
    match step {
        FlushStep::CreateDir { .. } => {}
        FlushStep::WriteFile { path, contents } => {
            files.insert(path.clone(), contents.clone());
        }
        FlushStep::Rename { from, to } => {
            if let Some(c) = files.remove(from) {
                files.insert(to.clone(), c);
            }
        }
    }
}

#[test]
fn interrupted_flush_keeps_previous_file() {
    let dir = "/home/u/.config/com.helpermedia.appwaffle";
    let dest = format!("{}/config.json", dir);
    let plan = flush_plan(dir, b"{\"version\":1}".to_vec());
    assert_eq!(plan.len(), 3);
    let mut files: HashMap<String, Vec<u8>> = HashMap::new();
    files.insert(dest.clone(), b"old".to_vec());
    run(&mut files, &plan[0]);
    run(&mut files, &plan[1]);
    assert_eq!(files.get(&dest), Some(&b"old".to_vec()));
    assert_eq!(files.get(&format!("{}.tmp", dest)), Some(&b"{\"version\":1}".to_vec()));
    run(&mut files, &plan[2]);
    assert_eq!(files.get(&dest), Some(&b"{\"version\":1}".to_vec()));
    assert!(!files.contains_key(&format!("{}.tmp", dest)));
}

#[test]
fn flush_plan_steps() {
    let plan = flush_plan("/cfg", vec![1, 2]);
    assert!(matches!(&plan[0], FlushStep::CreateDir { path } if path == "/cfg"));
    assert!(matches!(&plan[1], FlushStep::WriteFile { path, contents } if path == "/cfg/config.json.tmp" && contents == &vec![1, 2]));
    assert!(matches!(&plan[2], FlushStep::Rename { from, to } if from == "/cfg/config.json.tmp" && to == "/cfg/config.json"));
}

#[test]
fn flush_without_config_dir_fails() {
    let r = save_order_to_disk(None, vec![]);
    assert!(matches!(r, Err(AppError::Validation(m)) if m == "Could not determine config directory"));
    assert!(save_order_to_disk(Some(s("/cfg")), vec![]).is_ok());
}

#[test]
fn nothing_staged_nothing_saved() {
    assert!(config_to_save(None).is_none());
    let mut store = OrderStore::new();
    store.update_order(vec![s("/Applications/A.app")], vec![]).unwrap();
    let c = config_to_save(store.staged().clone()).unwrap();
    assert_eq!(c.version, 1);
    assert_eq!(c.order.main, vec![s("/Applications/A.app")]);
}

#[test]
fn missing_file_loads_default() {
    let c = config_or_default(None).unwrap();
    assert_eq!(c.version, 1);
    assert!(c.order.main.is_empty() && c.order.folders.is_empty());
    let d = AppConfig::default();
    assert_eq!(d.version, 1);
    let e = config_or_default(Some(Err(AppError::Json(s("expected value")))));
    assert_eq!(e.unwrap_err(), AppError::Json(s("expected value")));
    assert_eq!(AppError::Json(s("bad")).message(), "JSON error: bad");
}
