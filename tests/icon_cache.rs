use appwaffle::icon_cache::{
    cleanup_orphaned_icons, decode_icon_output, generate_and_cache_icon, get_cached_icon_path,
    get_icon_filename, get_icon_if_cached, hex16_string, icon_path, stored_icon_url, CacheProbe,
};
use std::hash::BuildHasher;

fn s(v: &str) -> String {
    v.to_string()
}

fn std_hash(p: &str) -> u64 {
    std::hash::BuildHasherDefault::<std::collections::hash_map::DefaultHasher>::default().hash_one(p)
}

fn probe(icon: Option<i128>, app: Option<i128>) -> CacheProbe {
    CacheProbe { icon_modified: icon, app_modified: app }
}

const DIR: &str = "/cache/com.helpermedia.appwaffle/icons";

#[test]
fn hex_is_sixteen_lowercase_digits() {
    assert_eq!(hex16_string(0), "0000000000000000");
    assert_eq!(hex16_string(0x1f), "000000000000001f");
    assert_eq!(hex16_string(0xdead_beef_0123_4567), "deadbeef01234567");
    assert_eq!(hex16_string(u64::MAX), "ffffffffffffffff");
}

#[test]
fn icon_file_name_is_hash_of_path() {
    let name = get_icon_filename("/Applications/Safari.app");
    assert_eq!(name, format!("{:016x}.png", std_hash("/Applications/Safari.app")));
    assert_eq!(name.len(), 20);
    assert_eq!(name, get_icon_filename("/Applications/Safari.app"));
    assert_ne!(name, get_icon_filename("/Applications/Mail.app"));
    assert_eq!(
        icon_path(DIR, "/Applications/Safari.app"),
        format!("{}/{}", DIR, name)
    );
}

#[test]
fn fresh_entry_is_used() {
    let p = "/Applications/Safari.app";
    let expected = format!("file://{}/{}", DIR, get_icon_filename(p));
    assert_eq!(get_icon_if_cached(DIR, p, &probe(Some(200), Some(100))), Some(expected.clone()));
    assert_eq!(get_icon_if_cached(DIR, p, &probe(Some(100), Some(100))), Some(expected));
    assert_eq!(
        get_cached_icon_path(DIR, p, &probe(Some(100), Some(100))),
        Some(format!("{}/{}", DIR, get_icon_filename(p)))
    );
}

#[test]
fn missing_or_unreadable_entry_misses() {
    let p = "/Applications/Safari.app";
    assert_eq!(get_icon_if_cached(DIR, p, &probe(None, Some(100))), None);
    assert_eq!(get_icon_if_cached(DIR, p, &probe(Some(100), None)), None);
    assert_eq!(get_icon_if_cached(DIR, p, &probe(None, None)), None);
}

#[test]
fn stale_entry_misses_until_regenerated() {
    let p = "/Applications/Safari.app";
    assert_eq!(get_icon_if_cached(DIR, p, &probe(Some(100), Some(101))), None);
    assert_eq!(get_cached_icon_path(DIR, p, &probe(Some(100), Some(101))), None);
    let w = generate_and_cache_icon(DIR, p, Some(vec![1, 2, 3])).unwrap();
    assert_eq!(w.file, icon_path(DIR, p));
    let url = stored_icon_url(&w, true).unwrap();
    assert_eq!(get_icon_if_cached(DIR, p, &probe(Some(102), Some(101))), Some(url));
}

#[test]
fn resolution_round_trip() {
    let p = "/Applications/Notes.app";
    let w = generate_and_cache_icon(DIR, p, Some(vec![137, 80, 78, 71])).unwrap();
    assert_eq!(w.png, vec![137, 80, 78, 71]);
    let url = stored_icon_url(&w, true).unwrap();
    assert_eq!(url, format!("file://{}", w.file));
    assert_eq!(get_icon_if_cached(DIR, p, &probe(Some(5), Some(5))), Some(url));
}

#[test]
fn failed_extraction_or_write_gives_nothing() {
    let p = "/Applications/Notes.app";
    assert!(generate_and_cache_icon(DIR, p, None).is_none());
    let w = generate_and_cache_icon(DIR, p, Some(vec![1])).unwrap();
    assert_eq!(stored_icon_url(&w, false), None);
}

#[test]
fn sweep_removes_exactly_the_orphan() {
    let a = "/Applications/A.app";
    let b = "/Applications/B.app";
    let c = "/Applications/C.app";
    let listing = vec![
        get_icon_filename(a),
        get_icon_filename(b),
        get_icon_filename(c),
        s("notes.txt"),
    ];
    let removed = cleanup_orphaned_icons(&listing, &vec![s(a), s(c)]);
    assert_eq!(removed, vec![get_icon_filename(b)]);
}

#[test]
fn sweep_with_empty_valid_set_removes_every_icon() {
    let listing = vec![s("0000000000000001.png"), s("other.jpg"), s("abc.png")];
    assert_eq!(
        cleanup_orphaned_icons(&listing, &Vec::new()),
        vec![s("0000000000000001.png"), s("abc.png")]
    );
    assert!(cleanup_orphaned_icons(&Vec::new(), &vec![s("/Applications/A.app")]).is_empty());
}

#[test]
fn extractor_output_is_decoded() {
    assert_eq!(decode_icon_output(true, "  aGVsbG8=\n"), Some(b"hello".to_vec()));
    assert_eq!(decode_icon_output(false, "aGVsbG8="), None);
    assert_eq!(decode_icon_output(true, "  \n"), None);
    assert_eq!(decode_icon_output(true, "not base64!"), None);
}
