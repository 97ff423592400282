//! Discovery of application bundles under the install roots, and their
//! grouping into folders.
//!
//! Reading the directories is left to the caller, who hands over one
//! `ScannedEntry` for each entry found directly under a root; this module
//! decides what is an application, what is a folder, and in which order they
//! come.
use vstd::prelude::*;
use crate::paths::{
    file_name, file_stem, is_bundle, join, join_path, path_file_name, path_file_stem,
    path_is_bundle,
};
use crate::locations::home_dir;
use crate::text::{chars_of, lower_of, lowercase, option_view, sort_by_keys, sorted_by_key};

verus! {

broadcast use vstd::seq_lib::group_to_multiset_ensures;

/// The system-wide install locations, and the per-user one below `home`.
pub open spec fn applications_dirs_spec(home: Option<Seq<char>>) -> Seq<Seq<char>> {
    let system = seq!["/Applications"@, "/System/Applications"@];
    match home {
        Some(h) => system.push(join(h, "Applications"@)),
        None => system,
    }
}

/// The install roots for a user whose home directory is `home`.
pub fn applications_dirs_for(home: Option<String>) -> (r: Vec<String>)
    ensures
        r@.map_values(|s: String| s@) == applications_dirs_spec(option_view(home)),
{
    let mut dirs: Vec<String> = Vec::new();
    dirs.push("/Applications".to_owned());
    dirs.push("/System/Applications".to_owned());
    match home {
        Some(h) => {
            proof {
                reveal_strlit("Applications");
            }
            dirs.push(join_path(h.as_str(), "Applications"));
        },
        None => {},
    }
    assert(dirs@.map_values(|s: String| s@) =~= applications_dirs_spec(option_view(home)));
    dirs
}

/// The install roots of this user: the system-wide locations, and the
/// per-user one where the home directory is known.
pub fn get_applications_dirs() -> (r: Vec<String>)
    ensures
        exists|home: Option<Seq<char>>| r@.map_values(|s: String| s@) == applications_dirs_spec(home),
{
    let home = home_dir();
    let ghost h = option_view(home);
    let r = applications_dirs_for(home);
    assert(r@.map_values(|s: String| s@) == applications_dirs_spec(h));
    r
}

/// An entry found directly under an install root.
pub struct ScannedEntry {
    /// The entry's path.
    pub path: String,
    /// Whether the entry is a directory.
    pub is_dir: bool,
    /// The paths of the entries one level below it: read for a directory
    /// that is not itself a bundle, empty where it could not be read.
    pub children: Vec<String>,
}

/// A directory under a root that holds two or more bundles.
pub struct DiscoveredFolder {
    pub path: String,
    /// Its bundles, in name order.
    pub apps: Vec<String>,
}

/// What a discovery pass found.
pub struct Discovery {
    /// The bundles of the top-level list, in name order.
    pub apps: Vec<String>,
    /// The folders, in name order.
    pub folders: Vec<DiscoveredFolder>,
}

/// Bundles are ordered by their stem, case-insensitively.
pub open spec fn app_name_key(p: Seq<char>) -> Seq<char> {
    lower_of(file_stem(p))
}

pub open spec fn by_app_name() -> spec_fn(String) -> Seq<char> {
    |p: String| app_name_key(p@)
}

/// Folders are ordered by their base name, case-insensitively.
pub open spec fn folder_name_key(p: Seq<char>) -> Seq<char> {
    lower_of(file_name(p))
}

pub open spec fn by_folder_name() -> spec_fn(DiscoveredFolder) -> Seq<char> {
    |f: DiscoveredFolder| folder_name_key(f.path@)
}

/// The bundles among `s`, in the order of `s`.
pub open spec fn bundles_among(s: Seq<String>) -> Seq<String>
    decreases s.len(),
{
    if s.len() == 0 {
        Seq::empty()
    } else {
        let r = bundles_among(s.drop_last());
        if is_bundle(s.last()@) {
            r.push(s.last())
        } else {
            r
        }
    }
}

/// An entry that is a directory and not a bundle: one level below it is
/// searched for bundles.
pub open spec fn is_folder_candidate(e: ScannedEntry) -> bool {
    !is_bundle(e.path@) && e.is_dir
}

/// A candidate with two or more bundles becomes a folder.
pub open spec fn forms_folder(e: ScannedEntry) -> bool {
    is_folder_candidate(e) && bundles_among(e.children@).len() >= 2
}

/// What an entry adds to the top-level list: itself if it is a bundle, the
/// one bundle of a candidate that holds exactly one, and nothing else.
pub open spec fn top_level_of(e: ScannedEntry) -> Seq<String> {
    if is_bundle(e.path@) {
        seq![e.path]
    } else if is_folder_candidate(e) && bundles_among(e.children@).len() == 1 {
        bundles_among(e.children@)
    } else {
        Seq::empty()
    }
}

/// The top-level bundles of a scan, in scan order.
pub open spec fn top_level_apps(entries: Seq<ScannedEntry>) -> Seq<String>
    decreases entries.len(),
{
    if entries.len() == 0 {
        Seq::empty()
    } else {
        top_level_apps(entries.drop_last()) + top_level_of(entries.last())
    }
}

/// The number of entries of a scan that become folders.
pub open spec fn folder_count(entries: Seq<ScannedEntry>) -> nat
    decreases entries.len(),
{
    if entries.len() == 0 {
        0
    } else {
        folder_count(entries.drop_last()) + if forms_folder(entries.last()) {
            1nat
        } else {
            0nat
        }
    }
}

/// `f` is the folder that entry `e` forms: same path, all of its bundles in
/// name order.
#[verifier::opaque]
pub open spec fn folder_from(f: DiscoveredFolder, e: ScannedEntry) -> bool {
    &&& forms_folder(e)
    &&& f.path == e.path
    &&& f.apps@.to_multiset() == bundles_among(e.children@).to_multiset()
    &&& sorted_by_key(f.apps@, by_app_name())
}

/// `f` is the folder that some entry of `entries` forms.
pub open spec fn formed_by_some(f: DiscoveredFolder, entries: Seq<ScannedEntry>) -> bool {
    exists|i: int| 0 <= i < entries.len() && #[trigger] folder_from(f, entries[i])
}

/// One of `folders` is the folder that `e` forms.
pub open spec fn has_folder_from(folders: Seq<DiscoveredFolder>, e: ScannedEntry) -> bool {
    exists|k: int| 0 <= k < folders.len() && #[trigger] folder_from(folders[k], e)
}

/// Orders paths by their stem, case-insensitively.
pub fn sort_paths_by_name(paths: Vec<String>) -> (r: Vec<String>)
    ensures
        r@.to_multiset() == paths@.to_multiset(),
        sorted_by_key(r@, by_app_name()),
{
    let mut keys: Vec<Vec<char>> = Vec::new();
    let mut i: usize = 0;
    while i < paths.len()
        invariant
            i <= paths.len(),
            keys.len() == i,
            forall|j: int| 0 <= j < i ==> #[trigger] keys[j]@ == by_app_name()(paths[j]),
        decreases paths.len() - i,
    {
        let stem = path_file_stem(paths[i].as_str());
        let lower = lowercase(stem.as_str());
        keys.push(chars_of(lower.as_str()));
        i += 1;
    }
    sort_by_keys(paths, keys, Ghost(by_app_name()))
}

/// The bundles among `children`, in their order.
pub fn collect_bundles(children: &Vec<String>) -> (r: Vec<String>)
    ensures
        r@ == bundles_among(children@),
{
    let mut r: Vec<String> = Vec::new();
    let mut i: usize = 0;
    while i < children.len()
        invariant
            i <= children.len(),
            r@ == bundles_among(children@.subrange(0, i as int)),
        decreases children.len() - i,
    {
        assert(children@.subrange(0, i + 1).drop_last() =~= children@.subrange(0, i as int));
        if path_is_bundle(children[i].as_str()) {
            r.push(children[i].clone());
        }
        i += 1;
    }
    assert(children@.subrange(0, i as int) =~= children@);
    r
}

/// The bundles among the entries of a directory, in name order.
pub fn get_apps_in_dir(children: &Vec<String>) -> (r: Vec<String>)
    ensures
        r@.to_multiset() == bundles_among(children@).to_multiset(),
        sorted_by_key(r@, by_app_name()),
{
    sort_paths_by_name(collect_bundles(children))
}

/// Orders folders by their base name, case-insensitively.
fn sort_folders_by_name(folders: Vec<DiscoveredFolder>) -> (r: Vec<DiscoveredFolder>)
    ensures
        r@.to_multiset() == folders@.to_multiset(),
        sorted_by_key(r@, by_folder_name()),
{
    let mut keys: Vec<Vec<char>> = Vec::new();
    let mut i: usize = 0;
    while i < folders.len()
        invariant
            i <= folders.len(),
            keys.len() == i,
            forall|j: int| 0 <= j < i ==> #[trigger] keys[j]@ == by_folder_name()(folders[j]),
        decreases folders.len() - i,
    {
        let name = path_file_name(folders[i].path.as_str());
        let lower = lowercase(name.as_str());
        keys.push(chars_of(lower.as_str()));
        i += 1;
    }
    sort_by_keys(folders, keys, Ghost(by_folder_name()))
}

/// The top-level bundles of a scan in scan order, and its folders in the
/// order of the entries that form them.
fn group_entries(entries: &Vec<ScannedEntry>) -> (r: (Vec<String>, Vec<DiscoveredFolder>))
    ensures
        r.0@ == top_level_apps(entries@),
        r.1.len() == folder_count(entries@),
        forall|k: int| 0 <= k < r.1.len() ==> formed_by_some(#[trigger] r.1[k], entries@),
        forall|i: int|
            0 <= i < entries.len() && #[trigger] forms_folder(entries[i]) ==> has_folder_from(
                r.1@,
                entries[i],
            ),
{
    let mut apps: Vec<String> = Vec::new();
    let mut folders: Vec<DiscoveredFolder> = Vec::new();
    let ghost mut source: Seq<int> = Seq::empty();
    let mut idx: usize = 0;
    while idx < entries.len()
        invariant
            idx <= entries.len(),
            apps@ == top_level_apps(entries@.subrange(0, idx as int)),
            folders.len() == source.len(),
            folders.len() == folder_count(entries@.subrange(0, idx as int)),
            forall|j: int|
                0 <= j < folders.len() ==> 0 <= #[trigger] source[j] < idx && folder_from(
                    folders[j],
                    entries[source[j]],
                ),
            forall|i: int|
                0 <= i < idx && #[trigger] forms_folder(entries[i]) ==> has_folder_from(
                    folders@,
                    entries[i],
                ),
        decreases entries.len() - idx,
    {
        let ghost prefix = entries@.subrange(0, idx + 1);
        assert(prefix.drop_last() =~= entries@.subrange(0, idx as int));
        assert(prefix.last() == entries[idx as int]);
        let e = &entries[idx];
        if path_is_bundle(e.path.as_str()) {
            apps.push(e.path.clone());
        } else if e.is_dir {
            let found = collect_bundles(&e.children);
            if found.len() >= 2 {
                let sorted = sort_paths_by_name(found);
                let ghost old_folders = folders@;
                folders.push(DiscoveredFolder { path: e.path.clone(), apps: sorted });
                proof {
                    source = source.push(idx as int);
                    reveal(folder_from);
                    assert(folder_from(folders[old_folders.len() as int], entries[idx as int]));
                    assert forall|i: int|
                        0 <= i < idx + 1 && #[trigger] forms_folder(entries[i]) implies has_folder_from(
                            folders@,
                            entries[i],
                        ) by {
                        if i < idx {
                            let j = choose|j: int|
                                0 <= j < old_folders.len() && folder_from(old_folders[j], entries[i]);
                            assert(folders[j] == old_folders[j]);
                        } else {
                            reveal(folder_from);
                            assert(folder_from(folders[old_folders.len() as int], entries[i]));
                        }
                    }
                }
            } else if found.len() == 1 {
                apps.push(found[0].clone());
                assert(found@ =~= seq![found[0]]);
            }
        }
        idx += 1;
    }
    assert(entries@.subrange(0, idx as int) =~= entries@);
    assert forall|k: int| 0 <= k < folders.len() implies formed_by_some(
        #[trigger] folders[k],
        entries@,
    ) by {
        let i0 = source[k];
        assert(0 <= i0 < entries.len());
        assert(folder_from(folders[k], entries[i0]));
    }
    let r = (apps, folders);
    assert(r.1@ == folders@);
    r
}

/// Splits a scan into top-level bundles and folders: a bundle stands in the
/// top-level list; a directory with two or more bundles one level below it
/// becomes a folder of them; the one bundle of a directory that holds exactly
/// one is promoted to the top-level list; a directory without bundles adds
/// nothing. Both lists, and the bundles of each folder, come in name order.
pub fn discover_apps_and_folders(entries: &Vec<ScannedEntry>) -> (r: Discovery)
    ensures
        r.apps@.to_multiset() == top_level_apps(entries@).to_multiset(),
        sorted_by_key(r.apps@, by_app_name()),
        r.folders.len() == folder_count(entries@),
        forall|k: int| 0 <= k < r.folders.len() ==> formed_by_some(#[trigger] r.folders[k], entries@),
        forall|i: int|
            0 <= i < entries.len() && #[trigger] forms_folder(entries[i]) ==> has_folder_from(
                r.folders@,
                entries[i],
            ),
        sorted_by_key(r.folders@, by_folder_name()),
{
    let (apps, folders) = group_entries(entries);
    let ghost unsorted = folders@;
    let apps = sort_paths_by_name(apps);
    let folders = sort_folders_by_name(folders);
    proof {
        assert(folders.len() == folders@.to_multiset().len());
        assert forall|k: int| 0 <= k < folders.len() implies formed_by_some(
            #[trigger] folders[k],
            entries@,
        ) by {
            assert(folders@.to_multiset().count(folders[k]) > 0);
            assert(unsorted.contains(folders[k]));
            let j = choose|j: int| 0 <= j < unsorted.len() && unsorted[j] == folders[k];
            assert(formed_by_some(unsorted[j], entries@));
        }
        assert forall|i: int|
            0 <= i < entries.len() && #[trigger] forms_folder(entries[i]) implies has_folder_from(
                folders@,
                entries[i],
            ) by {
            assert(has_folder_from(unsorted, entries[i]));
            let j = choose|j: int| 0 <= j < unsorted.len() && folder_from(unsorted[j], entries[i]);
            assert(unsorted.to_multiset().count(unsorted[j]) > 0);
            assert(folders@.contains(unsorted[j]));
            let k = choose|k: int| 0 <= k < folders.len() && folders[k] == unsorted[j];
            assert(folder_from(folders[k], entries[i]));
        }
    }
    Discovery { apps, folders }
}


/// Every bundle that an entry adds to the top-level list stands in the
/// top-level list of the scan.
pub proof fn lemma_top_level_contains(entries: Seq<ScannedEntry>, i: int, b: String)
    requires
        0 <= i < entries.len(),
        top_level_of(entries[i]).contains(b),
    ensures
        top_level_apps(entries).contains(b),
    decreases entries.len(),
{
    let rest = entries.drop_last();
    let k = choose|k: int| 0 <= k < top_level_of(entries[i]).len() && top_level_of(entries[i])[k] == b;
    if i == entries.len() - 1 {
        assert((top_level_apps(rest) + top_level_of(entries.last()))[top_level_apps(rest).len() + k] == b);
    } else {
        assert(rest[i] == entries[i]);
        lemma_top_level_contains(rest, i, b);
        let m = choose|m: int| 0 <= m < top_level_apps(rest).len() && top_level_apps(rest)[m] == b;
        assert((top_level_apps(rest) + top_level_of(entries.last()))[m] == b);
    }
}

/// A directory with two or more bundles one level below it forms a folder
/// (which `discover_apps_and_folders` returns with all of them, in name
/// order), and none of them goes to the top-level list on its account.
pub proof fn lemma_two_or_more_bundles_form_folder(e: ScannedEntry)
    requires
        is_folder_candidate(e),
        bundles_among(e.children@).len() >= 2,
    ensures
        forms_folder(e),
        top_level_of(e).len() == 0,
        folder_count(seq![e]) == 1,
{
    assert(seq![e].drop_last() =~= Seq::<ScannedEntry>::empty());
    assert(seq![e].last() == e);
    reveal_with_fuel(folder_count, 2);
}

/// The one bundle of a directory that holds exactly one goes to the
/// top-level list of every scan that holds the directory, and no folder is
/// formed of it.
pub proof fn lemma_single_bundle_promoted(entries: Seq<ScannedEntry>, i: int)
    requires
        0 <= i < entries.len(),
        is_folder_candidate(entries[i]),
        bundles_among(entries[i].children@).len() == 1,
    ensures
        !forms_folder(entries[i]),
        top_level_apps(entries).contains(bundles_among(entries[i].children@)[0]),
{
    let b = bundles_among(entries[i].children@)[0];
    assert(top_level_of(entries[i])[0] == b);
    lemma_top_level_contains(entries, i, b);
}

/// A directory without bundles one level below it adds nothing: no folder
/// and no top-level bundle.
pub proof fn lemma_no_bundles_no_contribution(e: ScannedEntry)
    requires
        is_folder_candidate(e),
        bundles_among(e.children@).len() == 0,
    ensures
        !forms_folder(e),
        top_level_of(e).len() == 0,
        folder_count(seq![e]) == 0,
{
    assert(seq![e].drop_last() =~= Seq::<ScannedEntry>::empty());
    assert(seq![e].last() == e);
    reveal_with_fuel(folder_count, 2);
}

} // verus!
