//! The requests of the presentation layer: the listing, the icon of one
//! bundle, and the check before a bundle is launched.
use vstd::prelude::*;
use crate::discovery::Discovery;
use crate::icon_cache::{
    cached_url_spec, file_url, generate_and_cache_icon, get_icon_if_cached, icon_file_path,
    stored_icon_url, CacheProbe, IconWrite,
};
use crate::text::option_view;
use crate::model::{AppError, AppInfo, AppsResponse, FolderInfo};
use crate::paths::{
    file_stem, folder_display_name, folder_name, is_absolute, is_bundle, path_file_stem,
    path_is_absolute, path_is_bundle, path_within_dir, within_dir,
};

verus! {

/// The icon that the listing shows for the bundle at `path`: the cached one
/// where the cache directory is known and the probe shows it fresh.
pub open spec fn listed_icon(cache_dir: Option<String>, path: Seq<char>, probe: CacheProbe) -> Option<
    Seq<char>,
> {
    match cache_dir {
        Some(d) => cached_url_spec(d@, path, probe),
        None => None,
    }
}

/// `a` lists the bundle at `path`, with the icon that `probe` allows.
pub open spec fn lists_app(a: AppInfo, path: String, cache_dir: Option<String>, probe: CacheProbe) -> bool {
    &&& a.path == path
    &&& a.name@ == file_stem(path@)
    &&& option_view(a.icon) == listed_icon(cache_dir, path@, probe)
}

/// The listing entry of the bundle at `path`.
pub fn app_info(path: &String, cache_dir: &Option<String>, probe: &CacheProbe) -> (r: AppInfo)
    ensures
        lists_app(r, *path, *cache_dir, *probe),
{
    let icon = match cache_dir {
        Some(d) => get_icon_if_cached(d.as_str(), path.as_str(), probe),
        None => None,
    };
    AppInfo { name: path_file_stem(path.as_str()), path: path.clone(), icon }
}

/// The listing entries of `paths`, in their order.
fn app_infos(paths: &Vec<String>, cache_dir: &Option<String>, probes: &Vec<CacheProbe>) -> (r: Vec<
    AppInfo,
>)
    requires
        probes.len() == paths.len(),
    ensures
        r.len() == paths.len(),
        forall|i: int| 0 <= i < paths.len() ==> lists_app(#[trigger] r[i], paths[i], *cache_dir, probes[i]),
{
    let mut r: Vec<AppInfo> = Vec::new();
    let mut i: usize = 0;
    while i < paths.len()
        invariant
            i <= paths.len(),
            probes.len() == paths.len(),
            r.len() == i,
            forall|j: int| 0 <= j < i ==> lists_app(#[trigger] r[j], paths[j], *cache_dir, probes[j]),
        decreases paths.len() - i,
    {
        r.push(app_info(&paths[i], cache_dir, &probes[i]));
        i += 1;
    }
    r
}

/// Composes the listing from a discovery pass and what the caller found of
/// each bundle's cached icon: `app_probes[i]` for `discovered.apps[i]`, and
/// `folder_probes[k][j]` for the `j`-th bundle of the `k`-th folder. Icons
/// come from the cache only; a miss lists the bundle without one. The order
/// of the discovery pass is kept.
pub fn build_listing(
    discovered: &Discovery,
    cache_dir: &Option<String>,
    app_probes: &Vec<CacheProbe>,
    folder_probes: &Vec<Vec<CacheProbe>>,
) -> (r: AppsResponse)
    requires
        app_probes.len() == discovered.apps.len(),
        folder_probes.len() == discovered.folders.len(),
        forall|k: int|
            0 <= k < folder_probes.len() ==> #[trigger] folder_probes[k].len()
                == discovered.folders[k].apps.len(),
    ensures
        r.apps.len() == discovered.apps.len(),
        forall|i: int|
            0 <= i < r.apps.len() ==> lists_app(
                #[trigger] r.apps[i],
                discovered.apps[i],
                *cache_dir,
                app_probes[i],
            ),
        r.folders.len() == discovered.folders.len(),
        forall|k: int|
            #![trigger r.folders[k]]
            0 <= k < r.folders.len() ==> {
                let f = r.folders[k];
                let d = discovered.folders[k];
                &&& f.path == d.path
                &&& f.name@ == folder_display_name(d.path@)
                &&& f.apps.len() == d.apps.len()
                &&& forall|j: int|
                    0 <= j < f.apps.len() ==> lists_app(
                        #[trigger] f.apps[j],
                        d.apps[j],
                        *cache_dir,
                        folder_probes[k][j],
                    )
            },
{
    let apps = app_infos(&discovered.apps, cache_dir, app_probes);
    let mut folders: Vec<FolderInfo> = Vec::new();
    let mut k: usize = 0;
    while k < discovered.folders.len()
        invariant
            k <= discovered.folders.len(),
            folder_probes.len() == discovered.folders.len(),
            forall|m: int|
                0 <= m < folder_probes.len() ==> #[trigger] folder_probes[m].len()
                    == discovered.folders[m].apps.len(),
            folders.len() == k,
            forall|m: int|
                #![trigger folders[m]]
                0 <= m < k ==> {
                    let f = folders[m];
                    let d = discovered.folders[m];
                    &&& f.path == d.path
                    &&& f.name@ == folder_display_name(d.path@)
                    &&& f.apps.len() == d.apps.len()
                    &&& forall|j: int|
                        0 <= j < f.apps.len() ==> lists_app(
                            #[trigger] f.apps[j],
                            d.apps[j],
                            *cache_dir,
                            folder_probes[m][j],
                        )
                },
        decreases discovered.folders.len() - k,
    {
        let d = &discovered.folders[k];
        let nested = app_infos(&d.apps, cache_dir, &folder_probes[k]);
        folders.push(
            FolderInfo { name: folder_name(d.path.as_str()), path: d.path.clone(), apps: nested },
        );
        k += 1;
    }
    AppsResponse { apps, folders }
}

/// The paths of the bundles of the folders `folders`, folder after folder.
pub open spec fn nested_paths(folders: Seq<FolderInfo>) -> Seq<String>
    decreases folders.len(),
{
    if folders.len() == 0 {
        Seq::empty()
    } else {
        nested_paths(folders.drop_last()) + folders.last().apps@.map_values(|a: AppInfo| a.path)
    }
}

/// Every bundle path that a listing holds: the top-level ones, then those
/// of each folder.
pub open spec fn listed_paths(r: AppsResponse) -> Seq<String> {
    r.apps@.map_values(|a: AppInfo| a.path) + nested_paths(r.folders@)
}

/// Appends the paths of `apps` to `out`.
fn push_paths(out: &mut Vec<String>, apps: &Vec<AppInfo>)
    ensures
        final(out)@ == old(out)@ + apps@.map_values(|a: AppInfo| a.path),
{
    let ghost start = out@;
    let mut i: usize = 0;
    while i < apps.len()
        invariant
            i <= apps.len(),
            out@ == start + apps@.subrange(0, i as int).map_values(|a: AppInfo| a.path),
        decreases apps.len() - i,
    {
        out.push(apps[i].path.clone());
        i += 1;
        assert(out@ =~= start + apps@.subrange(0, i as int).map_values(|a: AppInfo| a.path));
    }
    assert(apps@.subrange(0, i as int) =~= apps@);
}

/// Every bundle path of a listing: the valid set for a cache sweep.
pub fn listing_paths(r: &AppsResponse) -> (paths: Vec<String>)
    ensures
        paths@ == listed_paths(*r),
{
    let mut paths: Vec<String> = Vec::new();
    push_paths(&mut paths, &r.apps);
    let ghost top = paths@;
    let mut k: usize = 0;
    while k < r.folders.len()
        invariant
            k <= r.folders.len(),
            top == r.apps@.map_values(|a: AppInfo| a.path),
            paths@ == top + nested_paths(r.folders@.subrange(0, k as int)),
        decreases r.folders.len() - k,
    {
        push_paths(&mut paths, &r.folders[k].apps);
        assert(r.folders@.subrange(0, k + 1).drop_last() =~= r.folders@.subrange(0, k as int));
        k += 1;
        assert(paths@ =~= top + nested_paths(r.folders@.subrange(0, k as int)));
    }
    assert(r.folders@.subrange(0, k as int) =~= r.folders@);
    paths
}

/// A single-icon request names a bundle by an absolute path.
pub open spec fn is_icon_request(path: Seq<char>) -> bool {
    is_absolute(path) && is_bundle(path)
}

/// The next thing a single-icon resolution does.
pub enum IconAction {
    /// Read the times of the cache file `icon_file` and of the bundle.
    Probe { icon_file: String },
    /// Run the extractor on the bundle.
    Extract,
    /// Create the cache directory and write the image.
    Store(IconWrite),
    /// Answer with this reference, or with none.
    Finish(Option<String>),
}

/// What came of an action of a single-icon resolution.
pub enum IconEvent {
    /// The times that the probe read.
    Probed(CacheProbe),
    /// The image that the extractor gave, if any.
    Extracted(Option<Vec<u8>>),
    /// The write that was attempted, and whether it succeeded.
    Stored(IconWrite, bool),
}

/// How a single-icon resolution for `path` begins: nothing for a path that
/// is not an absolute bundle path or where the cache directory is unknown,
/// else a probe of the bundle's cache file.
pub fn get_app_icon(path: &str, cache_dir: &Option<String>) -> (r: IconAction)
    ensures
        match cache_dir {
            Some(d) if is_icon_request(path@) => r matches IconAction::Probe { icon_file } && icon_file@
                == icon_file_path(d@, path@),
            _ => r matches IconAction::Finish(None),
        },
{
    if !path_is_absolute(path) || !path_is_bundle(path) {
        return IconAction::Finish(None);
    }
    match cache_dir {
        Some(d) => IconAction::Probe { icon_file: crate::icon_cache::icon_path(d.as_str(), path) },
        None => IconAction::Finish(None),
    }
}

/// The step of a single-icon resolution for `path` that follows `event`: a
/// fresh cached icon is the answer; on a miss the extractor runs; its image
/// is written to the cache; a written image is the answer; a failed
/// extraction or write answers with nothing.
pub fn next_icon_action(path: &str, cache_dir: &str, event: IconEvent) -> (r: IconAction)
    ensures
        match event {
            IconEvent::Probed(probe) => match cached_url_spec(cache_dir@, path@, probe) {
                Some(u) => r matches IconAction::Finish(Some(s)) && s@ == u,
                None => r is Extract,
            },
            IconEvent::Extracted(Some(png)) => r matches IconAction::Store(w) && w.file@
                == icon_file_path(cache_dir@, path@) && w.png@ == png@,
            IconEvent::Extracted(None) => r matches IconAction::Finish(None),
            IconEvent::Stored(w, ok) => r matches IconAction::Finish(u) && option_view(u) == if ok {
                Some(file_url(w.file@))
            } else {
                None
            },
        },
{
    match event {
        IconEvent::Probed(probe) => match get_icon_if_cached(cache_dir, path, &probe) {
            Some(u) => IconAction::Finish(Some(u)),
            None => IconAction::Extract,
        },
        IconEvent::Extracted(png) => match generate_and_cache_icon(cache_dir, path, png) {
            Some(w) => IconAction::Store(w),
            None => IconAction::Finish(None),
        },
        IconEvent::Stored(w, ok) => IconAction::Finish(stored_icon_url(&w, ok)),
    }
}

/// A bundle may be launched when its canonical path is a bundle path in one
/// of the allowed directories.
pub open spec fn in_allowed_dir(canonical: Seq<char>, allowed: Seq<String>) -> bool {
    exists|i: int| 0 <= i < allowed.len() && within_dir(canonical, #[trigger] allowed[i]@)
}

/// Checks the canonical path of a launch request, with every link already
/// followed: it must be a bundle path, and lie in one of the `allowed`
/// directories. Only the canonical path counts, whatever the path that was
/// asked for looked like.
pub fn check_launch_path(canonical: &str, allowed: &Vec<String>) -> (r: Result<(), AppError>)
    ensures
        !is_bundle(canonical@) ==> (r matches Err(AppError::Validation(m)) && m@
            == "Invalid app path"@),
        is_bundle(canonical@) && !in_allowed_dir(canonical@, allowed@) ==> (r matches Err(
            AppError::Validation(m),
        ) && m@ == "App not in allowed directory"@),
        r is Ok <==> is_bundle(canonical@) && in_allowed_dir(canonical@, allowed@),
{
    if !path_is_bundle(canonical) {
        return Err(AppError::Validation("Invalid app path".to_owned()));
    }
    let mut i: usize = 0;
    while i < allowed.len()
        invariant
            i <= allowed.len(),
            is_bundle(canonical@),
            forall|j: int| 0 <= j < i ==> !within_dir(canonical@, #[trigger] allowed[j]@),
        decreases allowed.len() - i,
    {
        if path_within_dir(canonical, allowed[i].as_str()) {
            return Ok(());
        }
        i += 1;
    }
    Err(AppError::Validation("App not in allowed directory".to_owned()))
}

} // verus!
