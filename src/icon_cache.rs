//! The icon cache: one image file per bundle, named by a hash of the
//! bundle's path, valid while it is not older than the bundle.
//!
//! The caller reads the file system; this module names the files, decides
//! whether a cached file may be used, what to write on a miss, and which
//! files a sweep removes.
use vstd::prelude::*;
use base64::Engine;
use crate::paths::{join, join_path};
use crate::text::{chars_of, option_view};

verus! {

broadcast use vstd::seq_lib::group_to_multiset_ensures;

/// What std's `DefaultHasher`, with its fixed keys, makes of a string.
pub uninterp spec fn path_hash(s: Seq<char>) -> u64;

/// Relies on `BuildHasher::hash_one` over std's `DefaultHasher`, built
/// by `Default` with fixed keys: the hash of `s` depends on `s` alone.
#[verifier::external_body]
fn hash_path(s: &str) -> (r: u64)
    ensures
        r == path_hash(s@),
{
    std::hash::BuildHasher::hash_one(
        &std::hash::BuildHasherDefault::<std::collections::hash_map::DefaultHasher>::default(),
        s,
    )
}

/// What base64's standard engine makes of a text: the bytes it encodes, or
/// nothing where it is no padded standard-alphabet encoding.
pub uninterp spec fn base64_decoded(s: Seq<char>) -> Option<Seq<u8>>;

#[verifier::external_type_specification]
#[verifier::external_body]
pub struct ExDecodeError(base64::DecodeError);

/// Relies on `Engine::decode` of `base64::engine::general_purpose::STANDARD`
/// to turn the extractor's printed text into the image bytes; any input is
/// answered, with the bytes or with a `DecodeError`.
#[verifier::external_body]
fn base64_decode(s: &str) -> (r: Result<Vec<u8>, base64::DecodeError>)
    ensures
        match r {
            Ok(v) => base64_decoded(s@) == Some(v@),
            Err(_) => base64_decoded(s@) is None,
        },
{
    base64::engine::general_purpose::STANDARD.decode(s)
}

/// What `str::trim` makes of a string.
pub uninterp spec fn trimmed(s: Seq<char>) -> Seq<char>;

/// Relies on `str::trim`: `s` without leading and trailing white space.
#[verifier::external_body]
fn trim(s: &str) -> (r: String)
    ensures
        r@ == trimmed(s@),
{
    s.trim().to_owned()
}

/// The lowercase hexadecimal digits.
pub open spec fn hex_digits() -> Seq<char> {
    seq!['0', '1', '2', '3', '4', '5', '6', '7', '8', '9', 'a', 'b', 'c', 'd', 'e', 'f']
}

/// The `i`-th of the sixteen four-bit digits of `n`, the most significant first.
pub open spec fn nibble(n: u64, i: int) -> u64 {
    (n >> ((60 - 4 * i) as u64)) & 15
}

/// `n` as sixteen lowercase hexadecimal digits.
pub open spec fn hex16(n: u64) -> Seq<char> {
    Seq::new(16, |i: int| hex_digits()[nibble(n, i) as int])
}

/// The extension of a cached icon.
pub open spec fn icon_extension() -> Seq<char> {
    seq!['.', 'p', 'n', 'g']
}

/// The cache file name of the bundle at `app_path`.
pub open spec fn icon_file_name(app_path: Seq<char>) -> Seq<char> {
    hex16(path_hash(app_path)) + icon_extension()
}

/// The cache file of the bundle at `app_path` in the cache directory `dir`.
pub open spec fn icon_file_path(dir: Seq<char>, app_path: Seq<char>) -> Seq<char> {
    join(dir, icon_file_name(app_path))
}

/// The reference that the presentation layer loads an image by.
pub open spec fn file_url(path: Seq<char>) -> Seq<char> {
    "file://"@ + path
}

/// `n` as sixteen lowercase hexadecimal digits.
pub fn hex16_string(n: u64) -> (r: String)
    ensures
        r@ == hex16(n),
{
    let table = "0123456789abcdef";
    proof {
        reveal_strlit("0123456789abcdef");
    }
    assert(table@ =~= hex_digits());
    let mut out = String::new();
    let mut i: usize = 0;
    while i < 16
        invariant
            i <= 16,
            table@ == hex_digits(),
            out@ == hex16(n).subrange(0, i as int),
        decreases 16 - i,
    {
        let shift: u64 = 60 - 4 * (i as u64);
        let d: u64 = (n >> shift) & 15;
        assert(d < 16) by (bit_vector)
            requires
                d == (n >> shift) & 15,
        ;
        assert(d == nibble(n, i as int));
        out = out.concat(table.substring_char(d as usize, d as usize + 1));
        i += 1;
        assert(out@ =~= hex16(n).subrange(0, i as int));
    }
    assert(hex16(n).subrange(0, 16) =~= hex16(n));
    out
}

/// The cache file name of the bundle at `app_path`: the hash of the path as
/// sixteen hexadecimal digits, with the image extension.
pub fn get_icon_filename(app_path: &str) -> (r: String)
    ensures
        r@ == icon_file_name(app_path@),
{
    let h = hash_path(app_path);
    let digits = hex16_string(h);
    proof {
        reveal_strlit(".png");
    }
    let r = digits.concat(".png");
    assert(r@ =~= icon_file_name(app_path@));
    r
}

/// The cache file of the bundle at `app_path` in the cache directory `dir`.
pub fn icon_path(dir: &str, app_path: &str) -> (r: String)
    ensures
        r@ == icon_file_path(dir@, app_path@),
{
    let name = get_icon_filename(app_path);
    proof {
        let x = path_hash(app_path@) >> 60u64;
        assert(x & 15 < 16) by (bit_vector);
        assert(name@[0] == hex_digits()[(x & 15) as int]);
    }
    join_path(dir, name.as_str())
}

/// The `file://` reference to a file.
pub fn icon_url(path: &str) -> (r: String)
    ensures
        r@ == file_url(path@),
{
    let scheme = "file://";
    scheme.to_owned().concat(path)
}

/// What the caller found of a cached icon and of its bundle: the
/// modification times, in nanoseconds from the Unix epoch, of the cache file
/// and of the bundle; `None` where the file does not exist or its time
/// could not be read.
pub struct CacheProbe {
    pub icon_modified: Option<i128>,
    pub app_modified: Option<i128>,
}

/// A cached icon may be used when both times are known and the file is not
/// older than the bundle.
pub open spec fn is_fresh(probe: CacheProbe) -> bool {
    match (probe.icon_modified, probe.app_modified) {
        (Some(icon), Some(app)) => app <= icon,
        _ => false,
    }
}

/// The cached file that a lookup yields.
pub open spec fn cached_path_spec(dir: Seq<char>, app_path: Seq<char>, probe: CacheProbe) -> Option<
    Seq<char>,
> {
    if is_fresh(probe) {
        Some(icon_file_path(dir, app_path))
    } else {
        None
    }
}

/// The reference that a lookup yields.
pub open spec fn cached_url_spec(dir: Seq<char>, app_path: Seq<char>, probe: CacheProbe) -> Option<
    Seq<char>,
> {
    match cached_path_spec(dir, app_path, probe) {
        Some(p) => Some(file_url(p)),
        None => None,
    }
}

/// The cached icon file of the bundle at `app_path`, if `probe` shows it
/// fresh; a stale, missing or unreadable one is a miss.
pub fn get_cached_icon_path(dir: &str, app_path: &str, probe: &CacheProbe) -> (r: Option<String>)
    ensures
        option_view(r) == cached_path_spec(dir@, app_path@, *probe),
{
    match (probe.icon_modified, probe.app_modified) {
        (Some(icon), Some(app)) => {
            if app > icon {
                None
            } else {
                Some(icon_path(dir, app_path))
            }
        },
        _ => None,
    }
}

/// The reference to the cached icon of the bundle at `app_path`, if `probe`
/// shows it fresh. Never starts an extraction.
pub fn get_icon_if_cached(dir: &str, app_path: &str, probe: &CacheProbe) -> (r: Option<String>)
    ensures
        option_view(r) == cached_url_spec(dir@, app_path@, *probe),
{
    match get_cached_icon_path(dir, app_path, probe) {
        Some(p) => Some(icon_url(p.as_str())),
        None => None,
    }
}

/// A file that the cache writes: the image bytes of one bundle's icon.
pub struct IconWrite {
    pub file: String,
    pub png: Vec<u8>,
}

/// What to write on a miss, given what the extraction gave: nothing where it
/// failed, else the image to the bundle's cache file.
pub fn generate_and_cache_icon(dir: &str, app_path: &str, extracted: Option<Vec<u8>>) -> (r:
    Option<IconWrite>)
    ensures
        match extracted {
            Some(png) => r matches Some(w) && w.file@ == icon_file_path(dir@, app_path@) && w.png@
                == png@,
            None => r is None,
        },
{
    match extracted {
        Some(png) => Some(IconWrite { file: icon_path(dir, app_path), png }),
        None => None,
    }
}

/// The reference that a resolution returns once the write was attempted:
/// the written file's, or nothing where the write failed.
pub fn stored_icon_url(write: &IconWrite, stored: bool) -> (r: Option<String>)
    ensures
        option_view(r) == if stored {
            Some(file_url(write.file@))
        } else {
            None
        },
{
    if stored {
        Some(icon_url(write.file.as_str()))
    } else {
        None
    }
}

/// The image that a trimmed extractor output stands for: nothing for an
/// empty text, else its base64 decoding, if it is one.
pub fn decode_trimmed_output(text: &str) -> (r: Option<Vec<u8>>)
    ensures
        match r {
            Some(v) => text@.len() > 0 && base64_decoded(text@) == Some(v@),
            None => text@.len() == 0 || base64_decoded(text@) is None,
        },
{
    if text.unicode_len() == 0 {
        return None;
    }
    match base64_decode(text) {
        Ok(v) => Some(v),
        Err(_) => None,
    }
}

/// The image that the extractor printed: nothing where it failed or printed
/// only white space, else the base64 decoding of its trimmed output.
pub fn decode_icon_output(succeeded: bool, stdout: &str) -> (r: Option<Vec<u8>>)
    ensures
        !succeeded ==> r is None,
        succeeded ==> match r {
            Some(v) => trimmed(stdout@).len() > 0 && base64_decoded(trimmed(stdout@)) == Some(v@),
            None => trimmed(stdout@).len() == 0 || base64_decoded(trimmed(stdout@)) is None,
        },
{
    if !succeeded {
        return None;
    }
    let text = trim(stdout);
    decode_trimmed_output(text.as_str())
}

/// `s` ends with `suffix`.
pub open spec fn ends_with(s: Seq<char>, suffix: Seq<char>) -> bool {
    s.len() >= suffix.len() && s.subrange(s.len() - suffix.len(), s.len() as int) == suffix
}

/// `name` is the cache file name of one of `valid`.
pub open spec fn names_valid_icon(name: Seq<char>, valid: Seq<String>) -> bool {
    exists|i: int| 0 <= i < valid.len() && icon_file_name(#[trigger] valid[i]@) == name
}

/// A cache file is an orphan when it is an icon of no path of `valid`.
pub open spec fn is_orphan(name: Seq<char>, valid: Seq<String>) -> bool {
    ends_with(name, icon_extension()) && !names_valid_icon(name, valid)
}

/// The orphans among the file names `listing`, in listing order.
pub open spec fn orphans(listing: Seq<String>, valid: Seq<String>) -> Seq<String>
    decreases listing.len(),
{
    if listing.len() == 0 {
        Seq::empty()
    } else {
        let r = orphans(listing.drop_last(), valid);
        if is_orphan(listing.last()@, valid) {
            r.push(listing.last())
        } else {
            r
        }
    }
}

/// Whether `s` ends with the icon extension.
fn has_icon_extension(s: &str) -> (r: bool)
    ensures
        r == ends_with(s@, icon_extension()),
{
    let cs = chars_of(s);
    let n = cs.len();
    if n < 4 {
        return false;
    }
    let r = cs[n - 4] == '.' && cs[n - 3] == 'p' && cs[n - 2] == 'n' && cs[n - 1] == 'g';
    let ghost tail = s@.subrange(n - 4, n as int);
    if r {
        assert(tail =~= icon_extension());
    } else {
        assert(tail[0] != '.' || tail[1] != 'p' || tail[2] != 'n' || tail[3] != 'g');
    }
    r
}

/// The cache files to remove in a sweep: those of `listing`, the names in
/// the cache directory, that carry the icon extension and are the icon of
/// no path of `valid_app_paths`. Files of other kinds are left alone.
pub fn cleanup_orphaned_icons(listing: &Vec<String>, valid_app_paths: &Vec<String>) -> (r: Vec<
    String,
>)
    ensures
        r@ == orphans(listing@, valid_app_paths@),
{
    let mut names: Vec<String> = Vec::new();
    let mut i: usize = 0;
    while i < valid_app_paths.len()
        invariant
            i <= valid_app_paths.len(),
            names.len() == i,
            forall|j: int|
                0 <= j < i ==> #[trigger] names[j]@ == icon_file_name(valid_app_paths[j]@),
        decreases valid_app_paths.len() - i,
    {
        names.push(get_icon_filename(valid_app_paths[i].as_str()));
        i += 1;
    }
    let mut r: Vec<String> = Vec::new();
    let mut k: usize = 0;
    while k < listing.len()
        invariant
            k <= listing.len(),
            names.len() == valid_app_paths.len(),
            forall|j: int|
                0 <= j < names.len() ==> #[trigger] names[j]@ == icon_file_name(valid_app_paths[j]@),
            r@ == orphans(listing@.subrange(0, k as int), valid_app_paths@),
        decreases listing.len() - k,
    {
        let name = &listing[k];
        assert(listing@.subrange(0, k + 1).drop_last() =~= listing@.subrange(0, k as int));
        if has_icon_extension(name.as_str()) {
            let mut found = false;
            let mut j: usize = 0;
            while j < names.len() && !found
                invariant
                    j <= names.len(),
                    names.len() == valid_app_paths.len(),
                    forall|m: int|
                        0 <= m < names.len() ==> #[trigger] names[m]@ == icon_file_name(
                            valid_app_paths[m]@,
                        ),
                    found == names_valid_icon(name@, valid_app_paths@.subrange(0, j as int)),
                decreases names.len() - j + if found { 0int } else { 1int },
            {
                found = names[j] == *name;
                proof {
                    let sub = valid_app_paths@.subrange(0, j + 1);
                    if found {
                        assert(sub[j as int] == valid_app_paths[j as int]);
                    } else {
                        assert forall|m: int| 0 <= m < sub.len() implies icon_file_name(
                            #[trigger] sub[m]@,
                        ) != name@ by {
                            if m < j {
                                assert(sub[m] == valid_app_paths@.subrange(0, j as int)[m]);
                            }
                        }
                    }
                }
                j += 1;
            }
            proof {
                if found {
                    let m = choose|m: int|
                        0 <= m < j && icon_file_name(
                            #[trigger] valid_app_paths@.subrange(0, j as int)[m]@,
                        ) == name@;
                    assert(valid_app_paths@.subrange(0, j as int)[m] == valid_app_paths[m]);
                } else {
                    assert(valid_app_paths@.subrange(0, j as int) =~= valid_app_paths@);
                }
            }
            if !found {
                r.push(name.clone());
            }
        }
        k += 1;
    }
    assert(listing@.subrange(0, k as int) =~= listing@);
    r
}

/// Every icon file name carries the icon extension.
pub proof fn lemma_icon_name_has_extension(app_path: Seq<char>)
    ensures
        ends_with(icon_file_name(app_path), icon_extension()),
{
    let name = icon_file_name(app_path);
    assert(name.subrange(name.len() - 4, name.len() as int) =~= icon_extension());
}

/// A resolution that wrote the extracted image makes the next lookup return
/// the reference that the resolution returned, as long as the written file
/// is not older than its bundle.
pub proof fn lemma_resolved_icon_is_cached(dir: Seq<char>, app_path: Seq<char>, probe: CacheProbe)
    requires
        is_fresh(probe),
    ensures
        cached_url_spec(dir, app_path, probe) == Some(file_url(icon_file_path(dir, app_path))),
{
}

/// Once the bundle is newer than its cached icon, lookups miss; a
/// resolution then writes the same cache file anew, which lookups return
/// again once it is not older than the bundle.
pub proof fn lemma_stale_until_regenerated(
    dir: Seq<char>,
    app_path: Seq<char>,
    stale: CacheProbe,
    regenerated: CacheProbe,
)
    requires
        stale.icon_modified matches Some(icon) && stale.app_modified matches Some(app) && app
            > icon,
        is_fresh(regenerated),
    ensures
        cached_url_spec(dir, app_path, stale) is None,
        cached_url_spec(dir, app_path, regenerated) == Some(file_url(icon_file_path(dir, app_path))),
{
}

/// Of the icons of three paths, a sweep with the first and the third as the
/// valid set removes exactly the second's, where its name is not also the
/// name of another's icon.
pub proof fn lemma_reclaim_removes_only_orphan(
    a: String,
    b: String,
    c: String,
    icon_a: String,
    icon_b: String,
    icon_c: String,
)
    requires
        icon_a@ == icon_file_name(a@),
        icon_b@ == icon_file_name(b@),
        icon_c@ == icon_file_name(c@),
        icon_b@ != icon_a@,
        icon_b@ != icon_c@,
    ensures
        orphans(seq![icon_a, icon_b, icon_c], seq![a, c]) == seq![icon_b],
{
    let valid = seq![a, c];
    let listing = seq![icon_a, icon_b, icon_c];
    assert(valid[0] == a && valid[1] == c);
    assert(names_valid_icon(icon_a@, valid));
    assert(names_valid_icon(icon_c@, valid));
    assert(!names_valid_icon(icon_b@, valid)) by {
        if names_valid_icon(icon_b@, valid) {
            let i = choose|i: int| 0 <= i < valid.len() && icon_file_name(#[trigger] valid[i]@) == icon_b@;
            assert(i == 0 || i == 1);
        }
    }
    lemma_icon_name_has_extension(b@);
    assert(listing.drop_last() =~= seq![icon_a, icon_b]);
    assert(listing.drop_last().drop_last() =~= seq![icon_a]);
    assert(listing.drop_last().drop_last().drop_last() =~= Seq::<String>::empty());
    reveal_with_fuel(orphans, 4);
    assert(orphans(seq![icon_a], valid) =~= Seq::<String>::empty());
    assert(orphans(seq![icon_a, icon_b], valid) =~= seq![icon_b]);
}

} // verus!
