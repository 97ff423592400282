//! Paths as character sequences: the base name, the extension and the stem
//! of a path, joining, and containment in a directory.
//!
//! A path here is a string of components separated by `/`, with no trailing
//! separator; this is the form of the entries that a directory listing
//! yields and of a canonical path.
use vstd::prelude::*;
use crate::text::chars_of;

verus! {

/// The position of the last `c` in `s`, or -1.
pub open spec fn last_index_of(s: Seq<char>, c: char) -> int
    decreases s.len(),
{
    if s.len() == 0 {
        -1
    } else if s.last() == c {
        s.len() - 1
    } else {
        last_index_of(s.drop_last(), c)
    }
}

pub proof fn lemma_last_index_of_bounds(s: Seq<char>, c: char)
    ensures
        -1 <= last_index_of(s, c) < s.len(),
        last_index_of(s, c) >= 0 ==> s[last_index_of(s, c)] == c,
        forall|j: int| last_index_of(s, c) < j < s.len() ==> s[j] != c,
    decreases s.len(),
{
    if s.len() > 0 && s.last() != c {
        lemma_last_index_of_bounds(s.drop_last(), c);
        assert forall|j: int| last_index_of(s, c) < j < s.len() implies s[j] != c by {
            if j < s.len() - 1 {
                assert(s.drop_last()[j] == s[j]);
            }
        }
    }
}

/// The last component of a path.
pub open spec fn file_name(p: Seq<char>) -> Seq<char> {
    p.subrange(last_index_of(p, '/') + 1, p.len() as int)
}

/// A name has an extension when a `.` stands in it after its first character.
pub open spec fn has_extension(name: Seq<char>) -> bool {
    last_index_of(name, '.') > 0
}

/// What follows the last `.` of a name that has an extension.
pub open spec fn extension(name: Seq<char>) -> Seq<char> {
    name.subrange(last_index_of(name, '.') + 1, name.len() as int)
}

/// The base name of a path without its extension.
pub open spec fn file_stem(p: Seq<char>) -> Seq<char> {
    let name = file_name(p);
    if has_extension(name) {
        name.subrange(0, last_index_of(name, '.'))
    } else {
        name
    }
}

/// The extension that marks an application bundle.
pub open spec fn bundle_extension() -> Seq<char> {
    seq!['a', 'p', 'p']
}

/// A path names an application bundle when its base name has the bundle
/// extension.
pub open spec fn is_bundle(p: Seq<char>) -> bool {
    has_extension(file_name(p)) && extension(file_name(p)) == bundle_extension()
}

pub open spec fn is_absolute(p: Seq<char>) -> bool {
    p.len() > 0 && p[0] == '/'
}

/// `base` with the relative path `name` appended, as `PathBuf::push` does.
pub open spec fn join(base: Seq<char>, name: Seq<char>) -> Seq<char> {
    if base.len() == 0 {
        name
    } else if base.last() == '/' {
        base + name
    } else {
        base + seq!['/'] + name
    }
}

/// `p` is `dir` or lies below it, compared component by component.
pub open spec fn within_dir(p: Seq<char>, dir: Seq<char>) -> bool {
    dir.len() > 0 && (p == dir || (p.len() > dir.len() && p.subrange(0, dir.len() as int) == dir
        && (dir.last() == '/' || p[dir.len() as int] == '/')))
}

/// The marker that a localized folder name carries at its end.
pub open spec fn localized_suffix() -> Seq<char> {
    seq!['.', 'l', 'o', 'c', 'a', 'l', 'i', 'z', 'e', 'd']
}

/// `s` without `suffix` at its end, if it ends so.
pub open spec fn strip_suffix(s: Seq<char>, suffix: Seq<char>) -> Seq<char> {
    if s.len() >= suffix.len() && s.subrange(s.len() - suffix.len(), s.len() as int) == suffix {
        s.subrange(0, s.len() - suffix.len())
    } else {
        s
    }
}

/// The display name of a folder: its base name without the localized marker.
pub open spec fn folder_display_name(p: Seq<char>) -> Seq<char> {
    strip_suffix(file_name(p), localized_suffix())
}

/// The position of the last `c` in `s`.
pub fn find_last(s: &Vec<char>, c: char) -> (r: Option<usize>)
    ensures
        match r {
            Some(k) => k as int == last_index_of(s@, c),
            None => last_index_of(s@, c) == -1,
        },
{
    let mut i: usize = s.len();
    assert(s@.subrange(0, i as int) =~= s@);
    while i > 0
        invariant
            i <= s.len(),
            last_index_of(s@, c) == last_index_of(s@.subrange(0, i as int), c),
        decreases i,
    {
        if s[i - 1] == c {
            return Some(i - 1);
        }
        assert(s@.subrange(0, i as int).drop_last() =~= s@.subrange(0, i - 1));
        i -= 1;
    }
    None
}

/// The characters of `s` from `from` up to `to`.
pub fn substring(s: &str, from: usize, to: usize) -> (r: String)
    requires
        from <= to <= s@.len(),
    ensures
        r@ == s@.subrange(from as int, to as int),
{
    s.substring_char(from, to).to_owned()
}

/// The base name of a path.
pub fn path_file_name(p: &str) -> (r: String)
    ensures
        r@ == file_name(p@),
{
    let cs = chars_of(p);
    proof {
        lemma_last_index_of_bounds(p@, '/');
    }
    match find_last(&cs, '/') {
        Some(k) => substring(p, k + 1, cs.len()),
        None => substring(p, 0, cs.len()),
    }
}

/// The base name of a path without its extension.
pub fn path_file_stem(p: &str) -> (r: String)
    ensures
        r@ == file_stem(p@),
{
    let name = path_file_name(p);
    let cs = chars_of(name.as_str());
    proof {
        lemma_last_index_of_bounds(name@, '.');
    }
    match find_last(&cs, '.') {
        Some(k) => {
            if k > 0 {
                substring(name.as_str(), 0, k)
            } else {
                name
            }
        },
        None => name,
    }
}

/// Whether a path names an application bundle.
pub fn path_is_bundle(p: &str) -> (r: bool)
    ensures
        r == is_bundle(p@),
{
    let name = path_file_name(p);
    let cs = chars_of(name.as_str());
    proof {
        lemma_last_index_of_bounds(name@, '.');
    }
    match find_last(&cs, '.') {
        Some(k) => {
            if k == 0 {
                return false;
            }
            let n = cs.len();
            let ghost ext = extension(name@);
            assert(ext =~= cs@.subrange(k + 1, n as int));
            if n - k != 4 {
                assert(ext.len() != bundle_extension().len());
                return false;
            }
            let r = cs[k + 1] == 'a' && cs[k + 2] == 'p' && cs[k + 3] == 'p';
            if r {
                assert(ext =~= bundle_extension());
            } else {
                assert(ext[0] != 'a' || ext[1] != 'p' || ext[2] != 'p');
            }
            r
        },
        None => false,
    }
}

/// Whether a path starts at the root.
pub fn path_is_absolute(p: &str) -> (r: bool)
    ensures
        r == is_absolute(p@),
{
    let n = p.unicode_len();
    n > 0 && p.get_char(0) == '/'
}

/// Appends the relative path `name` to `base`.
pub fn join_path(base: &str, name: &str) -> (r: String)
    requires
        !is_absolute(name@),
    ensures
        r@ == join(base@, name@),
{
    let n = base.unicode_len();
    if n == 0 {
        name.to_owned()
    } else if base.get_char(n - 1) == '/' {
        base.to_owned().concat(name)
    } else {
        let sep = "/";
        proof {
            reveal_strlit("/");
        }
        let r = base.to_owned().concat(sep).concat(name);
        assert(r@ =~= join(base@, name@));
        r
    }
}

/// Whether `p` is `dir` or lies below it.
pub fn path_within_dir(p: &str, dir: &str) -> (r: bool)
    ensures
        r == within_dir(p@, dir@),
{
    let pc = chars_of(p);
    let dc = chars_of(dir);
    let n = dc.len();
    if n == 0 || pc.len() < n {
        assert(pc@.len() != dc@.len() || n == 0);
        return false;
    }
    let mut i: usize = 0;
    while i < n
        invariant
            n == dc.len(),
            n <= pc.len(),
            i <= n,
            pc@ == p@,
            dc@ == dir@,
            pc@.subrange(0, i as int) == dc@.subrange(0, i as int),
        decreases n - i,
    {
        if pc[i] != dc[i] {
            assert(pc@.subrange(0, n as int)[i as int] != dc@[i as int]);
            assert(pc@ != dc@);
            return false;
        }
        i += 1;
        assert(pc@.subrange(0, i as int) =~= dc@.subrange(0, i as int));
    }
    assert(pc@.subrange(0, n as int) =~= dc@);
    if pc.len() == n {
        assert(pc@ =~= dc@);
        return true;
    }
    dc[n - 1] == '/' || pc[n] == '/'
}

/// The display name of a folder path.
pub fn folder_name(p: &str) -> (r: String)
    ensures
        r@ == folder_display_name(p@),
{
    let name = path_file_name(p);
    let cs = chars_of(name.as_str());
    let n = cs.len();
    let suffix = chars_of(".localized");
    proof {
        reveal_strlit(".localized");
    }
    assert(suffix@ =~= localized_suffix());
    let m = suffix.len();
    if n < m {
        return name;
    }
    let start = n - m;
    let mut i: usize = 0;
    while i < m
        invariant
            m == suffix.len(),
            start + m == n,
            n == cs.len(),
            cs@ == name@,
            name@ == file_name(p@),
            suffix@ == localized_suffix(),
            i <= m,
            forall|j: int| 0 <= j < i ==> cs@[start + j] == suffix@[j],
        decreases m - i,
    {
        if cs[start + i] != suffix[i] {
            assert(cs@.subrange(start as int, n as int)[i as int] != suffix@[i as int]);
            return name;
        }
        i += 1;
    }
    assert(cs@.subrange(start as int, n as int) =~= suffix@);
    substring(name.as_str(), 0, start)
}

} // verus!
