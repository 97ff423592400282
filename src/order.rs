//! The staged ordering: updates are checked against fixed bounds and, once
//! accepted, replace what was staged, without touching the disk.
use vstd::prelude::*;
use vstd::utf8::encode_utf8;
use crate::model::{AppError, FolderMetadata, OrderConfig};

verus! {

/// At most this many entries in the top-level list.
pub const MAX_MAIN_ENTRIES: usize = 1000;

/// At most this many user-defined folders.
pub const MAX_FOLDERS: usize = 200;

/// At most this many paths in one folder.
pub const MAX_FOLDER_APPS: usize = 500;

/// At most this many bytes in one string field.
pub const MAX_STRING_LEN: usize = 1024;

/// The UTF-8 length of a string.
pub open spec fn byte_len(s: Seq<char>) -> nat {
    encode_utf8(s).len()
}

/// The bound that an ordering update breaks.
#[derive(Clone, Copy, Debug, PartialEq, Eq)]
pub enum OrderViolation {
    TooManyMainEntries,
    TooManyFolders,
    MainEntryTooLong,
    FolderFieldTooLong,
    TooManyFolderApps,
    FolderAppPathTooLong,
}

impl OrderViolation {
    /// The text of the validation error.
    pub fn message(self) -> (r: String)
        ensures
            r@ == violation_message(self),
    {
        match self {
            OrderViolation::TooManyMainEntries => "Too many main entries".to_owned(),
            OrderViolation::TooManyFolders => "Too many folders".to_owned(),
            OrderViolation::MainEntryTooLong => "Main entry too long".to_owned(),
            OrderViolation::FolderFieldTooLong => "Folder field too long".to_owned(),
            OrderViolation::TooManyFolderApps => "Too many apps in folder".to_owned(),
            OrderViolation::FolderAppPathTooLong => "Folder app path too long".to_owned(),
        }
    }
}

pub open spec fn violation_message(v: OrderViolation) -> Seq<char> {
    match v {
        OrderViolation::TooManyMainEntries => "Too many main entries"@,
        OrderViolation::TooManyFolders => "Too many folders"@,
        OrderViolation::MainEntryTooLong => "Main entry too long"@,
        OrderViolation::FolderFieldTooLong => "Folder field too long"@,
        OrderViolation::TooManyFolderApps => "Too many apps in folder"@,
        OrderViolation::FolderAppPathTooLong => "Folder app path too long"@,
    }
}

/// Some string of `s` is longer than the bound.
pub open spec fn any_too_long(s: Seq<String>) -> bool {
    exists|i: int| 0 <= i < s.len() && byte_len(#[trigger] s[i]@) > MAX_STRING_LEN
}

/// The first bound that one folder breaks, in the order checked.
pub open spec fn folder_violation(f: FolderMetadata) -> Option<OrderViolation> {
    if byte_len(f.id@) > MAX_STRING_LEN || byte_len(f.name@) > MAX_STRING_LEN {
        Some(OrderViolation::FolderFieldTooLong)
    } else if f.app_paths.len() > MAX_FOLDER_APPS {
        Some(OrderViolation::TooManyFolderApps)
    } else if any_too_long(f.app_paths@) {
        Some(OrderViolation::FolderAppPathTooLong)
    } else {
        None
    }
}

/// The violation of the first folder of `folders` that breaks a bound.
pub open spec fn first_folder_violation(folders: Seq<FolderMetadata>) -> Option<OrderViolation>
    decreases folders.len(),
{
    if folders.len() == 0 {
        None
    } else {
        match folder_violation(folders[0]) {
            Some(v) => Some(v),
            None => first_folder_violation(folders.drop_first()),
        }
    }
}

/// The bound that an update breaks, if any: the counts first, then the
/// top-level entries, then each folder in turn.
pub open spec fn order_violation(main: Seq<String>, folders: Seq<FolderMetadata>) -> Option<
    OrderViolation,
> {
    if main.len() > MAX_MAIN_ENTRIES {
        Some(OrderViolation::TooManyMainEntries)
    } else if folders.len() > MAX_FOLDERS {
        Some(OrderViolation::TooManyFolders)
    } else if any_too_long(main) {
        Some(OrderViolation::MainEntryTooLong)
    } else {
        first_folder_violation(folders)
    }
}

/// Whether some string of `s` is longer than the bound.
fn find_too_long(s: &Vec<String>) -> (r: bool)
    ensures
        r == any_too_long(s@),
{
    let mut i: usize = 0;
    while i < s.len()
        invariant
            i <= s.len(),
            forall|j: int| 0 <= j < i ==> byte_len(#[trigger] s[j]@) <= MAX_STRING_LEN,
        decreases s.len() - i,
    {
        if s[i].as_str().as_bytes().len() > MAX_STRING_LEN {
            return true;
        }
        i += 1;
    }
    false
}

/// The first bound that one folder breaks.
fn check_folder(f: &FolderMetadata) -> (r: Option<OrderViolation>)
    ensures
        r == folder_violation(*f),
{
    if f.id.as_str().as_bytes().len() > MAX_STRING_LEN || f.name.as_str().as_bytes().len() > MAX_STRING_LEN {
        return Some(OrderViolation::FolderFieldTooLong);
    }
    if f.app_paths.len() > MAX_FOLDER_APPS {
        return Some(OrderViolation::TooManyFolderApps);
    }
    if find_too_long(&f.app_paths) {
        return Some(OrderViolation::FolderAppPathTooLong);
    }
    None
}

/// The bound that an update breaks, if any.
pub fn check_order(main: &Vec<String>, folders: &Vec<FolderMetadata>) -> (r: Option<OrderViolation>)
    ensures
        r == order_violation(main@, folders@),
{
    if main.len() > MAX_MAIN_ENTRIES {
        return Some(OrderViolation::TooManyMainEntries);
    }
    if folders.len() > MAX_FOLDERS {
        return Some(OrderViolation::TooManyFolders);
    }
    if find_too_long(main) {
        return Some(OrderViolation::MainEntryTooLong);
    }
    let mut i: usize = 0;
    assert(folders@.skip(0) =~= folders@);
    while i < folders.len()
        invariant
            i <= folders.len(),
            main.len() <= MAX_MAIN_ENTRIES,
            folders.len() <= MAX_FOLDERS,
            !any_too_long(main@),
            first_folder_violation(folders@) == first_folder_violation(folders@.skip(i as int)),
        decreases folders.len() - i,
    {
        let v = check_folder(&folders[i]);
        assert(folders@.skip(i as int)[0] == folders[i as int]);
        if v.is_some() {
            return v;
        }
        assert(folders@.skip(i as int).drop_first() =~= folders@.skip(i + 1));
        i += 1;
    }
    None
}

/// The staging area of the user's ordering. Nothing is staged at first;
/// each accepted update replaces what was staged, so what is staged always
/// keeps within the bounds.
pub struct OrderStore {
    staged: Option<OrderConfig>,
}

impl OrderStore {
    /// What is staged.
    pub closed spec fn staged_order(&self) -> Option<OrderConfig> {
        self.staged
    }

    /// A staged ordering keeps within the bounds.
    pub closed spec fn wf(&self) -> bool {
        self.staged matches Some(o) ==> order_violation(o.main@, o.folders@) is None
    }

    /// A store with nothing staged.
    pub fn new() -> (r: Self)
        ensures
            r.wf(),
            r.staged_order() is None,
    {
        OrderStore { staged: None }
    }

    /// What is staged.
    pub fn staged(&self) -> (r: &Option<OrderConfig>)
        ensures
            *r == self.staged_order(),
    {
        &self.staged
    }

    /// Stages a new ordering, replacing the staged one as a whole, unless it
    /// breaks a bound: then it reports which and leaves the store as it was.
    /// No disk access.
    pub fn update_order(&mut self, main: Vec<String>, folders: Vec<FolderMetadata>) -> (r: Result<
        (),
        AppError,
    >)
        requires
            old(self).wf(),
        ensures
            final(self).wf(),
            match order_violation(main@, folders@) {
                None => r is Ok && final(self).staged_order() == Some(
                    OrderConfig { main: main, folders: folders },
                ),
                Some(v) => *final(self) == *old(self) && (r matches Err(AppError::Validation(m))
                    && m@ == violation_message(v)),
            },
    {
        match check_order(&main, &folders) {
            Some(v) => Err(AppError::Validation(v.message())),
            None => {
                self.staged = Some(OrderConfig { main, folders });
                Ok(())
            },
        }
    }
}

/// An update whose top-level list is one entry over the bound breaks the
/// top-level bound, whatever its folders hold; `update_order` therefore
/// refuses it and leaves the store as it was.
pub proof fn lemma_oversized_main_list_rejected(main: Seq<String>, folders: Seq<FolderMetadata>)
    requires
        main.len() == MAX_MAIN_ENTRIES + 1,
    ensures
        order_violation(main, folders) == Some(OrderViolation::TooManyMainEntries),
{
}

} // verus!
