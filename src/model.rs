//! The values that the launcher exchanges with its presentation layer and
//! keeps on disk.
use vstd::prelude::*;

verus! {

/// A discovered application.
#[derive(Clone, Debug)]
pub struct AppInfo {
    /// The bundle's base name without its extension.
    pub name: String,
    pub path: String,
    /// A reference to its cached icon, where one is fresh.
    pub icon: Option<String>,
}

/// A directory of two or more discovered applications.
#[derive(Clone, Debug)]
pub struct FolderInfo {
    /// The directory's base name without the localized marker.
    pub name: String,
    pub path: String,
    pub apps: Vec<AppInfo>,
}

/// The answer to a listing request.
#[derive(Clone, Debug)]
pub struct AppsResponse {
    pub apps: Vec<AppInfo>,
    pub folders: Vec<FolderInfo>,
}

/// A folder that the user defined.
#[derive(Clone, Debug)]
pub struct FolderMetadata {
    /// A stable identifier chosen by the caller.
    pub id: String,
    pub name: String,
    pub app_paths: Vec<String>,
    pub created_at: u64,
}

/// The user's ordering: the top-level list and the user-defined folders.
#[derive(Clone, Debug)]
pub struct OrderConfig {
    pub main: Vec<String>,
    pub folders: Vec<FolderMetadata>,
}

/// The durable configuration document.
#[derive(Clone, Debug)]
pub struct AppConfig {
    pub version: u32,
    pub order: OrderConfig,
}

/// The version of the configuration document that this library writes.
pub const CONFIG_VERSION: u32 = 1;

impl Default for OrderConfig {
    fn default() -> (r: Self)
        ensures
            r.main@.len() == 0,
            r.folders@.len() == 0,
    {
        OrderConfig { main: Vec::new(), folders: Vec::new() }
    }
}

impl Default for AppConfig {
    fn default() -> (r: Self)
        ensures
            r.version == CONFIG_VERSION,
            r.order.main@.len() == 0,
            r.order.folders@.len() == 0,
    {
        AppConfig { version: CONFIG_VERSION, order: OrderConfig { main: Vec::new(), folders: Vec::new() } }
    }
}

/// The errors that the launcher reports.
#[derive(Clone, Debug, PartialEq, Eq)]
pub enum AppError {
    /// Input of the wrong shape or size, rejected before any change.
    Validation(String),
    /// A file system operation failed.
    Io(String),
    /// The configuration document could not be read or written as JSON.
    Json(String),
}

impl AppError {
    /// The error as a sentence.
    pub fn message(&self) -> (r: String)
        ensures
            match self {
                AppError::Validation(m) => r@ == m@,
                AppError::Io(m) => r@ == "I/O error: "@ + m@,
                AppError::Json(m) => r@ == "JSON error: "@ + m@,
            },
    {
        match self {
            AppError::Validation(m) => m.clone(),
            AppError::Io(m) => "I/O error: ".to_owned().concat(m.as_str()),
            AppError::Json(m) => "JSON error: ".to_owned().concat(m.as_str()),
        }
    }
}

} // verus!
