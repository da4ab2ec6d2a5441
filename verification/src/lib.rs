//! Enumerates software installed on a Windows host and tags each entry with a
//! coarse category.
//!
//! The library is the pure core of the scan: deciding which raw registry
//! entries and directory listings become application records, categorizing
//! each record by keyword, and merging the two result sets into one sorted,
//! deduplicated list. Reading the registry and the filesystem is left to the
//! surrounding application, which hands the raw values in as plain data.

pub mod apps;
pub mod casefold;
pub mod category;
pub mod commands;
pub mod directory;
pub mod merge;
pub mod registry;
pub mod text;

pub use apps::InstalledApp;
pub use category::categorize_app;
pub use category::categorize_lowered;
pub use commands::get_installed_apps;
pub use commands::greet;
pub use commands::scan_running_processes;
pub use directory::DirectoryFile;
pub use directory::RawDirectory;
pub use directory::app_from_directory;
pub use directory::apps_from_directories;
pub use directory::find_main_executable;
pub use merge::merge_apps;
pub use registry::RawRegistryEntry;
pub use registry::app_from_registry_entry;
pub use registry::apps_from_registry_entries;
