//! The query surface the host application calls.
//!
//! `get_installed_apps` is the scan's pure core: it takes the raw registry
//! and directory data that the caller read from the host and produces the
//! merged, categorized list. The other two commands are a fixed greeting and
//! a placeholder process list.

use vstd::prelude::*;
use vstd::string::StringExecFns;
use crate::apps::InstalledApp;
use crate::apps::AppModel;
use crate::apps::models_of;
use crate::directory::RawDirectory;
use crate::directory::apps_from_directories;
use crate::directory::directory_apps_of;
use crate::merge::merge_apps;
use crate::merge::merged;
use crate::registry::RawRegistryEntry;
use crate::registry::apps_from_registry_entries;
use crate::registry::registry_apps_of;

verus! {

/// The full scan result for given raw data: registry records first,
/// directory records appended, then sorted and deduplicated.
pub open spec fn installed_apps_of(
    entries: Seq<RawRegistryEntry>,
    dirs: Seq<RawDirectory>,
) -> Seq<AppModel> {
    merged(registry_apps_of(entries) + directory_apps_of(dirs))
}

/// Builds the merged application list from the raw registry subkeys and
/// directory listings read from the host. Never fails: unreadable keys,
/// values or directories simply appear as missing data in the input.
pub fn get_installed_apps(entries: Vec<RawRegistryEntry>, dirs: Vec<RawDirectory>) -> (r: Result<
    Vec<InstalledApp>,
    String,
>)
    ensures
        r matches Ok(apps) && models_of(apps@) == installed_apps_of(entries@, dirs@),
{
    let registry_apps = apps_from_registry_entries(entries);
    let directory_apps = apps_from_directories(dirs);
    Ok(merge_apps(registry_apps, directory_apps))
}

/// The fixed greeting.
pub fn greet(name: &str) -> (r: String)
    ensures
        r@ == "Hello, "@ + name@ + "! You've been greeted from Rust!"@,
{
    let mut r = String::from_str("Hello, ");
    r.append(name);
    r.append("! You've been greeted from Rust!");
    r
}

/// The placeholder process list: a fixed sample, no real scan.
pub fn scan_running_processes() -> (r: Result<Vec<String>, String>)
    ensures
        r matches Ok(ps) && ps@.len() == 4 && ps@[0]@ == "chrome.exe"@ && ps@[1]@ == "firefox.exe"@
            && ps@[2]@ == "notepad.exe"@ && ps@[3]@ == "code.exe"@,
{
    let mut ps: Vec<String> = Vec::new();
    ps.push(String::from_str("chrome.exe"));
    ps.push(String::from_str("firefox.exe"));
    ps.push(String::from_str("notepad.exe"));
    ps.push(String::from_str("code.exe"));
    Ok(ps)
}

} // verus!
