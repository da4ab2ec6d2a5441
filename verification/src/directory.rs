//! Infers application records from installation-directory listings.
//!
//! The caller lists each well-known root one level deep and hands in, for
//! every child directory, the directory's name and the names and full paths
//! of the files directly inside it. A child directory yields a record only
//! when it holds a plausible main executable: the first file whose name ends
//! in ".exe" and contains neither "uninstall" nor "setup" (both checks on
//! the literal text, case-sensitively).

use vstd::prelude::*;
use crate::apps::AppModel;
use crate::apps::InstalledApp;
use crate::apps::models_of;
use crate::casefold::lower_of;
use crate::category::categorize_app;
use crate::category::category_of;
use crate::text::contains_seq;
use crate::text::contains_str;
use crate::text::ends_with_seq;
use crate::text::ends_with_str;

verus! {

/// One file found directly inside a child directory: its bare name and its
/// full path.
#[derive(Debug, Clone)]
pub struct DirectoryFile {
    pub name: String,
    pub path: String,
}

/// One child directory of a scanned root: its own name and the files
/// directly inside it, in listing order.
#[derive(Debug, Clone)]
pub struct RawDirectory {
    pub name: String,
    pub files: Vec<DirectoryFile>,
}

/// A file name that counts as a main executable.
pub open spec fn qualifying_executable(n: Seq<char>) -> bool {
    ends_with_seq(n, ".exe"@) && !contains_seq(n, "uninstall"@) && !contains_seq(n, "setup"@)
}

/// The position of the first qualifying executable in a listing, if any.
pub open spec fn first_executable_index(files: Seq<DirectoryFile>) -> Option<int>
    decreases files.len(),
{
    if files.len() == 0 {
        None
    } else if qualifying_executable(files[0].name@) {
        Some(0)
    } else {
        match first_executable_index(files.drop_first()) {
            None => None,
            Some(i) => Some(i + 1),
        }
    }
}

/// The record a child directory yields: `None` when it holds no qualifying
/// executable, and otherwise a record named after the directory, whose path
/// is the first qualifying executable's, with no version, publisher, date
/// or icon.
pub open spec fn directory_app_of(d: RawDirectory) -> Option<AppModel> {
    match first_executable_index(d.files@) {
        None => None,
        Some(i) => Some(
            AppModel {
                name: d.name@,
                display_name: d.name@,
                path: Some(d.files@[i].path@),
                version: None,
                publisher: None,
                install_date: None,
                icon_path: None,
                category: category_of(lower_of(d.name@)),
            },
        ),
    }
}

/// The records of a whole list of child directories, in order, with the
/// skipped ones contributing nothing.
pub open spec fn directory_apps_of(s: Seq<RawDirectory>) -> Seq<AppModel>
    decreases s.len(),
{
    if s.len() == 0 {
        Seq::empty()
    } else {
        directory_apps_of(s.drop_last()) + match directory_app_of(s.last()) {
            None => Seq::empty(),
            Some(m) => seq![m],
        }
    }
}

/// Decides whether a file name counts as a main executable.
pub fn is_qualifying_executable(n: &str) -> (r: bool)
    ensures
        r == qualifying_executable(n@),
{
    ends_with_str(n, ".exe") && !contains_str(n, "uninstall") && !contains_str(n, "setup")
}

proof fn lemma_first_executable_found(files: Seq<DirectoryFile>, i: int)
    requires
        0 <= i < files.len(),
        qualifying_executable(files[i].name@),
        forall|j: int| 0 <= j < i ==> !qualifying_executable(#[trigger] files[j].name@),
    ensures
        first_executable_index(files) == Some(i),
    decreases i,
{
    if i > 0 {
        assert(!qualifying_executable(files[0].name@));
        assert(files.drop_first()[i - 1] == files[i]);
        assert(forall|j: int|
            0 <= j < i - 1 ==> #[trigger] files.drop_first()[j] == files[j + 1]);
        lemma_first_executable_found(files.drop_first(), i - 1);
    }
}

proof fn lemma_no_executable(files: Seq<DirectoryFile>)
    requires
        forall|j: int| 0 <= j < files.len() ==> !qualifying_executable(#[trigger] files[j].name@),
    ensures
        first_executable_index(files) is None,
    decreases files.len(),
{
    if files.len() > 0 {
        assert(forall|j: int|
            0 <= j < files.len() - 1 ==> #[trigger] files.drop_first()[j] == files[j + 1]);
        lemma_no_executable(files.drop_first());
    }
}

/// Finds the path of the first qualifying executable in a listing.
pub fn find_main_executable(files: &Vec<DirectoryFile>) -> (r: Option<String>)
    ensures
        (match first_executable_index(files@) {
            None => r is None,
            Some(i) => r matches Some(p) && p@ == files@[i].path@,
        }),
{
    let mut i: usize = 0;
    while i < files.len()
        invariant
            i <= files@.len(),
            forall|j: int| 0 <= j < i ==> !qualifying_executable(#[trigger] files@[j].name@),
        decreases files@.len() - i,
    {
        if is_qualifying_executable(files[i].name.as_str()) {
            proof {
                lemma_first_executable_found(files@, i as int);
            }
            return Some(files[i].path.clone());
        }
        i += 1;
    }
    proof {
        lemma_no_executable(files@);
    }
    None
}

/// Builds the record for one child directory, or skips it.
pub fn app_from_directory(d: RawDirectory) -> (r: Option<InstalledApp>)
    ensures
        r.deep_view() == directory_app_of(d),
{
    match find_main_executable(&d.files) {
        None => None,
        Some(p) => {
            let category = categorize_app(d.name.as_str());
            let display_name = d.name.clone();
            Some(
                InstalledApp {
                    name: d.name,
                    display_name,
                    path: Some(p),
                    version: None,
                    publisher: None,
                    install_date: None,
                    icon_path: None,
                    category,
                },
            )
        },
    }
}

/// Builds the records for a whole list of child directories, skipping those
/// without a qualifying executable.
pub fn apps_from_directories(dirs: Vec<RawDirectory>) -> (r: Vec<InstalledApp>)
    ensures
        models_of(r@) == directory_apps_of(dirs@),
{
    let ghost orig = dirs@;
    let mut dirs = dirs;
    let mut out: Vec<InstalledApp> = Vec::new();
    let ghost mut k: int = 0;
    proof {
        assert(orig.take(0) =~= Seq::<RawDirectory>::empty());
        assert(models_of(out@) =~= directory_apps_of(orig.take(0)));
    }
    while dirs.len() > 0
        invariant
            0 <= k <= orig.len(),
            dirs@ =~= orig.skip(k),
            models_of(out@) == directory_apps_of(orig.take(k)),
        decreases dirs@.len(),
    {
        let ghost out_before = out@;
        let d = dirs.remove(0);
        assert(d == orig[k]);
        match app_from_directory(d) {
            None => {},
            Some(a) => {
                out.push(a);
                assert(models_of(out@) =~= models_of(out_before).push(a@));
            },
        }
        proof {
            assert(orig.take(k + 1).drop_last() =~= orig.take(k));
            assert(orig.take(k + 1).last() == orig[k]);
            assert(dirs@ =~= orig.skip(k + 1));
            k = k + 1;
        }
    }
    proof {
        assert(orig.take(k) =~= orig);
    }
    out
}

} // verus!
