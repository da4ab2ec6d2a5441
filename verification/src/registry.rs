//! Turns raw uninstall-registry values into application records.
//!
//! The caller reads the two uninstall locations (native and 32-bit) from the
//! host and hands in, for each subkey, the subkey's own name and the six
//! optional string values found under it. A subkey without a display name is
//! not an application; a display name that looks like an OS patch, a
//! redistributable runtime, or noise is filtered out.

use vstd::prelude::*;
use vstd::string::StrSliceExecFns;
use crate::apps::AppModel;
use crate::apps::InstalledApp;
use crate::apps::models_of;
use crate::casefold::lower_of;
use crate::category::categorize_app;
use crate::category::category_of;
use crate::text::contains_seq;
use crate::text::contains_str;
use crate::text::starts_with_seq;
use crate::text::starts_with_str;

verus! {

/// The raw values read from one uninstall-registry subkey: the subkey's own
/// name, and the six optional string values under it. A value that is
/// missing or unreadable is `None`.
#[derive(Debug, Clone)]
pub struct RawRegistryEntry {
    pub subkey_name: String,
    pub display_name: Option<String>,
    pub install_location: Option<String>,
    pub version: Option<String>,
    pub publisher: Option<String>,
    pub install_date: Option<String>,
    pub icon_path: Option<String>,
}

/// A display name that the registry scan rejects: OS updates and hotfixes,
/// Visual C++ redistributables, and names of two characters or fewer.
pub open spec fn excluded_display_name(n: Seq<char>) -> bool {
    contains_seq(n, "Update"@) || contains_seq(n, "Hotfix"@) || contains_seq(n, "Security Update"@)
        || starts_with_seq(n, "Microsoft Visual C++"@) || n.len() <= 2
}

/// The record a registry subkey yields: `None` when the subkey has no
/// display name or an excluded one, and otherwise a record carrying the
/// subkey name as identifier, the six values, and the computed category.
pub open spec fn registry_app_of(e: RawRegistryEntry) -> Option<AppModel> {
    match e.display_name {
        None => None,
        Some(d) => if excluded_display_name(d@) {
            None
        } else {
            Some(
                AppModel {
                    name: e.subkey_name@,
                    display_name: d@,
                    path: e.install_location.deep_view(),
                    version: e.version.deep_view(),
                    publisher: e.publisher.deep_view(),
                    install_date: e.install_date.deep_view(),
                    icon_path: e.icon_path.deep_view(),
                    category: category_of(lower_of(d@)),
                },
            )
        },
    }
}

/// The records of a whole list of subkeys, in order, with the rejected ones
/// contributing nothing.
pub open spec fn registry_apps_of(s: Seq<RawRegistryEntry>) -> Seq<AppModel>
    decreases s.len(),
{
    if s.len() == 0 {
        Seq::empty()
    } else {
        registry_apps_of(s.drop_last()) + match registry_app_of(s.last()) {
            None => Seq::empty(),
            Some(m) => seq![m],
        }
    }
}

/// A display name of two characters or fewer is always excluded, whatever
/// those characters are.
pub proof fn lemma_short_display_name_excluded(n: Seq<char>)
    requires
        n.len() <= 2,
    ensures
        excluded_display_name(n),
{
}

/// Decides whether a display name is one the registry scan rejects.
pub fn is_excluded_display_name(n: &str) -> (r: bool)
    ensures
        r == excluded_display_name(n@),
{
    contains_str(n, "Update") || contains_str(n, "Hotfix") || contains_str(n, "Security Update")
        || starts_with_str(n, "Microsoft Visual C++") || n.unicode_len() <= 2
}

/// Builds the record for one registry subkey, or rejects it.
pub fn app_from_registry_entry(e: RawRegistryEntry) -> (r: Option<InstalledApp>)
    ensures
        r.deep_view() == registry_app_of(e),
{
    let RawRegistryEntry {
        subkey_name,
        display_name,
        install_location,
        version,
        publisher,
        install_date,
        icon_path,
    } = e;
    match display_name {
        None => None,
        Some(d) => {
            if is_excluded_display_name(d.as_str()) {
                None
            } else {
                let category = categorize_app(d.as_str());
                Some(
                    InstalledApp {
                        name: subkey_name,
                        display_name: d,
                        path: install_location,
                        version,
                        publisher,
                        install_date,
                        icon_path,
                        category,
                    },
                )
            }
        },
    }
}

/// Builds the records for a whole list of subkeys, skipping the rejected
/// ones.
pub fn apps_from_registry_entries(entries: Vec<RawRegistryEntry>) -> (r: Vec<InstalledApp>)
    ensures
        models_of(r@) == registry_apps_of(entries@),
{
    let ghost orig = entries@;
    let mut entries = entries;
    let mut out: Vec<InstalledApp> = Vec::new();
    let ghost mut k: int = 0;
    proof {
        assert(orig.take(0) =~= Seq::<RawRegistryEntry>::empty());
        assert(models_of(out@) =~= registry_apps_of(orig.take(0)));
    }
    while entries.len() > 0
        invariant
            0 <= k <= orig.len(),
            entries@ =~= orig.skip(k),
            models_of(out@) == registry_apps_of(orig.take(k)),
        decreases entries@.len(),
    {
        let ghost out_before = out@;
        let e = entries.remove(0);
        assert(e == orig[k]);
        match app_from_registry_entry(e) {
            None => {},
            Some(a) => {
                out.push(a);
                assert(models_of(out@) =~= models_of(out_before).push(a@));
            },
        }
        proof {
            assert(orig.take(k + 1).drop_last() =~= orig.take(k));
            assert(orig.take(k + 1).last() == orig[k]);
            assert(entries@ =~= orig.skip(k + 1));
            k = k + 1;
        }
    }
    proof {
        assert(orig.take(k) =~= orig);
    }
    out
}

} // verus!
