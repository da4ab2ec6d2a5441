//! The application record and its mathematical model.

use vstd::prelude::*;
use crate::casefold::lower_of;
use crate::text::lex_le;

verus! {

/// One installed application, as the scan reports it.
///
/// `name` is the stable internal identifier (a registry subkey name, or a
/// directory name) and is the deduplication key; `display_name` is the
/// human-readable name and the sort key. The optional fields are absent for
/// directory-discovered applications. `category` is always one of the seven
/// fixed labels.
#[derive(Debug, Clone)]
pub struct InstalledApp {
    pub name: String,
    pub display_name: String,
    pub path: Option<String>,
    pub version: Option<String>,
    pub publisher: Option<String>,
    pub install_date: Option<String>,
    pub icon_path: Option<String>,
    pub category: String,
}

/// The abstract content of an `InstalledApp`: every field as a character
/// sequence.
pub struct AppModel {
    pub name: Seq<char>,
    pub display_name: Seq<char>,
    pub path: Option<Seq<char>>,
    pub version: Option<Seq<char>>,
    pub publisher: Option<Seq<char>>,
    pub install_date: Option<Seq<char>>,
    pub icon_path: Option<Seq<char>>,
    pub category: Seq<char>,
}

impl View for InstalledApp {
    type V = AppModel;

    open spec fn view(&self) -> AppModel {
        AppModel {
            name: self.name@,
            display_name: self.display_name@,
            path: self.path.deep_view(),
            version: self.version.deep_view(),
            publisher: self.publisher.deep_view(),
            install_date: self.install_date.deep_view(),
            icon_path: self.icon_path.deep_view(),
            category: self.category@,
        }
    }
}

impl DeepView for InstalledApp {
    type V = AppModel;

    open spec fn deep_view(&self) -> AppModel {
        self.view()
    }
}

/// The models of a sequence of records, in order.
pub open spec fn models_of(s: Seq<InstalledApp>) -> Seq<AppModel> {
    s.map_values(|a: InstalledApp| a@)
}

/// The sort key of a record: its case-folded display name.
pub open spec fn sort_key(a: AppModel) -> Seq<char> {
    lower_of(a.display_name)
}

/// `a` sorts no later than `b`: display names compare case-insensitively.
pub open spec fn app_le(a: AppModel, b: AppModel) -> bool {
    lex_le(sort_key(a), sort_key(b))
}

} // verus!
