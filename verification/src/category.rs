//! Assigns each application name one of seven fixed category labels.
//!
//! The name is lowercased and tested against six keyword sets in a fixed
//! precedence order; the first set with a matching keyword wins, and a name
//! matching none of them is "Other". Matching is substring containment, not
//! whole-word: a short keyword such as "code" or "git" may match unrelated
//! names, and that imprecision is part of the behaviour, not corrected here.

use vstd::prelude::*;
use vstd::string::StringExecFns;
use crate::casefold::lower_of;
use crate::casefold::lowercase;
use crate::text::contains_seq;
use crate::text::contains_str;

verus! {

/// A gaming keyword occurs in the (lowercased) name.
pub open spec fn has_gaming_keyword(l: Seq<char>) -> bool {
    contains_seq(l, "game"@) || contains_seq(l, "steam"@) || contains_seq(l, "epic"@)
        || contains_seq(l, "origin"@) || contains_seq(l, "uplay"@) || contains_seq(
        l,
        "battle.net"@,
    )
}

/// A communication keyword occurs in the (lowercased) name.
pub open spec fn has_communication_keyword(l: Seq<char>) -> bool {
    contains_seq(l, "discord"@) || contains_seq(l, "slack"@) || contains_seq(l, "teams"@)
        || contains_seq(l, "zoom"@) || contains_seq(l, "skype"@) || contains_seq(l, "whatsapp"@)
        || contains_seq(l, "telegram"@)
}

/// An entertainment keyword occurs in the (lowercased) name.
pub open spec fn has_entertainment_keyword(l: Seq<char>) -> bool {
    contains_seq(l, "spotify"@) || contains_seq(l, "netflix"@) || contains_seq(l, "youtube"@)
        || contains_seq(l, "vlc"@) || contains_seq(l, "media"@) || contains_seq(l, "video"@)
        || contains_seq(l, "music"@)
}

/// A web-browser keyword occurs in the (lowercased) name.
pub open spec fn has_browser_keyword(l: Seq<char>) -> bool {
    contains_seq(l, "chrome"@) || contains_seq(l, "firefox"@) || contains_seq(l, "edge"@)
        || contains_seq(l, "safari"@) || contains_seq(l, "opera"@) || contains_seq(l, "browser"@)
}

/// A development keyword occurs in the (lowercased) name.
pub open spec fn has_development_keyword(l: Seq<char>) -> bool {
    contains_seq(l, "visual studio"@) || contains_seq(l, "code"@) || contains_seq(l, "git"@)
        || contains_seq(l, "node"@) || contains_seq(l, "python"@) || contains_seq(l, "developer"@)
        || contains_seq(l, "programming"@)
}

/// A productivity keyword occurs in the (lowercased) name.
pub open spec fn has_productivity_keyword(l: Seq<char>) -> bool {
    contains_seq(l, "office"@) || contains_seq(l, "word"@) || contains_seq(l, "excel"@)
        || contains_seq(l, "powerpoint"@) || contains_seq(l, "outlook"@) || contains_seq(
        l,
        "notepad"@,
    ) || contains_seq(l, "calculator"@)
}

/// The category label for a lowercased name: the first keyword set that
/// matches decides, and "Other" is the default.
pub open spec fn category_of(l: Seq<char>) -> Seq<char> {
    if has_gaming_keyword(l) {
        "Gaming"@
    } else if has_communication_keyword(l) {
        "Communication"@
    } else if has_entertainment_keyword(l) {
        "Entertainment"@
    } else if has_browser_keyword(l) {
        "Web Browser"@
    } else if has_development_keyword(l) {
        "Development"@
    } else if has_productivity_keyword(l) {
        "Productivity"@
    } else {
        "Other"@
    }
}

/// The category of a name that has already been lowercased.
pub fn categorize_lowered(lower: &str) -> (r: String)
    ensures
        r@ == category_of(lower@),
{
    if contains_str(lower, "game") || contains_str(lower, "steam") || contains_str(lower, "epic")
        || contains_str(lower, "origin") || contains_str(lower, "uplay") || contains_str(
        lower,
        "battle.net",
    ) {
        String::from_str("Gaming")
    } else if contains_str(lower, "discord") || contains_str(lower, "slack") || contains_str(
        lower,
        "teams",
    ) || contains_str(lower, "zoom") || contains_str(lower, "skype") || contains_str(
        lower,
        "whatsapp",
    ) || contains_str(lower, "telegram") {
        String::from_str("Communication")
    } else if contains_str(lower, "spotify") || contains_str(lower, "netflix") || contains_str(
        lower,
        "youtube",
    ) || contains_str(lower, "vlc") || contains_str(lower, "media") || contains_str(lower, "video")
        || contains_str(lower, "music") {
        String::from_str("Entertainment")
    } else if contains_str(lower, "chrome") || contains_str(lower, "firefox") || contains_str(
        lower,
        "edge",
    ) || contains_str(lower, "safari") || contains_str(lower, "opera") || contains_str(
        lower,
        "browser",
    ) {
        String::from_str("Web Browser")
    } else if contains_str(lower, "visual studio") || contains_str(lower, "code") || contains_str(
        lower,
        "git",
    ) || contains_str(lower, "node") || contains_str(lower, "python") || contains_str(
        lower,
        "developer",
    ) || contains_str(lower, "programming") {
        String::from_str("Development")
    } else if contains_str(lower, "office") || contains_str(lower, "word") || contains_str(
        lower,
        "excel",
    ) || contains_str(lower, "powerpoint") || contains_str(lower, "outlook") || contains_str(
        lower,
        "notepad",
    ) || contains_str(lower, "calculator") {
        String::from_str("Productivity")
    } else {
        String::from_str("Other")
    }
}

/// The category label of an application name.
pub fn categorize_app(name: &str) -> (r: String)
    ensures
        r@ == category_of(lower_of(name@)),
{
    let lower = lowercase(name);
    categorize_lowered(lower.as_str())
}

/// Every name gets exactly one of the seven labels, and never an empty one.
pub proof fn lemma_category_is_one_of_seven(l: Seq<char>)
    ensures
        category_of(l) == "Gaming"@ || category_of(l) == "Communication"@ || category_of(l)
            == "Entertainment"@ || category_of(l) == "Web Browser"@ || category_of(l)
            == "Development"@ || category_of(l) == "Productivity"@ || category_of(l) == "Other"@,
        category_of(l).len() > 0,
{
    reveal_strlit("Gaming");
    reveal_strlit("Communication");
    reveal_strlit("Entertainment");
    reveal_strlit("Web Browser");
    reveal_strlit("Development");
    reveal_strlit("Productivity");
    reveal_strlit("Other");
}

/// Precedence: a name containing a gaming keyword is "Gaming", whatever
/// other keywords it also contains.
pub proof fn lemma_gaming_takes_precedence(l: Seq<char>)
    requires
        has_gaming_keyword(l),
    ensures
        category_of(l) == "Gaming"@,
{
}

} // verus!
