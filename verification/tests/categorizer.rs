use installed_apps::categorize_app;
use installed_apps::categorize_lowered;

#[test]
fn gaming_keywords_map_to_gaming() {
    assert_eq!(categorize_app("Steam"), "Gaming");
    assert_eq!(categorize_app("Epic Games Launcher"), "Gaming");
    assert_eq!(categorize_app("Battle.net"), "Gaming");
}

#[test]
fn communication_keywords_map_to_communication() {
    assert_eq!(categorize_app("Discord"), "Communication");
    assert_eq!(categorize_app("Zoom Workplace"), "Communication");
    assert_eq!(categorize_app("Telegram Desktop"), "Communication");
}

#[test]
fn entertainment_keywords_map_to_entertainment() {
    assert_eq!(categorize_app("Spotify"), "Entertainment");
    assert_eq!(categorize_app("VLC media player"), "Entertainment");
}

#[test]
fn browser_keywords_map_to_web_browser() {
    assert_eq!(categorize_app("Google Chrome"), "Web Browser");
    assert_eq!(categorize_app("Mozilla Firefox"), "Web Browser");
    assert_eq!(categorize_app("Opera GX"), "Web Browser");
}

#[test]
fn development_keywords_map_to_development() {
    assert_eq!(categorize_app("Visual Studio Community"), "Development");
    assert_eq!(categorize_app("Git for Windows"), "Development");
    assert_eq!(categorize_app("Python 3.12"), "Development");
}

#[test]
fn productivity_keywords_map_to_productivity() {
    assert_eq!(categorize_app("Microsoft Office"), "Productivity");
    assert_eq!(categorize_app("Notepad++"), "Productivity");
}

#[test]
fn unmatched_name_maps_to_other() {
    assert_eq!(categorize_app("Blender"), "Other");
    assert_eq!(categorize_app(""), "Other");
}

#[test]
fn gaming_wins_over_communication() {
    // both "game" and "discord" occur; the first matching set decides
    assert_eq!(categorize_app("Game Discord Launcher"), "Gaming");
}

#[test]
fn matching_ignores_case_of_the_name() {
    // fails if the name is not lowercased before keyword matching
    assert_eq!(categorize_app("STEAM"), "Gaming");
    assert_eq!(categorize_app("DiScOrD"), "Communication");
}

#[test]
fn substring_matching_can_overreach() {
    // short keywords match inside unrelated words; kept as-is by design
    assert_eq!(categorize_app("Codec Pack"), "Development");
    assert_eq!(categorize_app("Digital Photo Editor"), "Development");
}

#[test]
fn lowered_names_are_categorized_directly() {
    assert_eq!(categorize_lowered("steam"), "Gaming");
    assert_eq!(categorize_lowered("plain tool"), "Other");
}
