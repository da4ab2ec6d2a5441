use installed_apps::DirectoryFile;
use installed_apps::InstalledApp;
use installed_apps::RawDirectory;
use installed_apps::RawRegistryEntry;
use installed_apps::get_installed_apps;
use installed_apps::greet;
use installed_apps::merge_apps;
use installed_apps::scan_running_processes;

fn app(name: &str, display: &str) -> InstalledApp {
    InstalledApp {
        name: name.to_string(),
        display_name: display.to_string(),
        path: None,
        version: None,
        publisher: None,
        install_date: None,
        icon_path: None,
        category: "Other".to_string(),
    }
}

fn entry(subkey: &str, display: Option<&str>) -> RawRegistryEntry {
    RawRegistryEntry {
        subkey_name: subkey.to_string(),
        display_name: display.map(|d| d.to_string()),
        install_location: None,
        version: None,
        publisher: None,
        install_date: None,
        icon_path: None,
    }
}

#[test]
fn merge_sorts_case_insensitively() {
    let left = vec![app("n1", "cherry"), app("n2", "Banana")];
    let right = vec![app("n3", "apple")];
    let merged = merge_apps(left, right);
    let displays: Vec<&str> = merged.iter().map(|a| a.display_name.as_str()).collect();
    // byte order would put "Banana" first; case-insensitive order does not
    assert_eq!(displays, vec!["apple", "Banana", "cherry"]);
    for pair in merged.windows(2) {
        assert!(pair[0].display_name.to_lowercase() <= pair[1].display_name.to_lowercase());
    }
}

#[test]
fn adjacent_records_with_equal_name_collapse_to_the_first() {
    // same internal name, display names that differ only in case, so the
    // two records tie under the case-insensitive sort and end up adjacent
    let left = vec![app("widget", "Widget Pro")];
    let right = vec![app("widget", "widget pro")];
    let merged = merge_apps(left, right);
    assert_eq!(merged.len(), 1);
    // ties sort stably, so the registry record comes first and is kept
    assert_eq!(merged[0].display_name, "Widget Pro");
}

#[test]
fn records_with_distinct_names_all_survive() {
    let left = vec![app("a", "Tool"), app("b", "Tool")];
    let right = vec![app("c", "Tool")];
    let merged = merge_apps(left, right);
    assert_eq!(merged.len(), 3);
}

#[test]
fn non_adjacent_duplicates_are_kept() {
    // the dedup is adjacent-only: a record sorting in between hides the pair
    let left = vec![app("dup", "Alpha"), app("dup", "Zeta")];
    let right = vec![app("mid", "Middle")];
    let merged = merge_apps(left, right);
    assert_eq!(merged.len(), 3);
}

#[test]
fn scan_of_mocked_host_merges_both_sources() {
    let entries = vec![
        entry("{widget}", Some("Widget")),
        entry("{patch}", Some("Widget Update")),
    ];
    let dirs = vec![RawDirectory {
        name: "WidgetApp".to_string(),
        files: vec![DirectoryFile {
            name: "app.exe".to_string(),
            path: r"C:\Program Files\WidgetApp\app.exe".to_string(),
        }],
    }];
    let apps = get_installed_apps(entries, dirs).expect("never fails");
    assert_eq!(apps.len(), 2);
    assert_eq!(apps[0].display_name, "Widget");
    assert_eq!(apps[1].display_name, "WidgetApp");
    assert_eq!(apps[0].name, "{widget}");
    assert_eq!(apps[1].path.as_deref(), Some(r"C:\Program Files\WidgetApp\app.exe"));
}

#[test]
fn empty_host_yields_empty_list() {
    let apps = get_installed_apps(Vec::new(), Vec::new()).expect("never fails");
    assert!(apps.is_empty());
}

#[test]
fn greeting_embeds_the_name() {
    assert_eq!(greet("World"), "Hello, World! You've been greeted from Rust!");
}

#[test]
fn process_list_is_the_fixed_sample() {
    let ps = scan_running_processes().expect("never fails");
    assert_eq!(ps, vec!["chrome.exe", "firefox.exe", "notepad.exe", "code.exe"]);
}
