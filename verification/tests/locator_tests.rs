use material_deploy::locator::{
    find_tool_in, known_tool_locations, names_tool, tool_search_roots, Locator, LocatorAction,
    LocatorEvent, LocatorPhase, SEARCH_DEPTH,
};
use std::collections::{HashMap, HashSet};

const KNOWN_X86: &str = "C:\\\\Program Files (x86)\\\\IObit\\\\IObit Unlocker\\\\IObitUnlocker.exe";
const KNOWN_64: &str = "C:\\\\Program Files\\\\IObit\\\\IObit Unlocker\\\\IObitUnlocker.exe";
const ROOT_64: &str = "C:\\\\Program Files";
const ROOT_X86: &str = "C:\\\\Program Files (x86)";

struct Disk {
    pointer: Option<String>,
    existing: HashSet<String>,
    listings: HashMap<String, Vec<String>>,
}

fn disk() -> Disk {
    Disk { pointer: None, existing: HashSet::new(), listings: HashMap::new() }
}

fn locate(disk: &Disk) -> (Option<String>, Vec<String>) {
    let mut locator = Locator::new();
    let mut asked: Vec<String> = Vec::new();
    let mut event = LocatorEvent::Begin;
    for _ in 0..20 {
        match locator.step(event) {
            LocatorAction::ReadOverride => {
                asked.push("read".to_string());
                event = LocatorEvent::OverrideText { text: disk.pointer.clone() };
            }
            LocatorAction::ProbePath { path } => {
                event = LocatorEvent::Exists { found: disk.existing.contains(&path) };
                asked.push(format!("probe {path}"));
            }
            LocatorAction::ListTree { root, max_depth } => {
                assert_eq!(max_depth, 3);
                event = LocatorEvent::Listing {
                    paths: disk.listings.get(&root).cloned().unwrap_or_default(),
                };
                asked.push(format!("list {root}"));
            }
            LocatorAction::Finish { found } => {
                assert_eq!(locator.phase(), LocatorPhase::Finished);
                return (found, asked);
            }
        }
    }
    panic!("the search did not end");
}

#[test]
fn the_lists_of_places() {
    assert_eq!(known_tool_locations(), vec![KNOWN_X86.to_string(), KNOWN_64.to_string()]);
    assert_eq!(tool_search_roots(), vec![ROOT_64.to_string(), ROOT_X86.to_string()]);
    assert_eq!(SEARCH_DEPTH, 3);
}

#[test]
fn nothing_anywhere_is_not_found() {
    let (found, asked) = locate(&disk());
    assert_eq!(found, None);
    assert_eq!(
        asked,
        vec![
            "read".to_string(),
            format!("probe {KNOWN_X86}"),
            format!("probe {KNOWN_64}"),
            format!("probe {ROOT_64}"),
            format!("probe {ROOT_X86}"),
        ]
    );
}

#[test]
fn configured_path_wins_when_it_exists() {
    let mut d = disk();
    d.pointer = Some("  D:\\Tools\\IObitUnlocker.exe\r\n".to_string());
    d.existing.insert("D:\\Tools\\IObitUnlocker.exe".to_string());
    d.existing.insert(KNOWN_X86.to_string());
    let (found, asked) = locate(&d);
    assert_eq!(found, Some("D:\\Tools\\IObitUnlocker.exe".to_string()));
    assert_eq!(asked, vec!["read".to_string(), "probe D:\\Tools\\IObitUnlocker.exe".to_string()]);
}

#[test]
fn stale_configured_path_falls_through_to_known_locations() {
    let mut d = disk();
    d.pointer = Some("D:\\Gone\\IObitUnlocker.exe".to_string());
    d.existing.insert(KNOWN_64.to_string());
    let (found, asked) = locate(&d);
    assert_eq!(found, Some(KNOWN_64.to_string()));
    assert_eq!(asked.len(), 4);
}

#[test]
fn first_known_location_wins_over_the_second() {
    let mut d = disk();
    d.existing.insert(KNOWN_64.to_string());
    d.existing.insert(KNOWN_X86.to_string());
    assert_eq!(locate(&d).0, Some(KNOWN_X86.to_string()));
}

#[test]
fn search_finds_the_first_match_ignoring_case() {
    let mut d = disk();
    d.existing.insert(ROOT_64.to_string());
    d.existing.insert(ROOT_X86.to_string());
    d.listings.insert(
        ROOT_64.to_string(),
        vec![
            "C:\\Program Files".to_string(),
            "C:\\Program Files\\Vendor".to_string(),
            "C:\\Program Files\\Vendor\\IObitUnlocker.exe.bak".to_string(),
            "C:\\Program Files\\Vendor\\Tool\\iobitunlocker.EXE".to_string(),
            "C:\\Program Files\\Other\\IObitUnlocker.exe".to_string(),
        ],
    );
    d.listings.insert(ROOT_X86.to_string(), vec!["C:\\Program Files (x86)\\IObitUnlocker.exe".to_string()]);
    let (found, asked) = locate(&d);
    assert_eq!(found, Some("C:\\Program Files\\Vendor\\Tool\\iobitunlocker.EXE".to_string()));
    assert_eq!(asked.last(), Some(&format!("list {ROOT_64}")));
}

#[test]
fn search_goes_on_to_the_second_root() {
    let mut d = disk();
    d.existing.insert(ROOT_64.to_string());
    d.existing.insert(ROOT_X86.to_string());
    d.listings.insert(ROOT_64.to_string(), vec!["C:\\Program Files\\a.exe".to_string()]);
    d.listings.insert(ROOT_X86.to_string(), vec!["C:\\Program Files (x86)\\x\\IOBITUNLOCKER.EXE".to_string()]);
    assert_eq!(locate(&d).0, Some("C:\\Program Files (x86)\\x\\IOBITUNLOCKER.EXE".to_string()));
}

#[test]
fn missing_root_is_not_listed() {
    let mut d = disk();
    d.existing.insert(ROOT_X86.to_string());
    d.listings.insert(ROOT_64.to_string(), vec!["C:\\Program Files\\IObitUnlocker.exe".to_string()]);
    let (found, asked) = locate(&d);
    assert_eq!(found, None);
    assert!(!asked.contains(&format!("list {ROOT_64}")));
    assert!(asked.contains(&format!("list {ROOT_X86}")));
}

#[test]
fn names_tool_looks_at_the_file_name_only() {
    assert!(names_tool("C:\\x\\IObitUnlocker.exe"));
    assert!(names_tool("iobitunlocker.exe"));
    assert!(!names_tool("C:\\IObitUnlocker.exe\\other.exe"));
    assert!(!names_tool("C:\\x\\IObitUnlocker.exe\\"));
    assert!(!names_tool("C:\\x\\IObitUnlocker"));
    assert_eq!(find_tool_in(&vec![]), None);
    assert_eq!(
        find_tool_in(&vec!["a".to_string(), "b/IOBITUNLOCKER.exe".to_string(), "c/IObitUnlocker.exe".to_string()]),
        Some("b/IOBITUNLOCKER.exe".to_string())
    );
}

#[test]
fn a_report_out_of_turn_ends_the_search() {
    let mut locator = Locator::new();
    assert_eq!(locator.phase(), LocatorPhase::Start);
    assert_eq!(locator.step(LocatorEvent::Exists { found: true }), LocatorAction::Finish { found: None });
    assert_eq!(locator.step(LocatorEvent::Begin), LocatorAction::Finish { found: None });
    let mut locator = Locator::new();
    assert_eq!(locator.step(LocatorEvent::Begin), LocatorAction::ReadOverride);
    assert_eq!(locator.phase(), LocatorPhase::ReadingOverride);
    assert_eq!(locator.step(LocatorEvent::Listing { paths: vec![] }), LocatorAction::Finish { found: None });
}
