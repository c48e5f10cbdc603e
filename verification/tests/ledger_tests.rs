use material_deploy::cache::PackInfo;
use material_deploy::clock::Instant;
use material_deploy::ledger::{InstalledPreset, Ledger};

fn record(uuid: &str, secs: i64) -> InstalledPreset {
    InstalledPreset {
        uuid: uuid.to_string(),
        name: format!("Preset {uuid}"),
        installed_at: Instant::from_secs(secs),
        is_creator: None,
    }
}

fn pack(uuid: &str) -> PackInfo {
    PackInfo {
        name: "Vivid".to_string(),
        uuid: uuid.to_string(),
        stub: "s".to_string(),
        tonemapping: "t".to_string(),
        bloom: "b".to_string(),
    }
}

#[test]
fn empty_ledger_has_no_record() {
    let ledger = Ledger::new();
    assert_eq!(ledger.get("C:\\Games\\Minecraft"), None);
    assert_eq!(ledger.len(), 0);
}

#[test]
fn put_then_get_returns_the_record() {
    let mut ledger = Ledger::new();
    ledger.put("C:\\Games\\Minecraft", record("u-1", 10));
    assert_eq!(ledger.get("C:\\Games\\Minecraft"), Some(record("u-1", 10)));
    assert_eq!(ledger.get("C:\\Games\\minecraft"), None);
    assert_eq!(ledger.len(), 1);
}

#[test]
fn put_overwrites_one_target_only() {
    let mut ledger = Ledger::new();
    ledger.put("a", record("u-1", 10));
    ledger.put("b", record("u-2", 11));
    ledger.put("a", record("u-3", 12));
    assert_eq!(ledger.get("a"), Some(record("u-3", 12)));
    assert_eq!(ledger.get("b"), Some(record("u-2", 11)));
    assert_eq!(ledger.len(), 2);
    let (root, rec) = ledger.entry_at(1);
    assert_eq!(root, "b");
    assert_eq!(rec, &record("u-2", 11));
}

#[test]
fn record_installed_stamps_the_preset() {
    let mut ledger = Ledger::new();
    let start = Instant::from_secs(100);
    let now = Instant { secs: 100, nanos: 1 };
    ledger.record_installed("root", &pack("7d1c"), now, Some(true));
    let got = ledger.get("root").expect("recorded");
    assert_eq!(got.uuid, "7d1c");
    assert_eq!(got.name, "Vivid");
    assert_eq!(got.installed_at, now);
    assert_eq!(got.is_creator, Some(true));
    assert!(!got.installed_at.is_before(&start));
    assert_eq!(InstalledPreset::of_pack(&pack("7d1c"), now, Some(true)), got);
}

#[test]
fn remove_takes_one_target_out() {
    let mut ledger = Ledger::new();
    ledger.put("a", record("u-1", 10));
    ledger.put("b", record("u-2", 11));
    assert!(ledger.remove("a"));
    assert!(!ledger.remove("a"));
    assert_eq!(ledger.get("a"), None);
    assert_eq!(ledger.get("b"), Some(record("u-2", 11)));
}

#[test]
fn uninstall_all_clears_the_ledger() {
    let mut ledger = Ledger::new();
    let targets = ["C:\\Games\\Minecraft", "C:\\Program Files\\WindowsApps\\mc", "D:\\x"];
    for (i, t) in targets.iter().enumerate() {
        ledger.put(t, record("u", i as i64));
    }
    assert_eq!(ledger.len(), 3);
    ledger.clear_all();
    for t in targets {
        assert_eq!(ledger.get(t), None);
    }
    assert_eq!(ledger.len(), 0);
}

#[test]
fn installed_at_is_printed_as_rfc3339() {
    assert_eq!(
        record("u", 1_700_000_000).installed_at_text(),
        Some("2023-11-14T22:13:20+00:00".to_string())
    );
    assert_eq!(record("u", i64::MIN).installed_at_text(), None);
}

#[test]
fn clone_copies_a_record() {
    let r = record("u-9", 3);
    assert_eq!(r.clone(), r);
}

#[test]
fn a_ledger_that_could_not_be_read_is_empty() {
    assert_eq!(Ledger::recovered(None).len(), 0);
    let mut read = Ledger::new();
    read.put("a", record("u-1", 1));
    assert_eq!(Ledger::recovered(Some(read)).get("a"), Some(record("u-1", 1)));
}
