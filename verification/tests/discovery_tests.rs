use material_deploy::clock::Instant;
use material_deploy::command::Invocation;
use material_deploy::discovery::{
    annotate, backup_archive_name, backup_archive_name_at, backup_instance_name, discovery_invocation,
    dlss_step, install_locations, launcher_installation, looks_like_install, shell_result,
    DlssStep, Installation,
};
use material_deploy::ledger::{InstalledPreset, Ledger};

fn installation(name: &str, location: &str) -> Installation {
    Installation {
        friendly_name: name.to_string(),
        install_location: location.to_string(),
        preview: false,
        installed_preset: None,
    }
}

fn record(uuid: &str) -> InstalledPreset {
    InstalledPreset {
        uuid: uuid.to_string(),
        name: "n".to_string(),
        installed_at: Instant::from_secs(1),
        is_creator: None,
    }
}

#[test]
fn launcher_installation_is_named_after_the_version_directory() {
    assert_eq!(
        launcher_installation("BedrockLauncher", "C:\\Users\\me\\AppData\\Roaming\\BedrockLauncher\\data\\versions\\1.21.2"),
        Some(installation(
            "BedrockLauncher - 1.21.2",
            "C:\\Users\\me\\AppData\\Roaming\\BedrockLauncher\\data\\versions\\1.21.2"
        ))
    );
    assert_eq!(launcher_installation("MCLauncher", "C:\\installs\\"), None);
}

#[test]
fn annotate_looks_each_location_up() {
    let mut ledger = Ledger::new();
    ledger.put("C:\\b", record("u-b"));
    let mut preview = installation("Preview", "C:\\b");
    preview.preview = true;
    preview.installed_preset = Some(record("stale"));
    let mut stale = installation("A", "C:\\a");
    stale.installed_preset = Some(record("stale"));
    let out = annotate(vec![stale, preview], &ledger);
    assert_eq!(out.len(), 2);
    assert_eq!(out[0], installation("A", "C:\\a"));
    assert_eq!(out[1].installed_preset, Some(record("u-b")));
    assert!(out[1].preview);
    assert_eq!(out[1].friendly_name, "Preview");
    assert_eq!(install_locations(&out), vec!["C:\\a".to_string(), "C:\\b".to_string()]);
}

#[test]
fn backup_names() {
    assert_eq!(backup_instance_name("C:\\Program Files\\WindowsApps\\Microsoft Minecraft 1.21"), "Microsoft_Minecraft_1.21");
    assert_eq!(backup_instance_name("C:/a/b c"), "b_c");
    assert_eq!(backup_instance_name("C:\\a\\"), "");
    assert_eq!(backup_instance_name("plain"), "plain");
    assert_eq!(
        backup_archive_name_at("C:\\Games\\My MC", "2024-05-06_07-08"),
        "betterrtx_backup_My_MC_2024-05-06_07-08.rtpack"
    );
    let by_clock = backup_archive_name("C:\\Games\\My MC");
    assert!(by_clock.starts_with("betterrtx_backup_My_MC_"));
    assert!(by_clock.ends_with(".rtpack"));
    assert_eq!(by_clock.len(), "betterrtx_backup_My_MC_2024-05-06_07-08.rtpack".len());
}

#[test]
fn install_check() {
    assert!(!looks_like_install(false, true, true, true, true));
    assert!(!looks_like_install(true, false, false, false, false));
    assert!(looks_like_install(true, true, false, false, false));
    assert!(looks_like_install(true, false, true, false, false));
    assert!(looks_like_install(true, false, false, true, false));
    assert!(looks_like_install(true, false, false, false, true));
}

#[test]
fn dlss_into_open_target_is_a_plain_copy() {
    assert_eq!(
        dlss_step("C:\\Games\\MC", "C:\\data\\dlss\\nvngx_dlss.dll", Some("tool.exe")),
        DlssStep::CopyDirectly {
            from: "C:\\data\\dlss\\nvngx_dlss.dll".to_string(),
            to: "C:\\Games\\MC\\nvngx_dlss.dll".to_string()
        }
    );
}

#[test]
fn dlss_into_the_store_needs_the_tool() {
    let store = "C:\\Program Files\\WindowsApps\\mc";
    assert_eq!(dlss_step(store, "C:\\d\\nvngx_dlss.dll", None), DlssStep::Unavailable);
    match dlss_step(store, "C:\\d\\nvngx_dlss.dll", Some("C:\\t\\IObitUnlocker.exe")) {
        DlssStep::UseTool { delete, copy } => {
            assert_eq!(
                delete.args[4],
                "Start-Process -FilePath 'C:\\t\\IObitUnlocker.exe' -ArgumentList '/Delete \"C:\\Program Files\\WindowsApps\\mc\\nvngx_dlss.dll\"' -Wait -PassThru"
            );
            assert_eq!(
                copy.args[4],
                "Start-Process -FilePath 'C:\\t\\IObitUnlocker.exe' -ArgumentList '/Copy \"C:\\d\\nvngx_dlss.dll\" \"C:\\Program Files\\WindowsApps\\mc\\nvngx_dlss.dll\"' -Wait -PassThru"
            );
        }
        other => panic!("unexpected step {:?}", other),
    }
}

#[test]
fn shell_result_picks_the_stream() {
    assert_eq!(shell_result(true, "out".to_string(), "err".to_string()), Ok("out".to_string()));
    assert_eq!(shell_result(false, "out".to_string(), "err".to_string()), Err("err".to_string()));
}

#[test]
fn discovery_runs_in_the_shell() {
    let Invocation { program, args } = discovery_invocation();
    assert_eq!(program, "powershell.exe");
    assert_eq!(args.len(), 5);
    assert_eq!(&args[..4], ["-NoProfile", "-ExecutionPolicy", "Bypass", "-Command"]);
    assert!(args[4].contains("Get-AppxPackage -Name 'Microsoft.Minecraft*'"));
    assert!(args[4].ends_with("$res | ConvertTo-Json -Depth 3\n"));
}
