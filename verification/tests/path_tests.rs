use material_deploy::path::{
    classify, file_name, is_sideloaded, join_path, materials_dir, stem_and_extension,
    ProtectionLevel,
};

#[test]
fn package_store_is_protected() {
    assert_eq!(
        classify("C:\\Program Files\\WindowsApps\\Microsoft.MinecraftUWP_1.21"),
        ProtectionLevel::Protected
    );
    assert_eq!(classify("c:/program files/WINDOWSAPPS/x"), ProtectionLevel::Protected);
    assert_eq!(classify("D:\\MyWindowsAppsBackup\\mc"), ProtectionLevel::Protected);
    assert!(!is_sideloaded("C:\\Program Files\\WindowsApps\\Minecraft"));
}

#[test]
fn ordinary_storage_is_open() {
    assert_eq!(classify("C:\\Games\\Minecraft"), ProtectionLevel::Open);
    assert_eq!(classify(""), ProtectionLevel::Open);
    assert_eq!(classify("C:\\Windows Apps\\mc"), ProtectionLevel::Open);
    assert!(is_sideloaded("C:\\Users\\me\\AppData\\Roaming\\BedrockLauncher\\data\\versions\\1.21"));
}

#[test]
fn file_name_is_the_last_segment() {
    assert_eq!(file_name("C:\\packs\\a\\RTXStub.material.bin"), Some("RTXStub.material.bin".to_string()));
    assert_eq!(file_name("C:/packs/a/b.bin"), Some("b.bin".to_string()));
    assert_eq!(file_name("mixed\\and/forward\\x"), Some("x".to_string()));
    assert_eq!(file_name("plain"), Some("plain".to_string()));
    assert_eq!(file_name("C:\\dir\\"), None);
    assert_eq!(file_name("dir/"), None);
    assert_eq!(file_name(""), None);
    assert_eq!(file_name("a/.."), None);
    assert_eq!(file_name(".."), None);
    assert_eq!(file_name("a\\."), None);
    assert_eq!(file_name("a/..."), Some("...".to_string()));
    assert_eq!(file_name(".hidden"), Some(".hidden".to_string()));
}

#[test]
fn join_path_adds_one_separator() {
    assert_eq!(join_path("C:\\Games", "data"), "C:\\Games\\data");
    assert_eq!(join_path("C:\\Games\\", "data"), "C:\\Games\\data");
    assert_eq!(join_path("C:/Games/", "data"), "C:/Games/data");
    assert_eq!(join_path("", "data"), "data");
    assert_eq!(join_path("C:\\Games", ""), "C:\\Games\\");
}

#[test]
fn materials_dir_is_three_levels_down() {
    assert_eq!(materials_dir("C:\\Games\\Minecraft"), "C:\\Games\\Minecraft\\data\\renderer\\materials");
    assert_eq!(materials_dir("C:\\Games\\Minecraft\\"), "C:\\Games\\Minecraft\\data\\renderer\\materials");
}

#[test]
fn stem_and_extension_split_at_the_last_dot() {
    let split = |p: &str| stem_and_extension(p);
    assert_eq!(split("C:\\a\\RTXStub.material.bin"), Some(("RTXStub.material".to_string(), Some("bin".to_string()))));
    assert_eq!(split("pack.rtpack"), Some(("pack".to_string(), Some("rtpack".to_string()))));
    assert_eq!(split("noext"), Some(("noext".to_string(), None)));
    assert_eq!(split(".hidden"), Some((".hidden".to_string(), None)));
    assert_eq!(split(".a.b"), Some((".a".to_string(), Some("b".to_string()))));
    assert_eq!(split("trailing."), Some(("trailing".to_string(), Some(String::new()))));
    assert_eq!(split("dir\\"), None);
    assert_eq!(split("my.dir\\file"), Some(("file".to_string(), None)));
}
