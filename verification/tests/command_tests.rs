use material_deploy::command::{
    dedup_names, delete_file_names, delete_targets, destination, elevated_invocation,
    elevated_script, escape_for_script, holds_name, material_file_names, override_file_names,
    shell_invocation, Invocation, ToolOperation,
};

fn strings(items: &[&str]) -> Vec<String> {
    items.iter().map(|s| s.to_string()).collect()
}

#[test]
fn the_three_well_known_names() {
    assert_eq!(
        override_file_names(),
        strings(&[
            "RTXStub.material.bin",
            "RTXPostFX.Tonemapping.material.bin",
            "RTXPostFX.Bloom.material.bin"
        ])
    );
}

#[test]
fn material_file_names_skip_paths_without_one() {
    let materials = strings(&["C:\\p\\a.bin", "C:\\p\\", "b.bin", "", "C:/q/a.bin"]);
    assert_eq!(material_file_names(&materials), strings(&["a.bin", "b.bin", "a.bin"]));
}

#[test]
fn dedup_keeps_first_occurrences() {
    assert_eq!(dedup_names(&strings(&["a", "b", "a", "c", "b", "a"])), strings(&["a", "b", "c"]));
    assert_eq!(dedup_names(&strings(&[])), strings(&[]));
    assert_eq!(dedup_names(&strings(&["A", "a"])), strings(&["A", "a"]));
    assert!(holds_name(&strings(&["x", "y"]), &"y".to_string()));
    assert!(!holds_name(&strings(&["x", "y"]), &"z".to_string()));
}

#[test]
fn delete_set_is_fixed_names_and_material_names_once_each() {
    let materials = strings(&[
        "C:\\packs\\u\\RTXStub.material.bin",
        "C:\\packs\\u\\Extra.material.bin",
        "C:\\other\\Extra.material.bin",
        "C:\\packs\\u\\RTXPostFX.Bloom.material.bin",
    ]);
    assert_eq!(
        delete_file_names(&materials),
        strings(&[
            "RTXStub.material.bin",
            "RTXPostFX.Tonemapping.material.bin",
            "RTXPostFX.Bloom.material.bin",
            "Extra.material.bin"
        ])
    );
    assert_eq!(delete_file_names(&strings(&[])), override_file_names());
}

#[test]
fn delete_targets_lie_in_the_materials_directory() {
    let targets = delete_targets("C:\\Games\\MC", &strings(&["D:\\x\\Custom.material.bin"]));
    assert_eq!(
        targets,
        strings(&[
            "C:\\Games\\MC\\data\\renderer\\materials\\RTXStub.material.bin",
            "C:\\Games\\MC\\data\\renderer\\materials\\RTXPostFX.Tonemapping.material.bin",
            "C:\\Games\\MC\\data\\renderer\\materials\\RTXPostFX.Bloom.material.bin",
            "C:\\Games\\MC\\data\\renderer\\materials\\Custom.material.bin",
        ])
    );
}

#[test]
fn destination_joins_the_file_name() {
    assert_eq!(destination("C:\\d", "E:\\src\\a.bin"), Some("C:\\d\\a.bin".to_string()));
    assert_eq!(destination("C:\\d", "E:\\src\\"), None);
}

#[test]
fn delete_argument_list() {
    let op = ToolOperation::Delete { targets: strings(&["C:\\a\\1.bin", "C:\\a\\2.bin", "C:\\a\\3.bin"]) };
    assert_eq!(op.argument_list(), "/Delete \"C:\\a\\1.bin\",\"C:\\a\\2.bin\",\"C:\\a\\3.bin\"");
    let one = ToolOperation::Delete { targets: strings(&["C:\\a\\1.bin"]) };
    assert_eq!(one.argument_list(), "/Delete \"C:\\a\\1.bin\"");
    let none = ToolOperation::Delete { targets: vec![] };
    assert_eq!(none.argument_list(), "/Delete \"\"");
}

#[test]
fn copy_argument_list() {
    let op = ToolOperation::Copy {
        sources: strings(&["C:\\p\\1.bin", "C:\\p\\2.bin"]),
        destination: "C:\\mc\\data\\renderer\\materials".to_string(),
    };
    assert_eq!(
        op.argument_list(),
        "/Copy \"C:\\p\\1.bin\",\"C:\\p\\2.bin\" \"C:\\mc\\data\\renderer\\materials\""
    );
}

#[test]
fn shell_command_doubles_single_quotes() {
    let op = ToolOperation::Delete { targets: strings(&["C:\\it's\\1.bin"]) };
    assert_eq!(
        op.shell_command("C:\\Bob's Tools\\IObitUnlocker.exe"),
        "Start-Process -FilePath 'C:\\Bob''s Tools\\IObitUnlocker.exe' -ArgumentList '/Delete \"C:\\it''s\\1.bin\"' -Wait -PassThru"
    );
}

#[test]
fn invocation_hands_the_command_to_the_shell() {
    let op = ToolOperation::Copy { sources: strings(&["a"]), destination: "d".to_string() };
    let inv = op.invocation("tool.exe");
    assert_eq!(
        inv,
        Invocation {
            program: "powershell.exe".to_string(),
            args: strings(&[
                "-NoProfile",
                "-ExecutionPolicy",
                "Bypass",
                "-Command",
                "Start-Process -FilePath 'tool.exe' -ArgumentList '/Copy \"a\" \"d\"' -Wait -PassThru"
            ]),
        }
    );
    assert_eq!(shell_invocation("Get-Date".to_string()).args[4], "Get-Date");
}

#[test]
fn script_escaping_doubles_backslashes_then_quotes() {
    assert_eq!(escape_for_script("C:\\a'b"), "C:\\\\a''b");
    assert_eq!(escape_for_script("plain"), "plain");
}

#[test]
fn elevated_script_copies_each_material_in_order() {
    let script = elevated_script(
        "C:\\Program Files\\WindowsApps\\mc\\data\\renderer\\materials",
        &strings(&["C:\\p\\A.bin", "C:\\p\\B'.bin"]),
    );
    assert_eq!(
        script,
        Some(
            "Start-Process powershell -Verb RunAs -ArgumentList '-Command', '\
Copy-Item 'C:\\\\p\\\\A.bin' 'C:\\\\Program Files\\\\WindowsApps\\\\mc\\\\data\\\\renderer\\\\materials\\\\A.bin' -Force; \
Copy-Item 'C:\\\\p\\\\B''.bin' 'C:\\\\Program Files\\\\WindowsApps\\\\mc\\\\data\\\\renderer\\\\materials\\\\B''.bin' -Force; \
' -Wait"
                .to_string()
        )
    );
}

#[test]
fn elevated_script_of_nothing() {
    assert_eq!(
        elevated_script("C:\\d", &vec![]),
        Some("Start-Process powershell -Verb RunAs -ArgumentList '-Command', '' -Wait".to_string())
    );
}

#[test]
fn elevated_script_needs_file_names() {
    assert_eq!(elevated_script("C:\\d", &strings(&["C:\\p\\A.bin", "C:\\p\\"])), None);
    assert_eq!(elevated_invocation("C:\\d", &strings(&[".."])), None);
    let inv = elevated_invocation("C:\\d", &strings(&["x.bin"])).expect("has a name");
    assert_eq!(inv.program, "powershell.exe");
    assert_eq!(
        inv.args[4],
        "Start-Process powershell -Verb RunAs -ArgumentList '-Command', 'Copy-Item 'x.bin' 'C:\\\\d\\\\x.bin' -Force; ' -Wait"
    );
}
