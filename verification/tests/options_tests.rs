use material_deploy::options::{
    editable_packages, enable_advanced_settings, find_update, graphics_options, merge_options,
    names_graphics_option, options_path, settings_path_for,
};

fn pairs(items: &[(&str, &str)]) -> Vec<(String, String)> {
    items.iter().map(|(k, v)| (k.to_string(), v.to_string())).collect()
}

#[test]
fn advanced_settings_are_switched_on() {
    assert_eq!(
        enable_advanced_settings("a:1\nshow_advanced_video_settings:0\nb:2"),
        "a:1\nshow_advanced_video_settings:1\nb:2"
    );
    assert_eq!(
        enable_advanced_settings("show_advanced_video_settings:0\nshow_advanced_video_settings:0"),
        "show_advanced_video_settings:1\nshow_advanced_video_settings:1"
    );
}

#[test]
fn advanced_settings_are_added_where_missing() {
    assert_eq!(enable_advanced_settings("a:1"), "a:1\nshow_advanced_video_settings:1");
    assert_eq!(enable_advanced_settings(""), "\nshow_advanced_video_settings:1");
    assert_eq!(
        enable_advanced_settings("show_advanced_video_settings:2"),
        "show_advanced_video_settings:2\nshow_advanced_video_settings:1"
    );
}

#[test]
fn advanced_settings_that_are_on_stay() {
    assert_eq!(
        enable_advanced_settings("a:1\nshow_advanced_video_settings:1\n"),
        "a:1\nshow_advanced_video_settings:1\n"
    );
    assert_eq!(
        enable_advanced_settings("show_advanced_video_settings:10"),
        "show_advanced_video_settings:10"
    );
}

#[test]
fn graphics_keys() {
    for key in [
        "gfx_vsync",
        "gfx_",
        "gfx_anything_at_all",
        "show_advanced_video_settings",
        "raytracing_viewdistance",
        "graphics_mode",
        "graphics_mode_switch",
        "frame_pacing_enabled",
    ] {
        assert!(names_graphics_option(&key.to_string()), "{key}");
    }
    for key in ["gfx", "GFX_vsync", "graphics_mode_", "mp_username", "", " gfx_vsync"] {
        assert!(!names_graphics_option(&key.to_string()), "{key}");
    }
}

#[test]
fn graphics_options_are_read_line_by_line() {
    let content = "mp_username:Steve\r\ngfx_vsync:0\r\ngraphics_mode:2\r\nnot a pair\r\ngfx_msaa:4:x\r\ngfx_vsync:1\r\nold_graphics_mode:1\r\n";
    let options = graphics_options(content);
    assert_eq!(options.len(), 3);
    assert_eq!(options.get("gfx_vsync"), Some(&"1".to_string()));
    assert_eq!(options.get("graphics_mode"), Some(&"2".to_string()));
    assert_eq!(options.get("gfx_msaa"), Some(&"4:x".to_string()));
    assert_eq!(options.get("mp_username"), None);
    assert_eq!(graphics_options("").len(), 0);
}

#[test]
fn merge_renews_gfx_lines_and_adds_the_rest() {
    let content = "mp_username:Steve\ngfx_vsync:0\ngraphics_mode:2\nnot a pair\ngfx_msaa:4\n";
    let updates = pairs(&[("gfx_vsync", "1"), ("gfx_new", "7"), ("graphics_mode", "3")]);
    assert_eq!(
        merge_options(content, &updates),
        "mp_username:Steve\ngfx_vsync:1\ngraphics_mode:2\nnot a pair\ngfx_msaa:4\ngfx_new:7\ngraphics_mode:3"
    );
}

#[test]
fn merge_with_nothing_to_do() {
    assert_eq!(merge_options("a:1\r\nb:2\r\n", &vec![]), "a:1\nb:2");
    assert_eq!(merge_options("", &vec![]), "");
    assert_eq!(merge_options("", &pairs(&[("gfx_a", "1"), ("gfx_b", "2")])), "gfx_a:1\ngfx_b:2");
}

#[test]
fn merge_renews_every_line_of_a_key() {
    let updates = pairs(&[("gfx_a", "9")]);
    assert_eq!(merge_options("gfx_a:1\ngfx_a:2:3\nx", &updates), "gfx_a:9\ngfx_a:9\nx");
    assert_eq!(find_update(&updates, &"gfx_a".to_string()), Some(0));
    assert_eq!(find_update(&updates, &"gfx_b".to_string()), None);
}

#[test]
fn options_paths() {
    assert_eq!(
        options_path("C:\\Users\\me\\AppData\\Local", "Microsoft.MinecraftUWP_8wekyb3d8bbwe"),
        "C:\\Users\\me\\AppData\\Local\\Packages\\Microsoft.MinecraftUWP_8wekyb3d8bbwe\\LocalState\\games\\com.mojang\\minecraftpe\\options.txt"
    );
    assert_eq!(
        settings_path_for("L", true),
        "L\\Packages\\Microsoft.MinecraftPreview_8wekyb3d8bbwe\\LocalState\\games\\com.mojang\\minecraftpe\\options.txt"
    );
    assert_eq!(
        settings_path_for("L", false),
        "L\\Packages\\Microsoft.MinecraftUWP_8wekyb3d8bbwe\\LocalState\\games\\com.mojang\\minecraftpe\\options.txt"
    );
    assert_eq!(
        editable_packages(),
        pairs(&[
            ("Microsoft.MinecraftUWP_8wekyb3d8bbwe", "Minecraft"),
            ("Microsoft.MinecraftWindowsBeta_8wekyb3d8bbwe", "Minecraft Preview")
        ])
    );
}
