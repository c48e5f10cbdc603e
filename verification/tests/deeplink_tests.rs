use material_deploy::deeplink::{
    accepts_tool_choice, handle_deep_link, judge_launch_argument, judge_tool_name, launch_request,
    read_link, read_parsed_link, DeepLinkError, LaunchRequest, ProtocolData, UrlParts,
};

fn parts(scheme: &str, path: &str) -> UrlParts {
    UrlParts { scheme: scheme.to_string(), path: path.to_string() }
}

fn data(kind: &str, id: &str) -> ProtocolData {
    ProtocolData { protocol_type: kind.to_string(), id: id.to_string() }
}

#[test]
fn link_with_kind_and_identity() {
    assert_eq!(read_link(&parts("brtx", "/preset/7d1c")), Ok(data("preset", "7d1c")));
    assert_eq!(read_link(&parts("brtx", "creator/abc")), Ok(data("creator", "abc")));
    assert_eq!(read_link(&parts("brtx", "///creator/abc")), Ok(data("creator", "abc")));
    assert_eq!(read_link(&parts("brtx", "preset/")), Ok(data("preset", "")));
}

#[test]
fn link_with_another_scheme() {
    assert_eq!(read_link(&parts("https", "/preset/7d1c")), Err(DeepLinkError::InvalidScheme));
    assert_eq!(read_link(&parts("BRTX", "/preset/7d1c")), Err(DeepLinkError::InvalidScheme));
    assert_eq!(read_link(&parts("", "")), Err(DeepLinkError::InvalidScheme));
}

#[test]
fn link_with_the_wrong_number_of_segments() {
    assert_eq!(read_link(&parts("brtx", "/7d1c")), Err(DeepLinkError::InvalidFormat));
    assert_eq!(read_link(&parts("brtx", "")), Err(DeepLinkError::InvalidFormat));
    assert_eq!(read_link(&parts("brtx", "///")), Err(DeepLinkError::InvalidFormat));
    assert_eq!(read_link(&parts("brtx", "/preset/7d1c/")), Err(DeepLinkError::InvalidFormat));
    assert_eq!(read_link(&parts("brtx", "/preset/a/b")), Err(DeepLinkError::InvalidFormat));
    assert_eq!(read_link(&parts("brtx", "/other/a/b")), Err(DeepLinkError::InvalidFormat));
}

#[test]
fn link_of_an_unknown_kind() {
    assert_eq!(read_link(&parts("brtx", "/presets/7d1c")), Err(DeepLinkError::InvalidType));
    assert_eq!(read_link(&parts("brtx", "/Preset/7d1c")), Err(DeepLinkError::InvalidType));
    assert_eq!(read_link(&parts("brtx", "//x")), Err(DeepLinkError::InvalidFormat));
    assert_eq!(read_link(&parts("brtx", "/ /x")), Err(DeepLinkError::InvalidType));
}

#[test]
fn parse_errors_are_handed_on() {
    assert_eq!(
        read_parsed_link(Err("relative URL without a base".to_string())),
        Err(DeepLinkError::InvalidUrl { detail: "relative URL without a base".to_string() })
    );
    assert_eq!(read_parsed_link(Ok(parts("brtx", "/creator/h"))), Ok(data("creator", "h")));
}

#[test]
fn links_as_the_url_parser_reads_them() {
    assert_eq!(handle_deep_link("brtx:preset/7d1c"), Ok(data("preset", "7d1c")));
    assert_eq!(handle_deep_link("brtx:///creator/abc123"), Ok(data("creator", "abc123")));
    assert_eq!(handle_deep_link("BRTX:/preset/x%20y"), Ok(data("preset", "x%20y")));
    assert_eq!(handle_deep_link("brtx:preset/a b?query#fragment"), Ok(data("preset", "a b")));
    assert_eq!(handle_deep_link("brtx:///preset/a b?query#fragment"), Ok(data("preset", "a%20b")));
    assert_eq!(handle_deep_link("brtx://preset/7d1c"), Err(DeepLinkError::InvalidFormat));
    assert_eq!(handle_deep_link("https://example.test/preset/7d1c"), Err(DeepLinkError::InvalidScheme));
    assert_eq!(
        handle_deep_link("preset/7d1c"),
        Err(DeepLinkError::InvalidUrl { detail: "relative URL without a base".to_string() })
    );
    assert_eq!(handle_deep_link("brtx:other/7d1c"), Err(DeepLinkError::InvalidType));
}

#[test]
fn error_messages() {
    assert_eq!(
        DeepLinkError::InvalidUrl { detail: "empty host".to_string() }.message(),
        "Invalid URL: empty host"
    );
    assert_eq!(DeepLinkError::InvalidScheme.message(), "Invalid protocol scheme");
    assert_eq!(
        DeepLinkError::InvalidFormat.message(),
        "Invalid URL format. Expected brtx://preset/[uuid] or brtx://creator/[hash]"
    );
    assert_eq!(
        DeepLinkError::InvalidType.message(),
        "Invalid protocol type. Expected 'preset' or 'creator'"
    );
}

#[test]
fn launch_argument() {
    assert_eq!(launch_request("C:\\dl\\Vivid.RTPACK", true), LaunchRequest::OpenPackage);
    assert_eq!(launch_request("C:\\dl\\Vivid.rtpack", false), LaunchRequest::Nothing);
    assert_eq!(launch_request("brtx://preset/1", false), LaunchRequest::FollowLink);
    assert_eq!(launch_request("brtx://x.rtpack", true), LaunchRequest::OpenPackage);
    assert_eq!(launch_request("brtx://x.rtpack", false), LaunchRequest::FollowLink);
    assert_eq!(launch_request("BRTX://preset/1", false), LaunchRequest::Nothing);
    assert_eq!(launch_request("--flag", true), LaunchRequest::Nothing);
    assert_eq!(launch_request("C:\\dl\\Vivid.RTPAC\u{212a}", true), LaunchRequest::OpenPackage);
    assert_eq!(judge_launch_argument("a", "x.rtpack", true), LaunchRequest::OpenPackage);
    assert_eq!(judge_launch_argument("brtx://", "", true), LaunchRequest::FollowLink);
}

#[test]
fn tool_choice_is_judged_by_the_lower_case_file_name() {
    assert!(accepts_tool_choice("C:\\Tools\\IObitUnlocker.exe"));
    assert!(accepts_tool_choice("C:\\Tools\\My IOBITUNLOCKER copy.exe"));
    assert!(accepts_tool_choice("C:\\Desktop\\Unlocker.LNK"));
    assert!(accepts_tool_choice("C:\\Tools\\IObitUnloc\u{212a}er.exe"));
    assert!(!accepts_tool_choice("C:\\IObitUnlocker\\other.exe"));
    assert!(!accepts_tool_choice("C:\\Tools\\unlocker.exe"));
    assert!(!accepts_tool_choice("C:\\Tools\\"));
    assert!(judge_tool_name("xiobitunlockerx"));
    assert!(judge_tool_name(".lnk"));
    assert!(!judge_tool_name("IObitUnlocker.exe"));
}
