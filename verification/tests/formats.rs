use uwu::associations::{
    desktop_entry_content, desktop_entry_needs_update, get_linux_applications_dir, get_linux_icons_dir,
    get_linux_mime_packages_dir, join_path_exec, registry_icon_value, registry_open_command_value, MIME_XML,
};
use uwu::canvas_file::{
    canvas_file_magic, canvas_file_payload, encode_canvas_file, make_canvas_file_header, temp_file_name,
    CanvasHeaderError, CanvasLoadError, CANVAS_FILE_EXT, CANVAS_FILE_VERSION,
};
use uwu::colors::{get_default_canvas_color, get_default_quick_colors, needs_downscale, Rgba8, MAX_TEXTURE_SIZE};
use uwu::export::xml_escape;
use uwu::text::char_width_counts;
use uwu::flat::{ObjectError, PageError};
use uwu::plugins::{check_plugin_id, check_rustc_version, is_valid_plugin_id, PluginAlreadyLoaded, PluginRejection};
use uwu::single_instance::{
    decode_instance_message, encode_instance_message, parse_instance_command, request_path, InstanceCommand,
    InstanceRequest, SingleInstance, APP_ID,
};

#[test]
fn test_xml_escape_all_entities() {
    assert_eq!(xml_escape("a & b"), "a &amp; b");
    assert_eq!(xml_escape("<tag attr=\"v\">'x'</tag>"), "&lt;tag attr=&quot;v&quot;&gt;&apos;x&apos;&lt;/tag&gt;");
    assert_eq!(xml_escape("你好 world"), "你好 world");
    assert_eq!(xml_escape(""), "");
    assert_eq!(xml_escape("&amp;"), "&amp;amp;");
}

#[test]
fn test_canvas_file_header() {
    assert_eq!(CANVAS_FILE_VERSION, 5);
    assert_eq!(CANVAS_FILE_EXT, "owo");
    assert_eq!(canvas_file_magic(), *b"UWU");
    assert_eq!(make_canvas_file_header(), [b'U', b'W', b'U', 5]);
}

#[test]
fn test_canvas_file_round_trip() {
    let payload = [1u8, 2, 3, 250];
    let file = encode_canvas_file(&payload);
    assert_eq!(file, vec![b'U', b'W', b'U', 5, 1, 2, 3, 250]);
    assert_eq!(canvas_file_payload(&file).unwrap(), &payload[..]);
    let empty = encode_canvas_file(&[]);
    assert_eq!(canvas_file_payload(&empty).unwrap(), &[] as &[u8]);
}

#[test]
fn test_canvas_file_header_errors() {
    assert_eq!(canvas_file_payload(b"UW").unwrap_err(), CanvasHeaderError::TooShort { len: 2 });
    assert_eq!(
        canvas_file_payload(b"UWU\x04rest").unwrap_err(),
        CanvasHeaderError::Mismatch { magic: *b"UWU", version: 4 }
    );
    assert_eq!(
        canvas_file_payload(&[0x50, 0x4b, 0x03, 0x04]).unwrap_err(),
        CanvasHeaderError::Mismatch { magic: [0x50, 0x4b, 0x03], version: 4 }
    );
    assert_eq!(
        CanvasHeaderError::TooShort { len: 2 }.message(),
        "unsupported canvas file format: expected magic=UWU, version=5, got too short (2 bytes)"
    );
    assert_eq!(
        CanvasHeaderError::Mismatch { magic: [0x50, 0x4b, 0x03], version: 4 }.message(),
        "unsupported canvas file format: expected magic=UWU, version=5, got magic=[50, 4b, 03], version=4"
    );
}

#[test]
fn test_canvas_load_error_messages() {
    assert_eq!(
        CanvasLoadError::Decode("unexpected end".to_string()).message(),
        "bitcode error: unexpected end"
    );
    assert_eq!(
        CanvasLoadError::Invalid(PageError::Object { index: 0, error: ObjectError::NoPoints }).message(),
        "invalid canvas file: object 0: stroke has no points"
    );
    assert!(CanvasLoadError::Header(CanvasHeaderError::TooShort { len: 0 })
        .message()
        .ends_with("too short (0 bytes)"));
}

#[test]
fn test_temp_file_name() {
    assert_eq!(temp_file_name(Some("page.owo")), "page.owo.tmp");
    assert_eq!(temp_file_name(None), "canvas.owo.tmp");
}

#[test]
fn test_default_colors() {
    let colors = get_default_quick_colors();
    assert_eq!(colors.len(), 6);
    assert_eq!(colors[0], Rgba8 { r: 0, g: 0, b: 0, a: 255 });
    assert_eq!(colors[2], Rgba8 { r: 0, g: 100, b: 255, a: 255 });
    assert_eq!(colors[5], Rgba8::from_rgb(255, 140, 0));
    assert_eq!(get_default_canvas_color(), Rgba8 { r: 15, g: 38, b: 30, a: 255 });
}

#[test]
fn test_needs_downscale() {
    assert_eq!(MAX_TEXTURE_SIZE, 2048);
    assert!(!needs_downscale(2048, 2048, MAX_TEXTURE_SIZE));
    assert!(needs_downscale(2049, 10, MAX_TEXTURE_SIZE));
    assert!(needs_downscale(10, 4096, MAX_TEXTURE_SIZE));
}

#[test]
fn test_linux_dirs() {
    assert_eq!(
        get_linux_applications_dir(Some("/xdg"), Some("/home/u")),
        Some("/xdg/applications".to_string())
    );
    assert_eq!(
        get_linux_applications_dir(None, Some("/home/u")),
        Some("/home/u/.local/share/applications".to_string())
    );
    assert_eq!(
        get_linux_mime_packages_dir(None, Some("/home/u/")),
        Some("/home/u/.local/share/mime/packages".to_string())
    );
    assert_eq!(get_linux_icons_dir(Some("/data/"), None), Some("/data/icons".to_string()));
    assert_eq!(get_linux_icons_dir(None, None), None);
    assert_eq!(join_path_exec("", "x"), "x");
}

#[test]
fn test_desktop_entry_content() {
    let content = desktop_entry_content("/opt/uwu/uwu", "/home/u/.local/share/icons/uwu.png");
    assert_eq!(
        content,
        "[Desktop Entry]\nType=Application\nName=uwu\nComment=ujhhgtg's whiteboard, unleashed\nExec=/opt/uwu/uwu %f\nIcon=/home/u/.local/share/icons/uwu.png\nTerminal=false\nMimeType=application/x-owo;\nCategories=Utility;Graphics;\n"
    );
    assert!(!desktop_entry_needs_update(&content, "/opt/uwu/uwu"));
    assert!(desktop_entry_needs_update(&content, "/usr/bin/uwu"));
}

#[test]
fn test_desktop_entry_exec_forms() {
    assert!(!desktop_entry_needs_update("[Desktop Entry]\nExec=  /a/uwu  \n", "/a/uwu"));
    assert!(!desktop_entry_needs_update("Exec=/a/uwu %f\r\nName=x", "/a/uwu"));
    assert!(desktop_entry_needs_update(" Exec=/a/uwu\n", "/a/uwu"));
    assert!(desktop_entry_needs_update("Exec=/a/uwu --x\n", "/a/uwu"));
    assert!(desktop_entry_needs_update("", "/a/uwu"));
    assert!(!desktop_entry_needs_update("Name=x\nExec=/b\nExec=/a/uwu", "/a/uwu"));
}

#[test]
fn test_mime_and_registry_values() {
    assert!(MIME_XML.starts_with("<?xml version=\"1.0\" encoding=\"utf-8\"?>\n<mime-info"));
    assert!(MIME_XML.contains("<glob pattern=\"*.owo\"/>"));
    assert_eq!(registry_icon_value("C:\\uwu.exe"), "\"C:\\uwu.exe\",0");
    assert_eq!(registry_open_command_value("C:\\uwu.exe"), "\"C:\\uwu.exe\" \"%1\"");
}

#[test]
fn test_plugin_rustc_check() {
    assert!(check_rustc_version("rustc 1.90.0", "rustc 1.90.0").is_ok());
    let err = check_rustc_version("rustc 1.89.0", "rustc 1.90.0").unwrap_err();
    assert_eq!(
        err.message(),
        "rustc version mismatch: plugin uses 'rustc 1.89.0' but host is 'rustc 1.90.0'"
    );
}

#[test]
fn test_plugin_id_checks() {
    assert!(is_valid_plugin_id("startup_animation"));
    assert!(is_valid_plugin_id("Plugin_2"));
    assert!(!is_valid_plugin_id("插件1"));
    assert!(!is_valid_plugin_id(""));
    assert!(!is_valid_plugin_id("bad-id"));
    assert!(check_plugin_id("example", &["other"]).is_ok());
    match check_plugin_id("bad id", &["bad id"]) {
        Err(PluginRejection::InvalidId { id }) => assert_eq!(id, "bad id"),
        _ => panic!("expected an invalid id"),
    }
    match check_plugin_id("example", &["a", "example"]) {
        Err(PluginRejection::AlreadyLoaded(e)) => {
            assert_eq!(e.id, "example");
            assert_eq!(e.message(), "plugin 'example' already loaded");
        }
        _ => panic!("expected a duplicate"),
    }
    let err = check_plugin_id("a.b", &[]).unwrap_err();
    assert_eq!(
        err.message(),
        "plugin id 'a.b' contains invalid characters — only letters, digits, and underscores allowed"
    );
    assert_eq!(
        PluginAlreadyLoaded { id: "x".to_string() }.message(),
        "plugin 'x' already loaded"
    );
}

#[test]
fn test_instance_messages() {
    assert_eq!(APP_ID, "uwu-ujhhgtg-whiteboard");
    assert_eq!(encode_instance_message(None), "focus\n\n");
    assert_eq!(encode_instance_message(Some("/tmp/a.owo")), "open\n/tmp/a.owo\n");
    assert!(matches!(parse_instance_command(" focus \n"), Some(InstanceCommand::Focus)));
    assert!(matches!(parse_instance_command("open\n"), Some(InstanceCommand::Open)));
    assert!(parse_instance_command("close\n").is_none());
    assert_eq!(request_path("  /x y.owo \n"), "/x y.owo");
    assert!(SingleInstance::First != SingleInstance::NotFirst);
}

#[test]
fn test_instance_message_round_trip() {
    match decode_instance_message(&encode_instance_message(Some("/home/u/画布.owo"))) {
        Some(InstanceRequest::Open { path }) => assert_eq!(path, "/home/u/画布.owo"),
        _ => panic!("expected open"),
    }
    assert!(matches!(
        decode_instance_message(&encode_instance_message(None)),
        Some(InstanceRequest::Focus)
    ));
    match decode_instance_message("open") {
        Some(InstanceRequest::Open { path }) => assert_eq!(path, ""),
        _ => panic!("expected open with no path"),
    }
    assert!(decode_instance_message("hello\nworld\n").is_none());
}

#[test]
fn test_char_width_counts() {
    assert_eq!(char_width_counts("你好"), (2, 0));
    assert_eq!(char_width_counts("Hi 你"), (1, 3));
    assert_eq!(char_width_counts(""), (0, 0));
    // U+2E80 is the first wide character.
    assert_eq!(char_width_counts("\u{2E7F}\u{2E80}"), (1, 1));
}
