use neutauri_data::codec::media_type;
use neutauri_data::text::{has_prefix, same_text};
use neutauri_data::{
    artifact, build_mode, custom_protocol_uri, custom_protocol_uri_to_path, frame, locate,
    platform_target, runtime_uri, BuildMode, Config, DataError, Icon, WindowSize,
};

#[test]
fn default_configuration_has_documented_values() {
    let config = Config::default();
    assert_eq!(config.source, ".");
    assert_eq!(config.target, "app.neu");
    assert_eq!(config.inner_size, Some(WindowSize::Medium));
    assert_eq!(config.min_inner_size, None);
    assert_eq!(config.max_inner_size, None);
    assert!(config.resizable);
    assert!(!config.fullscreen);
    assert_eq!(config.title, "");
    assert!(!config.maximized);
    assert!(config.visible);
    assert!(!config.transparent);
    assert!(config.decorations);
    assert!(!config.always_on_top);
    assert_eq!(config.icon, None);
    assert!(!config.spa);
    assert_eq!(config.url.as_deref(), Some("/index.html"));
    assert_eq!(config.html, None);
    assert_eq!(config.initialization_script, None);
}

#[test]
fn default_icon_is_empty() {
    let icon = Icon::default();
    assert!(icon.rgba.is_empty());
    assert_eq!((icon.width, icon.height), (0, 0));
}

#[test]
fn window_record_copies_the_configuration() {
    let mut config = Config::default();
    config.title = "Neutauri Demo".to_string();
    config.inner_size = Some(WindowSize::Fixed {
        width_bits: 800.0f64.to_bits(),
        height_bits: 600.0f64.to_bits(),
    });
    config.min_inner_size = Some(WindowSize::Small);
    config.max_inner_size = Some(WindowSize::Scale { factor_bits: 0.9f64.to_bits() });
    config.resizable = false;
    config.fullscreen = true;
    config.maximized = true;
    config.visible = false;
    config.transparent = true;
    config.decorations = false;
    config.always_on_top = true;
    let attr = config.window_attr(None);
    assert_eq!(attr.inner_size, config.inner_size);
    assert_eq!(attr.min_inner_size, Some(WindowSize::Small));
    assert_eq!(attr.max_inner_size, config.max_inner_size);
    assert_eq!(attr.position, None);
    assert!(!attr.resizable);
    assert!(attr.fullscreen);
    assert_eq!(attr.title, "Neutauri Demo");
    assert!(attr.maximized);
    assert!(!attr.visible);
    assert!(attr.transparent);
    assert!(!attr.decorations);
    assert!(attr.always_on_top);
    assert!(attr.icon.is_none());
}

#[test]
fn window_record_takes_the_icon_only_where_one_is_configured() {
    let pixels = Icon { rgba: vec![1, 2, 3, 4], width: 1, height: 1 };
    let mut config = Config::default();
    assert!(config.window_attr(Some(pixels.clone())).icon.is_none());
    config.icon = Some("icon.png".to_string());
    let icon = config.window_attr(Some(pixels)).icon.unwrap();
    assert_eq!(icon.rgba, vec![1, 2, 3, 4]);
    assert_eq!((icon.width, icon.height), (1, 1));
    assert!(config.window_attr(None).icon.is_none());
}

#[test]
fn webview_record_copies_the_configuration() {
    let mut config = Config::default();
    config.visible = false;
    config.transparent = true;
    config.spa = true;
    config.url = Some("https://example.com".to_string());
    let attr = config.webview_attr(Some("<p>unused</p>".to_string()), Some("unused()".to_string()));
    assert!(!attr.visible);
    assert!(attr.transparent);
    assert!(attr.spa);
    assert_eq!(attr.url.as_deref(), Some("https://example.com"));
    assert_eq!(attr.html, None);
    assert_eq!(attr.initialization_script, None);
    config.html = Some("page.html".to_string());
    config.initialization_script = Some("init.js".to_string());
    let attr = config.webview_attr(Some("<p>hi</p>".to_string()), Some("init()".to_string()));
    assert_eq!(attr.html.as_deref(), Some("<p>hi</p>"));
    assert_eq!(attr.initialization_script.as_deref(), Some("init()"));
    let attr = config.webview_attr(None, None);
    assert_eq!(attr.html, None);
    assert_eq!(attr.initialization_script, None);
    config.url = None;
    assert_eq!(config.webview_attr(None, None).url, None);
}

#[test]
fn target_extension_selects_the_form() {
    assert_eq!(build_mode("app.neu"), BuildMode::Payload);
    assert_eq!(build_mode("/out/dist/data.neu"), BuildMode::Payload);
    assert_eq!(build_mode("out/./x/../data.neu"), BuildMode::Payload);
    assert_eq!(build_mode("archive.tar.neu"), BuildMode::Payload);
    assert_eq!(build_mode("data.neu/"), BuildMode::Payload);
    assert_eq!(build_mode("app"), BuildMode::Executable);
    assert_eq!(build_mode("app.exe"), BuildMode::Executable);
    assert_eq!(build_mode("app.NEU"), BuildMode::Executable);
    assert_eq!(build_mode("app.neu2"), BuildMode::Executable);
    assert_eq!(build_mode("app.ne"), BuildMode::Executable);
    assert_eq!(build_mode("app.neu.bak"), BuildMode::Executable);
    assert_eq!(build_mode(".neu"), BuildMode::Executable);
    assert_eq!(build_mode("dir.neu/app"), BuildMode::Executable);
    assert_eq!(build_mode("neu"), BuildMode::Executable);
    assert_eq!(build_mode(""), BuildMode::Executable);
    assert_eq!(build_mode("/"), BuildMode::Executable);
    assert_eq!(build_mode("data.neu/.."), BuildMode::Executable);
}

#[test]
fn target_extension_agrees_with_the_standard_library() {
    for target in ["app.neu", ".neu", "a.b.neu", "x/.y.neu", "neu", "a.neu.", "..neu", "a/b.c/d"] {
        let extension = std::path::Path::new(target).extension().and_then(|e| e.to_str());
        let expected = extension == Some("neu");
        assert_eq!(build_mode(target) == BuildMode::Payload, expected);
    }
}

#[test]
fn platform_extension_is_added_only_where_wanted_and_missing() {
    assert_eq!(platform_target("out/app", true), "out/app.exe");
    assert_eq!(platform_target("/out/./app", true), "/out/app.exe");
    assert_eq!(platform_target(".hidden", true), ".hidden.exe");
    assert_eq!(platform_target("app.exe", true), "app.exe");
    assert_eq!(platform_target("app.neu", true), "app.neu");
    assert_eq!(platform_target("app.", true), "app.");
    assert_eq!(platform_target("", true), "");
    assert_eq!(platform_target("/", true), "/");
    assert_eq!(platform_target("out/app", false), "out/app");
    assert_eq!(platform_target("out//app/../tool", false), "out/tool");
}

#[test]
fn artifact_is_the_container_alone_or_behind_the_runtime() {
    let container = frame(b"payload").unwrap();
    assert_eq!(artifact(BuildMode::Payload, b"runtime image", &container), container);
    let program = artifact(BuildMode::Executable, b"runtime image", &container);
    assert_eq!(&program[..13], b"runtime image");
    assert_eq!(&program[13..], &container[..]);
    assert_eq!(locate(&program), Ok(b"payload".to_vec()));
    let alone = artifact(BuildMode::Payload, b"ignored", &container);
    assert_eq!(locate(&alone), Ok(b"payload".to_vec()));
    assert_eq!(artifact(BuildMode::Executable, b"", &container), container);
}

#[test]
fn addresses_are_made_of_protocol_and_path() {
    assert_eq!(custom_protocol_uri("dev", "/index.html"), "dev:///index.html");
    assert_eq!(custom_protocol_uri("neu", "localhost/a"), "neu://localhost/a");
    assert_eq!(custom_protocol_uri("", ""), "://");
    assert_eq!(runtime_uri("/index.html"), "neu://localhost/index.html");
    assert_eq!(runtime_uri(""), "neu://localhost");
}

#[test]
fn path_is_taken_out_of_an_address() {
    assert_eq!(
        custom_protocol_uri_to_path("dev", "dev:///index.html"),
        Ok("/index.html".to_string())
    );
    assert_eq!(custom_protocol_uri_to_path("dev", "dev://"), Ok(String::new()));
    assert_eq!(custom_protocol_uri_to_path("dev", "dev://a/b?c#d"), Ok("a/b?c#d".to_string()));
    assert_eq!(custom_protocol_uri_to_path("dév", "dév://ü/ß"), Ok("ü/ß".to_string()));
    let uri = custom_protocol_uri("dev", "/x/y.js");
    assert_eq!(custom_protocol_uri_to_path("dev", &uri), Ok("/x/y.js".to_string()));
}

#[test]
fn foreign_address_is_refused() {
    for uri in ["http://example.com", "dev:/index.html", "dev", "", "xdev://a", "DEV://a"] {
        assert_eq!(custom_protocol_uri_to_path("dev", uri), Err(DataError::ForeignUri));
    }
}

#[test]
fn texts_are_compared_character_by_character() {
    assert!(same_text("", ""));
    assert!(same_text("/index.html", "/index.html"));
    assert!(!same_text("/index.html", "/index.htm"));
    assert!(!same_text("/index.html", "/Index.html"));
    assert!(!same_text("a", "ab"));
    assert!(same_text("日本語", "日本語"));
    assert!(!same_text("日本語", "日本"));
    assert!(has_prefix("dev://x", "dev://"));
    assert!(has_prefix("dev://", "dev://"));
    assert!(has_prefix("anything", ""));
    assert!(!has_prefix("dev:/", "dev://"));
    assert!(!has_prefix("xdev://", "dev://"));
    assert!(has_prefix("ünïcode", "ünï"));
}

#[test]
fn media_type_of_a_name_alone() {
    assert_eq!(media_type("index.html"), "text/html");
    assert_eq!(media_type("dir/photo.jpeg"), "image/jpeg");
    assert_eq!(media_type("font.woff2"), "font/woff2");
    assert_eq!(media_type("no_extension"), "application/octet-stream");
    assert_eq!(media_type("trailing."), "application/octet-stream");
}
