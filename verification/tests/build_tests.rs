use nativeshell::artifacts_emitter::ArtifactsEmitter;
use nativeshell::build_error::{BuildError, FileOperation};
use nativeshell::flutter_build::{tool_succeeded, Flutter, FlutterOptions, TargetOS};
use nativeshell::macos_bundle::{AppBundleOptions, MacOSBundle};
use nativeshell::plugins::{Plugins, PluginsImpl};
use nativeshell::yaml::YamlNode;

fn s(x: &str) -> YamlNode {
    YamlNode::String(x.to_string())
}

fn build<'a>(os: TargetOS, mode: &str, arch: &str, options: FlutterOptions<'a>) -> Flutter<'a> {
    Flutter::new("/root".to_string(), "/out".to_string(), options, mode.to_string(), os, arch)
}

#[test]
fn test_extract_assets() {
    let pub_spec = r#"
flutter:
  assets:
    - asset1
    - asset2
  fonts:
    - family: Raleway
      fonts:
        - asset: fonts/Raleway-Regular.ttf
        - asset: fonts/Raleway-Italic.ttf
          style: italic
    - family: RobotoMono
      fonts:
        - asset: fonts/RobotoMono-Regular.ttf
        - asset: fonts/RobotoMono-Bold.ttf
          weight: 700
    "#;
    let assets = Flutter::extract_assets(pub_spec).unwrap();
    let expected: Vec<String> = vec![
        "asset1".into(),
        "asset2".into(),
        "fonts/Raleway-Regular.ttf".into(),
        "fonts/Raleway-Italic.ttf".into(),
        "fonts/RobotoMono-Regular.ttf".into(),
        "fonts/RobotoMono-Bold.ttf".into(),
    ];
    assert_eq!(assets, expected);
}

#[test]
fn extract_assets_without_flutter_section_is_empty() {
    let assets = Flutter::extract_assets("name: app\nversion: 1.0.0\n").unwrap();
    assert!(assets.is_empty());
}

#[test]
fn extract_assets_skips_non_string_entries() {
    let pub_spec = "flutter:\n  assets:\n    - a\n    - 3\n    - b\n";
    let assets = Flutter::extract_assets(pub_spec).unwrap();
    assert_eq!(assets, vec!["a".to_string(), "b".to_string()]);
}

#[test]
fn extract_assets_reports_invalid_yaml() {
    let r = Flutter::extract_assets("flutter: [unclosed\n");
    assert!(matches!(r, Err(BuildError::YamlError { .. })));
}

#[test]
fn try_extract_assets_without_document() {
    assert!(Flutter::try_extract_assets("").is_none());
    let r = Flutter::try_extract_assets("flutter:\n  assets:\n    - x\n").unwrap().unwrap();
    assert_eq!(r, vec!["x".to_string()]);
}

#[test]
fn target_os_names() {
    assert_eq!(Flutter::target_os("macos"), Some(TargetOS::Mac));
    assert_eq!(Flutter::target_os("windows"), Some(TargetOS::Windows));
    assert_eq!(Flutter::target_os("linux"), Some(TargetOS::Linux));
    assert_eq!(Flutter::target_os("android"), None);
}

#[test]
fn target_platforms_and_darwin_arch() {
    assert_eq!(Flutter::target_platform(TargetOS::Mac, "aarch64"), "darwin");
    assert_eq!(Flutter::target_platform(TargetOS::Windows, "x86_64"), "windows-x64");
    assert_eq!(Flutter::target_platform(TargetOS::Linux, "aarch64"), "linux-arm64");
    assert_eq!(Flutter::darwin_arch(TargetOS::Mac, "x86_64"), Some("x86_64".to_string()));
    assert_eq!(Flutter::darwin_arch(TargetOS::Mac, "aarch64"), Some("arm64".to_string()));
    assert_eq!(Flutter::darwin_arch(TargetOS::Linux, "aarch64"), None);
}

#[test]
fn build_modes() {
    assert_eq!(Flutter::build_mode("debug", None), "debug");
    assert_eq!(Flutter::build_mode("release", Some("true")), "profile");
    assert_eq!(Flutter::build_mode("release", Some("1")), "profile");
    assert_eq!(Flutter::build_mode("release", Some("false")), "release");
    assert_eq!(Flutter::macosx_deployment_target(TargetOS::Mac, None), "10.13");
    assert_eq!(Flutter::macosx_deployment_target(TargetOS::Mac, Some("11.0")), "11.0");
}

#[test]
fn assemble_actions_per_platform() {
    let mac = build(TargetOS::Mac, "release", "aarch64", FlutterOptions::default());
    assert_eq!(mac.assemble_actions(), vec!["release_macos_bundle_flutter_assets".to_string()]);
    let win_debug = build(TargetOS::Windows, "debug", "x86_64", FlutterOptions::default());
    assert_eq!(
        win_debug.assemble_actions(),
        vec!["kernel_snapshot".to_string(), "copy_assets".to_string()]
    );
    let win = build(TargetOS::Windows, "profile", "x86_64", FlutterOptions::default());
    assert_eq!(win.assemble_actions(), vec!["profile_bundle_windows_assets".to_string()]);
    let linux = build(TargetOS::Linux, "release", "x86_64", FlutterOptions::default());
    assert_eq!(linux.assemble_actions(), vec!["release_bundle_linux-x64_assets".to_string()]);
}

#[test]
fn dart_defines_are_base64_joined() {
    let defines: [&str; 2] = ["A=1", "B=xyz"];
    let mut options = FlutterOptions::default();
    options.dart_defines = &defines;
    let b = build(TargetOS::Linux, "debug", "x86_64", options);
    assert_eq!(b.dart_defines_arg(), "--DartDefines=QT0x,Qj14eXo=");
    let none = build(TargetOS::Linux, "debug", "x86_64", FlutterOptions::default());
    assert_eq!(none.dart_defines_arg(), "--DartDefines=");
}

#[test]
fn default_options() {
    let o = FlutterOptions::default();
    assert_eq!(o.target_file, "lib/main.dart");
    assert!(o.project_root.is_none());
    assert!(o.dart_defines.is_empty());
}

#[test]
fn asset_link_roots() {
    assert_eq!(Flutter::asset_link_root("images/a.png"), Some("images".to_string()));
    assert_eq!(Flutter::asset_link_root("file.txt"), Some("file.txt".to_string()));
    assert_eq!(Flutter::asset_link_root("packages/foo/a.png"), None);
    assert_eq!(Flutter::asset_link_root(""), Some("".to_string()));
}

#[test]
fn file_uris() {
    assert_eq!(Flutter::file_uri("/home/a"), "file:///home/a");
    assert_eq!(Flutter::file_uri("C:/src/a"), "file:///C:/src/a");
    assert!(Flutter::is_relative_root("../pkg"));
    assert!(!Flutter::is_relative_root("file:///pkg"));
}

#[test]
fn precache_decisions() {
    let b = build(TargetOS::Windows, "debug", "x86_64", FlutterOptions::default());
    assert_eq!(b.precache_platform_flag(), "--windows");
    assert!(b.needs_precache("abc", None));
    assert!(b.needs_precache("abc", Some("old")));
    assert!(!b.needs_precache("abc", Some("abc")));
    let mut options = FlutterOptions::default();
    options.local_engine = Some("host_debug");
    let local = build(TargetOS::Windows, "debug", "x86_64", options);
    assert!(!local.needs_precache("abc", None));
}

#[test]
fn engine_artifacts_names() {
    let mac = build(TargetOS::Mac, "release", "x86_64", FlutterOptions::default());
    let e = ArtifactsEmitter::new(&mac, "/f".into(), "/b".into(), "/a".into());
    assert_eq!(e.engine_artifacts_dir_name("release"), "darwin-x64-release");
    assert_eq!(e.engine_artifacts_dir_name("debug"), "darwin-x64");
    let win = build(TargetOS::Windows, "debug", "x86_64", FlutterOptions::default());
    let e = ArtifactsEmitter::new(&win, "/f".into(), "/b".into(), "/a".into());
    assert_eq!(e.engine_artifacts_dir_name("profile"), "windows-x64-profile");
    assert_eq!(
        e.external_libraries(),
        vec!["flutter_windows.dll", "flutter_windows.dll.lib", "flutter_windows.dll.pdb"]
    );
    assert!(e.copies_kernel_blob());
}

#[test]
fn plugin_file_entries() {
    let file = "# comment\nfoo=/path/foo\nbar=/path/b=ar\n\nnoeq";
    let entries = Plugins::plugin_entries(file);
    assert_eq!(
        entries,
        vec![
            ("foo".to_string(), "/path/foo".to_string()),
            ("bar".to_string(), "/path/b=ar".to_string()),
        ]
    );
    assert!(Plugins::plugin_entries("").is_empty());
    for (name, path) in Plugins::plugin_entries("a=b=c\nd=") {
        assert!(!name.contains('='));
        assert!(["a=b=c".to_string(), "d=".to_string()].contains(&format!("{}={}", name, path)));
    }
}

#[test]
fn plugin_platform_infos() {
    let windows = YamlNode::Hash(vec![(s("pluginClass"), s("FooPlugin"))]);
    let macos = YamlNode::Hash(vec![
        (s("pluginClass"), s("FooPlugin")),
        (s("sharedDarwinSource"), YamlNode::Boolean(true)),
    ]);
    let linux = YamlNode::Hash(vec![(s("pluginClass"), s("none"))]);
    let web = YamlNode::Hash(vec![(s("ffiPlugin"), YamlNode::Boolean(true))]);
    let android = YamlNode::Hash(vec![(s("package"), s("x"))]);
    let doc = YamlNode::Hash(vec![(
        s("flutter"),
        YamlNode::Hash(vec![(
            s("plugin"),
            YamlNode::Hash(vec![(
                s("platforms"),
                YamlNode::Hash(vec![
                    (s("windows"), windows),
                    (s("macos"), macos),
                    (s("linux"), linux),
                    (s("web"), web),
                    (s("android"), android),
                ]),
            )]),
        )]),
    )]);
    let infos = Plugins::platform_infos(&doc);
    assert_eq!(infos.len(), 3);
    assert_eq!(infos[0].0, "windows");
    assert_eq!(infos[0].1.plugin_class, Some("FooPlugin".to_string()));
    assert_eq!(infos[0].1.platform_directory, "windows");
    assert_eq!(infos[1].0, "macos");
    assert_eq!(infos[1].1.platform_directory, "darwin");
    assert_eq!(infos[2].0, "web");
    assert_eq!(infos[2].1.plugin_class, None);
    assert!(Plugins::platform_infos(&YamlNode::Null).is_empty());
}

#[test]
fn registrar_sources() {
    let linux = PluginsImpl::linux_registrar_source(&vec!["UrlLauncherPlugin".to_string()]);
    let expected = "fn flutter_get_plugins() -> Vec<nativeshell::shell::platform::engine::PlatformPlugin> {\n  extern \"C\" { pub fn url_launcher_plugin_register_with_registrar(registrar: *mut std::os::raw::c_void); }\n  vec![\n    nativeshell::shell::platform::engine::PlatformPlugin { name: \"UrlLauncherPlugin\".into(), register_func: Some(url_launcher_plugin_register_with_registrar) },\n  ]\n}\n";
    assert_eq!(linux, expected);
    let mac = PluginsImpl::macos_registrar_source(&vec![(
        "FooPlugin".to_string(),
        "_TtC3foo9FooPlugin".to_string(),
    )]);
    let expected = "fn flutter_get_plugins() -> Vec<nativeshell::shell::platform::engine::PlatformPlugin> {\n  vec![\n    nativeshell::shell::platform::engine::PlatformPlugin { name: \"FooPlugin\".into(), class:\"_TtC3foo9FooPlugin\".into() },\n  ]\n}\n";
    assert_eq!(mac, expected);
    let empty = PluginsImpl::macos_registrar_source(&vec![]);
    assert_eq!(
        empty,
        "fn flutter_get_plugins() -> Vec<nativeshell::shell::platform::engine::PlatformPlugin> {\n  vec![\n  ]\n}\n"
    );
}

#[test]
fn swift_class_names() {
    assert_eq!(
        PluginsImpl::swift_class_name("SWIFT_CLASS(\"_TtC3foo9FooPlugin\")", "FooPlugin"),
        Some("_TtC3foo9FooPlugin".to_string())
    );
    assert_eq!(PluginsImpl::swift_class_name("SWIFT_CLASS(\"_TtC3foo3Bar\")", "FooPlugin"), None);
    assert_eq!(PluginsImpl::swift_class_name("@interface FooPlugin", "FooPlugin"), None);
    assert_eq!(PluginsImpl::swift_class_name("SWIFT_CLASS(\"\")", ""), Some("".to_string()));
}

#[test]
fn pods_configuration() {
    let debug = build(TargetOS::Mac, "debug", "aarch64", FlutterOptions::default());
    let e = ArtifactsEmitter::new(&debug, "/f".into(), "/b".into(), "/a".into());
    assert_eq!(PluginsImpl::new(&debug, &e).pods_configuration(), "Debug");
    let release = build(TargetOS::Mac, "release", "aarch64", FlutterOptions::default());
    let e = ArtifactsEmitter::new(&release, "/f".into(), "/b".into(), "/a".into());
    assert_eq!(PluginsImpl::new(&release, &e).pods_configuration(), "Release");
    assert_eq!(Plugins::new(&release, &e).platform_name(), "macos");
}

fn bundle_options() -> AppBundleOptions {
    AppBundleOptions {
        bundle_identifier: "dev.example".into(),
        bundle_name: "App.app".into(),
        bundle_display_name: "App".into(),
        bundle_version: "1.2".into(),
        bundle_short_version_string: "1".into(),
        minimum_system_version: "10.13".into(),
        executable_path: "app".into(),
        icon_file: "App.icns".into(),
        info_plist_template: None,
        info_plist_additional_args: vec![("EXTRA".into(), "x${BUNDLE_NAME}".into())],
    }
}

#[test]
fn info_plist_values() {
    let bundle = MacOSBundle::new(bundle_options());
    let template = "<id>${BUNDLE_IDENTIFIER}</id><exe>${BUNDLE_EXECUTABLE}</exe><v>${BUNDLE_VERSION}/${BUNDLE_SHORT_VERSION_STRING}</v><e>${EXTRA}</e><n>${BUNDLE_NAME}${BUNDLE_NAME}</n><m>${MINIMUM_SYSTEM_VERSION}</m><i>${ICON_FILE}</i><u>${UNKNOWN}</u>";
    let plist = bundle.info_plist(template, "app", "App.icns");
    assert_eq!(
        plist,
        "<id>dev.example</id><exe>app</exe><v>1.2/1</v><e>x${BUNDLE_NAME}</e><n>AppApp</n><m>10.13</m><i>App.icns</i><u>${UNKNOWN}</u>"
    );
}

#[test]
fn replace_plist_value_replaces_every_occurrence() {
    let mut plist = "${A}-${A}-${AB}".to_string();
    MacOSBundle::replace_plist_value(&mut plist, "A", "z");
    assert_eq!(plist, "z-z-${AB}");
}

#[test]
fn tool_success_from_status_or_flutter_output() {
    assert!(tool_succeeded(true, "cargo", "", false));
    assert!(!tool_succeeded(false, "cargo", "exiting with code 0", true));
    assert!(!tool_succeeded(false, "flutter", "exiting with code 0", false));
    assert!(tool_succeeded(false, "flutter", "Building...\nexiting with code 0\r\n \t", true));
    assert!(!tool_succeeded(true, "flutter", "Building...\nexiting with code 1\n", true));
    assert!(!tool_succeeded(true, "flutter", "code 0", true));
    assert!(tool_succeeded(false, "flutter", "exiting with code 0\u{3000}\u{2029}", true));
}

#[test]
fn assemble_arguments_list() {
    let defines = ["A=1"];
    let mut options = FlutterOptions::default();
    options.dart_defines = &defines;
    options.local_engine = Some("host_debug");
    options.local_engine_src_path = Some("C:\\engine\\src");
    let b = Flutter::new("root".into(), "out".into(), options, "debug".into(), TargetOS::Linux, "x86_64");
    let args = b.assemble_arguments(Some("C:/engine/src"), "../lib/main.dart");
    let expected: Vec<String> = vec![
        "--local-engine=host_debug",
        "--local-engine-src-path=C:/engine/src",
        "assemble",
        "--output=.",
        "--define=BuildMode=debug",
        "--define=TargetPlatform=linux-x64",
        "--define=DarwinArchs=",
        "--define=TargetFile=../lib/main.dart",
        "--DartDefines=QT0x",
        "-v",
        "--suppress-analytics",
        "kernel_snapshot",
        "copy_assets",
    ]
    .into_iter()
    .map(String::from)
    .collect();
    assert_eq!(args, expected);
}

#[test]
fn build_error_messages() {
    let e = BuildError::FileOperationError {
        operation: FileOperation::Read,
        path: "a\"b".to_string(),
        source_path: None,
        source: "gone".to_string(),
    };
    assert_eq!(e.message(), "File operation failed: Read, path: \"a\\\"b\", error: gone");
    let e = BuildError::ToolError {
        command: "flutter".to_string(),
        status: Some(1),
        stderr: "x".to_string(),
        stdout: "y".to_string(),
    };
    assert_eq!(e.message(), "External Tool Failed!\nStatus: Some(1)\nCommand: flutter\nStderr:\nx\nStdout:\ny");
    assert_eq!(
        BuildError::JsonError { text: Some("t".to_string()), source: "bad".to_string() }.message(),
        "JSON operation failed: $badText:\nt"
    );
    assert_eq!(BuildError::OtherError("other".to_string()).message(), "other");
    assert_eq!(
        BuildError::FlutterPathInvalidError { path: "p".to_string() }.message(),
        "Flutter path \"p\" does not point to a valid flutter installation"
    );
    assert!(BuildError::FlutterLocalEngineNotFound.message().starts_with("Could not find path for local Flutter engine."));
    assert!(BuildError::FlutterNotFoundError.message().starts_with("Couldn't find Flutter installation."));
}

#[test]
fn assemble_arguments_with_found_engine_source() {
    let mut options = FlutterOptions::default();
    options.local_engine = Some("host_release");
    let b = Flutter::new("root".into(), "out".into(), options, "release".into(), TargetOS::Windows, "x86_64");
    let args = b.assemble_arguments(Some("C:/flutter/engine/src"), "main.dart");
    assert_eq!(args[0], "--local-engine=host_release");
    assert_eq!(args[1], "--local-engine-src-path=C:/flutter/engine/src");
    assert_eq!(args[2], "assemble");
}

#[test]
fn linux_plugin_build_list_and_link_names() {
    let names = vec!["url_launcher_linux".to_string(), "path_provider".to_string()];
    assert_eq!(
        PluginsImpl::cmake_list("project(x)\n", &names),
        "project(x)\nadd_subdirectory(\"flutter/url_launcher_linux\")\nadd_subdirectory(\"flutter/path_provider\")\n"
    );
    assert_eq!(PluginsImpl::cmake_list("t", &Vec::new()), "t");
    assert_eq!(PluginsImpl::link_name("liburl_launcher_linux_plugin.so"), Some("url_launcher_linux_plugin".to_string()));
    assert_eq!(PluginsImpl::link_name("lib.so"), Some(String::new()));
    assert_eq!(PluginsImpl::link_name("README.md"), None);
    assert_eq!(PluginsImpl::link_name("so"), None);
}
