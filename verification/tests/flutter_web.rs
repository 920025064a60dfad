use mopro_ffi::app_config::constants::Mode;
use mopro_ffi::app_config::flutter::{
    absolute_dependency_manifest, ensure_workspace_contents, patch_cargokit_contents,
    FlutterBindingsParams,
};
use mopro_ffi::app_config::web::{wasm_build_rustflags, wasm_pack_args};
use mopro_ffi::app_config::{lib_file_name, select_project_name};

#[test]
fn flutter_params_default_to_no_noir() {
    assert!(!FlutterBindingsParams::default().using_noir);
}

#[test]
fn workspace_is_appended_once() {
    let first = ensure_workspace_contents("[package]\nname = \"x\"").unwrap();
    assert_eq!(first, "[package]\nname = \"x\"\n\n[workspace]\n");
    assert_eq!(ensure_workspace_contents(&first), None);
}

#[test]
fn cargokit_script_is_patched() {
    let content = "if (plugin.class.name == \"com.flutter.gradle.FlutterPlugin\") {\n        def platforms = com.flutter.gradle.FlutterPluginUtils.getTargetPlatforms(project).collect()\n}";
    let patched = patch_cargokit_contents(content);
    assert!(patched.contains("|| plugin.class.name == \"FlutterPlugin\")"));
    assert!(patched.contains("platforms = plugin.getTargetPlatforms().collect()"));
    assert!(!patched.contains("def platforms ="));
}

#[test]
fn wasm_pack_arguments() {
    let args = wasm_pack_args(Mode::Release, "/out");
    assert_eq!(
        args,
        vec![
            "run",
            "nightly-2024-07-18",
            "wasm-pack",
            "build",
            "--target",
            "web",
            "--release",
            "--out-dir",
            "/out",
            "--out-name",
            "mopro_wasm_lib",
            "--no-default-features",
            "--features",
            "wasm"
        ]
    );
    assert_eq!(wasm_pack_args(Mode::Debug, "/out")[6], "--dev");
    assert_eq!(
        wasm_build_rustflags(),
        "-C target-feature=+atomics,+bulk-memory -C link-arg=--max-memory=4294967296"
    );
}

#[test]
fn project_name_prefers_the_lib_name() {
    assert_eq!(select_project_name(Some("core"), Some("my-app")).as_deref(), Some("core"));
    assert_eq!(select_project_name(None, Some("my-app-x")).as_deref(), Some("my_app_x"));
    assert_eq!(select_project_name(None, None), None);
    assert_eq!(lib_file_name("mopro", "so"), "libmopro.so");
}

#[test]
fn plugin_dependency_points_at_the_project() {
    let manifest = "[package]\nname = \"rust_lib_mopro\"\nversion = \"0.1.0\"\n\n[dependencies]\nflutter_rust_bridge = \"=2.9.0\"\nmopro-app = { path = \"../..\" }\n";
    let out = absolute_dependency_manifest(manifest, "mopro-app", "/home/u/mopro-app").unwrap();
    let doc: toml::Value = out.parse().unwrap();
    let dep = &doc["dependencies"]["mopro-app"];
    assert_eq!(dep["path"].as_str(), Some("/home/u/mopro-app"));
    assert_eq!(doc["dependencies"]["flutter_rust_bridge"].as_str(), Some("=2.9.0"));
    assert_eq!(doc["package"]["name"].as_str(), Some("rust_lib_mopro"));
}

#[test]
fn plugin_dependency_that_is_not_a_table_is_kept() {
    let manifest = "[dependencies]\nmopro-app = \"1.0\"\n";
    let out = absolute_dependency_manifest(manifest, "mopro-app", "/abs").unwrap();
    let doc: toml::Value = out.parse().unwrap();
    assert_eq!(doc["dependencies"]["mopro-app"].as_str(), Some("1.0"));
    assert_eq!(absolute_dependency_manifest("[dependencies\n", "mopro-app", "/abs"), None);
}
