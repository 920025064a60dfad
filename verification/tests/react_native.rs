use mopro_ffi::app_config::constants::Mode;
use mopro_ffi::app_config::react_native::{
    android_abi_for_triple, android_abis, build_arguments, fill_project_path, gradle_abis, join,
    patch_cmake_lists_contents, patch_gradle_properties_contents, react_native_steps,
    target_string, ReactNativeStep,
};

#[test]
fn abi_of_each_android_triple() {
    assert_eq!(android_abi_for_triple("aarch64-linux-android"), Some("arm64-v8a"));
    assert_eq!(android_abi_for_triple("armv7-linux-androideabi"), Some("armeabi-v7a"));
    assert_eq!(android_abi_for_triple("i686-linux-android"), Some("x86"));
    assert_eq!(android_abi_for_triple("x86_64-linux-android"), Some("x86_64"));
    assert_eq!(android_abi_for_triple("aarch64-apple-ios"), None);
}

#[test]
fn abis_keep_order_and_skip_non_android() {
    let triples = vec![
        "x86_64-linux-android".to_string(),
        "aarch64-apple-ios".to_string(),
        "aarch64-linux-android".to_string(),
    ];
    assert_eq!(android_abis(&triples), vec!["x86_64", "arm64-v8a"]);
}

#[test]
fn joins_with_separator() {
    assert_eq!(join(&["a", "b", "c"], ","), "a,b,c");
    assert_eq!(join(&[], ","), "");
    assert_eq!(join(&["x"], ","), "x");
}

#[test]
fn target_strings_per_platform() {
    let triples = ["aarch64-apple-ios", "x86_64-linux-android", "aarch64-apple-ios-sim"];
    assert_eq!(target_string(&triples, "ios"), "aarch64-apple-ios,aarch64-apple-ios-sim");
    assert_eq!(target_string(&triples, "android"), "x86_64-linux-android");
    assert_eq!(target_string(&["aarch64-apple-ios"], "android"), "");
}

#[test]
fn build_arguments_per_mode() {
    assert_eq!(
        build_arguments("ios", Mode::Release, "aarch64-apple-ios"),
        vec!["build", "ios", "--and-generate", "--release", "--targets", "aarch64-apple-ios"]
    );
    assert_eq!(
        build_arguments("android", Mode::Debug, "x86_64-linux-android"),
        vec!["build", "android", "--and-generate", "--targets", "x86_64-linux-android"]
    );
}

#[test]
fn steps_for_both_platforms() {
    let steps = react_native_steps(&["aarch64-apple-ios", "aarch64-linux-android"], Mode::Debug);
    assert_eq!(steps.len(), 5);
    assert!(matches!(steps[0], ReactNativeStep::GenerateJsi));
    match &steps[1] {
        ReactNativeStep::Build { args } => assert_eq!(args[1], "ios"),
        _ => panic!("expected the iOS build"),
    }
    match &steps[2] {
        ReactNativeStep::Build { args } => assert_eq!(args[4], "aarch64-linux-android"),
        _ => panic!("expected the Android build"),
    }
    assert!(matches!(steps[3], ReactNativeStep::PatchCmakeLists));
    assert!(matches!(steps[4], ReactNativeStep::SetXcframeworkFiles));
}

#[test]
fn steps_without_targets() {
    let steps = react_native_steps(&[], Mode::Release);
    assert_eq!(steps.len(), 2);
    assert!(matches!(steps[0], ReactNativeStep::GenerateJsi));
    assert!(matches!(steps[1], ReactNativeStep::SetXcframeworkFiles));
}

#[test]
fn project_path_is_filled_in() {
    assert_eq!(
        fill_project_path("rust:\n  directory: <%PATH_TO_PROJECT%>\n  x: <%PATH_TO_PROJECT%>", "/p"),
        "rust:\n  directory: /p\n  x: /p"
    );
}

#[test]
fn cmake_lists_without_the_broken_lookup_are_left_alone() {
    assert_eq!(patch_cmake_lists_contents("cmake_minimum_required(VERSION 3.4.1)\n"), None);
}

#[test]
fn cmake_lists_lookup_is_fixed() {
    let contents = "execute_process(COMMAND node -p \"require.resolve('uniffi-bindgen-react-native/package.json')\" OUTPUT_VARIABLE UNIFFI_BINDGEN_PATH)\n# Get the directory; get_filename_component and cmake_path will normalize\n# paths with Windows path separators.\nget_filename_component(UNIFFI_BINDGEN_PATH \"${UNIFFI_BINDGEN_PATH}\" DIRECTORY)\nset(X 1)\n";
    let patched = patch_cmake_lists_contents(contents).unwrap();
    assert_eq!(
        patched,
        "execute_process(COMMAND node -p \"require('path').dirname(require('path').dirname(require('path').dirname(require('path').dirname(require.resolve('uniffi-bindgen-react-native')))))\" OUTPUT_VARIABLE UNIFFI_BINDGEN_PATH)\nset(X 1)\n"
    );
    assert_eq!(patch_cmake_lists_contents(&patched), None);
}

#[test]
fn gradle_property_line_is_replaced_not_the_comment() {
    let contents = "# ./gradlew <task> -PreactNativeArchitectures=x86_64\nreactNativeArchitectures=armeabi-v7a,arm64-v8a,x86,x86_64\nnewArchEnabled=true\n";
    assert_eq!(
        patch_gradle_properties_contents(contents, &["arm64-v8a"]),
        "# ./gradlew <task> -PreactNativeArchitectures=x86_64\nreactNativeArchitectures=arm64-v8a\nnewArchEnabled=true\n"
    );
}

#[test]
fn gradle_property_is_appended_when_missing() {
    assert_eq!(
        patch_gradle_properties_contents("a=1", &["x86_64", "arm64-v8a"]),
        "a=1\nreactNativeArchitectures=x86_64,arm64-v8a\n"
    );
    assert_eq!(
        patch_gradle_properties_contents("a=1\n", &["x86"]),
        "a=1\nreactNativeArchitectures=x86\n"
    );
    assert_eq!(
        patch_gradle_properties_contents("", &["x86"]),
        "reactNativeArchitectures=x86\n"
    );
}

#[test]
fn gradle_property_with_indentation_and_crlf() {
    let contents = "a=1\r\n  reactNativeArchitectures=x86\r\nb=2\r\n";
    assert_eq!(
        patch_gradle_properties_contents(contents, &["arm64-v8a"]),
        "a=1\r\nreactNativeArchitectures=arm64-v8a\r\nb=2\r\n"
    );
}

#[test]
fn gradle_property_is_replaced_where_it_stands() {
    assert_eq!(
        patch_gradle_properties_contents(
            "# reactNativeArchitectures=x86\nreactNativeArchitectures=x86\n",
            &["arm64-v8a"]
        ),
        "# reactNativeArchitectures=x86\nreactNativeArchitectures=arm64-v8a\n"
    );
}

#[test]
fn gradle_is_left_alone_without_android_targets() {
    let ios = vec!["aarch64-apple-ios".to_string(), "x86_64-apple-ios".to_string()];
    assert_eq!(gradle_abis(&ios), None);
    assert_eq!(gradle_abis(&[]), None);
    let mixed = vec![
        "aarch64-apple-ios".to_string(),
        "x86_64-linux-android".to_string(),
        "aarch64-linux-android".to_string(),
    ];
    assert_eq!(gradle_abis(&mixed), Some(vec!["x86_64", "arm64-v8a"]));
}
