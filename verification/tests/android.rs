use mopro_ffi::app_config::android::{
    barretenberg_android_arch, barretenberg_prebuilt_dir_name, barretenberg_prebuilt_url,
    combine_rustflags, first_zig_linked, jni_lib_folder, kotlin_file_name, android_lib_name,
    linker_flag, ndk_bindgen_args, ndk_build_arguments, ndk_host_tag,
    parse_barretenberg_rs_version, rename_kotlin_package, zig_libc_config, zig_linker_wrapper,
};
use mopro_ffi::app_config::constants::{AndroidArch, Mode};

#[test]
fn parses_barretenberg_rs_version_from_lockfile() {
    let lock = r#"
[[package]]
name = "anyhow"
version = "1.0.86"

[[package]]
name = "barretenberg-rs"
version = "4.2.0-aztecnr-rc.2"
source = "registry+https://github.com/rust-lang/crates.io-index"
dependencies = [
 "serde",
]

[[package]]
name = "camino"
version = "1.1.9"
"#;
    assert_eq!(
        parse_barretenberg_rs_version(lock).as_deref(),
        Some("4.2.0-aztecnr-rc.2")
    );
}

#[test]
fn returns_none_when_barretenberg_rs_absent() {
    let lock = r#"
[[package]]
name = "anyhow"
version = "1.0.86"

[[package]]
name = "camino"
version = "1.1.9"
"#;
    assert_eq!(parse_barretenberg_rs_version(lock), None);
}

#[test]
fn does_not_confuse_a_dependency_mention_with_the_package_entry() {
    let lock = r#"
[[package]]
name = "noir"
version = "1.0.0-beta.19"
dependencies = [
 "barretenberg-rs",
]

[[package]]
name = "barretenberg-rs"
version = "4.3.0"
"#;
    assert_eq!(
        parse_barretenberg_rs_version(lock).as_deref(),
        Some("4.3.0")
    );
}

#[test]
fn lockfile_entry_without_version_before_next_package_gives_none() {
    let lock = "[[package]]\nname = \"barretenberg-rs\"\nsource = \"x\"\n\n[[package]]\nname = \"other\"\nversion = \"1.0.0\"\n";
    assert_eq!(parse_barretenberg_rs_version(lock), None);
}

#[test]
fn lockfile_version_without_closing_quote_gives_none() {
    let lock = "[[package]]\nname = \"barretenberg-rs\"\nversion = \"4.3.0\n";
    assert_eq!(parse_barretenberg_rs_version(lock), None);
}

#[test]
fn lockfile_with_crlf_and_indentation_is_read() {
    let lock = "[[package]]\r\n  name = \"barretenberg-rs\"  \r\n\tversion = \"0.1.2\"\r\n";
    assert_eq!(parse_barretenberg_rs_version(lock).as_deref(), Some("0.1.2"));
}

#[test]
fn empty_lockfile_gives_none() {
    assert_eq!(parse_barretenberg_rs_version(""), None);
}

#[test]
fn jni_folders_per_target() {
    assert_eq!(jni_lib_folder(AndroidArch::X8664Linux), "x86_64");
    assert_eq!(jni_lib_folder(AndroidArch::I686Linux), "x86");
    assert_eq!(jni_lib_folder(AndroidArch::Armv7LinuxAbi), "armeabi-v7a");
    assert_eq!(jni_lib_folder(AndroidArch::Aarch64Linux), "arm64-v8a");
}

#[test]
fn barretenberg_prebuilts_exist_for_64_bit_targets_only() {
    assert_eq!(barretenberg_android_arch(AndroidArch::X8664Linux), Some("x86_64-android"));
    assert_eq!(barretenberg_android_arch(AndroidArch::Aarch64Linux), Some("arm64-android"));
    assert_eq!(barretenberg_android_arch(AndroidArch::I686Linux), None);
    assert_eq!(barretenberg_android_arch(AndroidArch::Armv7LinuxAbi), None);
}

#[test]
fn barretenberg_prebuilt_locations() {
    assert_eq!(
        barretenberg_prebuilt_dir_name("arm64-android", "4.3.0"),
        "arm64-android-4.3.0"
    );
    assert_eq!(
        barretenberg_prebuilt_url("4.3.0", "x86_64-android"),
        "https://github.com/AztecProtocol/aztec-packages/releases/download/v4.3.0/barretenberg-static-x86_64-android.tar.gz"
    );
}

#[test]
fn ndk_arguments_add_release_flag_in_release_mode() {
    let debug = ndk_build_arguments(AndroidArch::Aarch64Linux, Mode::Debug);
    assert_eq!(
        debug,
        vec![
            "ndk",
            "-t",
            "aarch64-linux-android",
            "--platform",
            "30",
            "build",
            "--link-libcxx-shared",
            "--lib"
        ]
    );
    let release = ndk_build_arguments(AndroidArch::Aarch64Linux, Mode::Release);
    assert_eq!(release.len(), 9);
    assert_eq!(release[8], "--release");
    assert_eq!(ndk_bindgen_args(AndroidArch::X8664Linux)[2], "x86_64-linux-android");
}

#[test]
fn file_names_of_the_android_build() {
    assert_eq!(android_lib_name("mopro_example"), "libmopro_example.so");
    assert_eq!(kotlin_file_name("mopro_example"), "mopro_example.kt");
}

#[test]
fn ndk_host_tags() {
    assert_eq!(ndk_host_tag("macos"), "darwin-x86_64");
    assert_eq!(ndk_host_tag("windows"), "windows-x86_64");
    assert_eq!(ndk_host_tag("linux"), "linux-x86_64");
    assert_eq!(ndk_host_tag("freebsd"), "linux-x86_64");
}

#[test]
fn rustflags_keep_what_the_caller_set() {
    assert_eq!(combine_rustflags(None, "-Clinker=/w.sh"), "-Clinker=/w.sh");
    assert_eq!(combine_rustflags(Some("   "), "-Clinker=/w.sh"), "-Clinker=/w.sh");
    assert_eq!(
        combine_rustflags(Some("-C opt-level=3"), "-Clinker=/w.sh"),
        "-C opt-level=3 -Clinker=/w.sh"
    );
    assert_eq!(linker_flag("/tmp/zig.sh"), "-Clinker=/tmp/zig.sh");
}

#[test]
fn zig_configuration_files() {
    assert_eq!(
        zig_libc_config("/inc", "/inc/arch", "/crt"),
        "include_dir=/inc\nsys_include_dir=/inc/arch\ncrt_dir=/crt\nmsvc_lib_dir=\nkernel32_lib_dir=\ngcc_dir=\n"
    );
    assert_eq!(
        zig_linker_wrapper("/b/libc.txt", "x86_64-linux-android", "/crt", "/lib"),
        "#!/bin/sh\nset -e\nexport ZIG_LIBC=\"/b/libc.txt\"\nexec zig cc -target x86_64-linux-android -L \"/crt\" -L \"/lib\" \"$@\" -lc++_shared\n"
    );
}

#[test]
fn kotlin_package_is_renamed_everywhere() {
    let content = "package uniffi.mopro_example\n\nimport foo\n// package uniffi.mopro_example\n";
    assert_eq!(
        rename_kotlin_package(content, "mopro_example", "mopro"),
        "package uniffi.mopro\n\nimport foo\n// package uniffi.mopro\n"
    );
}

#[test]
fn bindings_come_from_the_first_zig_linked_target() {
    let built = vec![
        (AndroidArch::I686Linux, false),
        (AndroidArch::X8664Linux, true),
        (AndroidArch::Aarch64Linux, true),
    ];
    assert_eq!(first_zig_linked(&built), Some(AndroidArch::X8664Linux));
    let none = vec![(AndroidArch::I686Linux, false)];
    assert_eq!(first_zig_linked(&none), None);
}
