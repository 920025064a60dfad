use mopro_ffi::app_config::constants::{
    AndroidArch, AndroidPlatform, Arch, IosArch, IosPlatform, Mode, Platform, WebArch,
    WebPlatform, ANDROID_ARCHS_ENV, IOS_ARCHS_ENV,
};

#[test]
fn mode_names() {
    assert_eq!(Mode::Debug.as_str(), "debug");
    assert_eq!(Mode::Release.as_str(), "release");
    assert_eq!(Mode::all_strings(), vec!["debug", "release"]);
}

#[test]
fn mode_parsing_ignores_case() {
    assert_eq!(Mode::parse_from_str("release"), Mode::Release);
    assert_eq!(Mode::parse_from_str("Release"), Mode::Release);
    assert_eq!(Mode::parse_from_str("DEBUG"), Mode::Debug);
    assert_eq!(Mode::try_parse_from_str("RELEASE"), Some(Mode::Release));
    assert_eq!(Mode::try_parse_from_str("profile"), None);
}

#[test]
fn mode_parsing_refuses_unknown_names() {
    assert_eq!(Mode::try_parse_from_str("fast"), None);
    assert_eq!(Mode::try_parse_from_str(""), None);
}

#[test]
fn mode_name_round_trip() {
    for m in [Mode::Debug, Mode::Release] {
        assert_eq!(Mode::try_parse_from_str(m.as_str()), Some(m));
        let i = Mode::idx(m.as_str()).unwrap();
        assert_eq!(Mode::from_idx(i), m);
    }
}

#[test]
fn mode_positions() {
    assert_eq!(Mode::idx("debug"), Some(0));
    assert_eq!(Mode::idx("release"), Some(1));
    assert_eq!(Mode::idx("Release"), None);
    assert_eq!(Mode::from_idx(0), Mode::Debug);
    assert_eq!(Mode::from_idx(1), Mode::Release);
}

#[test]
fn ios_archs() {
    assert_eq!(
        IosArch::all_strings(),
        vec!["aarch64-apple-ios", "aarch64-apple-ios-sim", "x86_64-apple-ios"]
    );
    for a in [IosArch::Aarch64Apple, IosArch::Aarch64AppleSim, IosArch::X8664Apple] {
        assert_eq!(IosArch::parse_from_str(a.as_str()), a);
        assert_eq!(IosArch::try_parse_from_str(&a.as_str().to_uppercase()), Some(a));
    }
    assert_eq!(IosArch::try_parse_from_str("armv7-apple-ios"), None);
    assert_eq!(IosArch::env_var_name(), IOS_ARCHS_ENV);
    let display = IosArch::all_display_strings();
    assert_eq!(display.len(), 3);
    assert_eq!(
        display[1],
        (
            "aarch64-apple-ios-sim".to_string(),
            "ARM64 iOS simulator on Apple Silicon Macs".to_string()
        )
    );
}

#[test]
fn android_archs() {
    assert_eq!(
        AndroidArch::all_strings(),
        vec![
            "x86_64-linux-android",
            "i686-linux-android",
            "armv7-linux-androideabi",
            "aarch64-linux-android"
        ]
    );
    for a in [
        AndroidArch::X8664Linux,
        AndroidArch::I686Linux,
        AndroidArch::Armv7LinuxAbi,
        AndroidArch::Aarch64Linux,
    ] {
        assert_eq!(AndroidArch::parse_from_str(a.as_str()), a);
    }
    assert_eq!(
        AndroidArch::try_parse_from_str("AARCH64-LINUX-ANDROID"),
        Some(AndroidArch::Aarch64Linux)
    );
    assert_eq!(AndroidArch::try_parse_from_str("mips-linux-android"), None);
    assert_eq!(AndroidArch::env_var_name(), ANDROID_ARCHS_ENV);
    assert_eq!(
        AndroidArch::all_display_strings()[0].1,
        "64-bit Android emulators (x86_64 architecture)"
    );
}

#[test]
fn web_arch() {
    assert_eq!(WebArch.as_str(), "wasm32-unknown-unknown");
    assert_eq!(WebArch::parse_from_str("anything").as_str(), "wasm32-unknown-unknown");
    assert_eq!(WebArch::all_strings(), vec!["wasm32-unknown-unknown"]);
    assert_eq!(
        WebArch::all_display_strings(),
        vec![("wasm32-unknown-unknown".to_string(), "WebAssembly".to_string())]
    );
    assert_eq!(WebArch::env_var_name(), "WEB_ARCHS");
}

#[test]
fn platform_identifiers() {
    assert_eq!(IosPlatform::identifier(), "iOS Bindings Builder");
    assert_eq!(AndroidPlatform::identifier(), "Android Bindings Builder");
    assert_eq!(WebPlatform::identifier(), "Web Bindings Builder");
}
