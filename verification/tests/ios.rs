use mopro_ffi::app_config::constants::{IosArch, Mode};
use mopro_ffi::app_config::ios::{
    default_ios_archs, group_target_archs, ios_arch_lib_path, ios_build_names, ios_dylib_path,
    ios_names_from_cases,
    parse_ios_archs,
};

#[test]
fn names_of_the_ios_build() {
    let names = ios_build_names("mopro-example_app");
    assert_eq!(names.camel_case_project_name, "MoproExampleApp");
    assert_eq!(names.snake_case_project_name, "mopro_example_app");
    assert_eq!(names.lib_name, "libmopro_example_app.a");
    assert_eq!(names.bindings_folder_name, "MoproExampleAppiOSBindings");
    assert_eq!(names.framework_name, "MoproExampleAppBindings.xcframework");
    assert_eq!(names.swift_name, "mopro.swift");
    assert_eq!(names.header_name, "moproFFI.h");
    assert_eq!(names.modulemap_name, "moproFFI.modulemap");
}

#[test]
fn names_from_given_cases() {
    let names = ios_names_from_cases("Foo", "foo");
    assert_eq!(names.lib_name, "libfoo.a");
    assert_eq!(names.framework_name, "FooBindings.xcframework");
}

#[test]
fn grouping_on_an_aarch64_host() {
    let archs = [IosArch::X8664Apple, IosArch::Aarch64Apple, IosArch::Aarch64AppleSim];
    assert_eq!(
        group_target_archs(&archs, "aarch64"),
        vec![vec![IosArch::Aarch64Apple], vec![IosArch::X8664Apple, IosArch::Aarch64AppleSim]]
    );
}

#[test]
fn grouping_on_an_x86_64_host() {
    let archs = [IosArch::X8664Apple, IosArch::Aarch64Apple, IosArch::Aarch64AppleSim];
    assert_eq!(
        group_target_archs(&archs, "x86_64"),
        vec![vec![IosArch::X8664Apple], vec![IosArch::Aarch64Apple, IosArch::Aarch64AppleSim]]
    );
}

#[test]
fn grouping_leaves_out_empty_groups() {
    assert_eq!(
        group_target_archs(&[IosArch::Aarch64AppleSim], "aarch64"),
        vec![vec![IosArch::Aarch64AppleSim]]
    );
    assert_eq!(
        group_target_archs(&[IosArch::Aarch64Apple], "aarch64"),
        vec![vec![IosArch::Aarch64Apple]]
    );
    assert_eq!(group_target_archs(&[], "x86_64"), Vec::<Vec<IosArch>>::new());
}

#[test]
fn all_targets_by_default() {
    assert_eq!(
        default_ios_archs(),
        vec![IosArch::Aarch64Apple, IosArch::Aarch64AppleSim, IosArch::X8664Apple]
    );
}

#[test]
fn configured_targets_are_parsed() {
    assert_eq!(
        parse_ios_archs("aarch64-apple-ios,X86_64-APPLE-IOS"),
        Some(vec![IosArch::Aarch64Apple, IosArch::X8664Apple])
    );
    assert_eq!(parse_ios_archs("aarch64-apple-ios,"), None);
    assert_eq!(parse_ios_archs("armv7"), None);
}

#[test]
fn dylib_path() {
    assert_eq!(
        ios_dylib_path(IosArch::Aarch64AppleSim, Mode::Release, "libfoo.a"),
        "aarch64-apple-ios-sim/release/libfoo.dylib"
    );
}

#[test]
fn per_arch_library_path() {
    assert_eq!(
        ios_arch_lib_path("/p/build", IosArch::Aarch64AppleSim, Mode::Release, "libmopro.a"),
        "/p/build/aarch64-apple-ios-sim/release/libmopro.a"
    );
    assert_eq!(
        ios_arch_lib_path("b", IosArch::X8664Apple, Mode::Debug, "libx.a"),
        "b/x86_64-apple-ios/debug/libx.a"
    );
}
