//! The iOS build: the names of the generated artifacts, the targets to build,
//! and how the targets are grouped into universal libraries for the
//! xcframework.

use crate::app_config::constants::{ios_arch_name, lemma_ios_arch_name_parses, Arch, IosArch, Mode};
use crate::text::{
    ends_with, ends_with_spec, replace_all, replace_spec, split_char, split_spec, starts_with,
    starts_with_spec,
};
use convert_case::{Case, Casing};
use vstd::prelude::*;
use vstd::string::StringExecFns;

verus! {

/// The UpperCamel case of `s`, as `convert_case` computes it.
pub uninterp spec fn upper_camel_case(s: Seq<char>) -> Seq<char>;

/// The snake case of `s`, as `convert_case` computes it.
pub uninterp spec fn snake_case(s: Seq<char>) -> Seq<char>;

/// `Casing::to_case(s, Case::UpperCamel)` of `convert_case`: the words of `s`,
/// each capitalised, with no delimiter. The result is named; it depends on `s`
/// alone.
#[verifier::external_body]
fn to_upper_camel(s: &str) -> (r: String)
    ensures
        r@ == upper_camel_case(s@),
{
    s.to_case(Case::UpperCamel)
}

/// `Casing::to_case(s, Case::Snake)` of `convert_case`: the words of `s`, in
/// lowercase, joined with `_`. The result is named; it depends on `s` alone.
#[verifier::external_body]
fn to_snake(s: &str) -> (r: String)
    ensures
        r@ == snake_case(s@),
{
    s.to_case(Case::Snake)
}

/// The names of the files and directories of an iOS build.
pub struct IosBuildNames {
    pub camel_case_project_name: String,
    pub snake_case_project_name: String,
    pub lib_name: String,
    pub bindings_folder_name: String,
    pub framework_name: String,
    pub swift_name: String,
    pub header_name: String,
    pub modulemap_name: String,
}

/// `names` are those of an iOS build whose project name is `camel` in
/// UpperCamel case and `snake` in snake case; uniffi's namespace is `mopro`.
pub open spec fn names_spec(names: IosBuildNames, camel: Seq<char>, snake: Seq<char>) -> bool {
    &&& names.camel_case_project_name@ == camel
    &&& names.snake_case_project_name@ == snake
    &&& names.lib_name@ == "lib"@ + snake + ".a"@
    &&& names.bindings_folder_name@ == camel + "iOSBindings"@
    &&& names.framework_name@ == camel + "Bindings.xcframework"@
    &&& names.swift_name@ == "mopro.swift"@
    &&& names.header_name@ == "moproFFI.h"@
    &&& names.modulemap_name@ == "moproFFI.modulemap"@
}

fn concat2(a: &str, b: &str) -> (r: String)
    ensures
        r@ == a@ + b@,
{
    let mut s = String::from_str(a);
    s.append(b);
    s
}

fn concat3(a: &str, b: &str, c: &str) -> (r: String)
    ensures
        r@ == a@ + b@ + c@,
{
    let mut s = String::from_str(a);
    s.append(b);
    s.append(c);
    s
}

/// The names of an iOS build from the project name in its two cases.
pub fn ios_names_from_cases(camel: &str, snake: &str) -> (r: IosBuildNames)
    ensures
        names_spec(r, camel@, snake@),
{
    IosBuildNames {
        camel_case_project_name: String::from_str(camel),
        snake_case_project_name: String::from_str(snake),
        lib_name: concat3("lib", snake, ".a"),
        bindings_folder_name: concat2(camel, "iOSBindings"),
        framework_name: concat2(camel, "Bindings.xcframework"),
        swift_name: String::from_str("mopro.swift"),
        header_name: String::from_str("moproFFI.h"),
        modulemap_name: String::from_str("moproFFI.modulemap"),
    }
}

/// The names of an iOS build of the project `project_name`.
pub fn ios_build_names(project_name: &str) -> (r: IosBuildNames)
    ensures
        names_spec(r, upper_camel_case(project_name@), snake_case(project_name@)),
{
    let camel = to_upper_camel(project_name);
    let snake = to_snake(project_name);
    ios_names_from_cases(camel.as_str(), snake.as_str())
}

/// The device-target prefix of a host architecture (`std::env::consts::ARCH`):
/// `x86_64` or `aarch64`; `None` for any other host, which the build refuses.
pub open spec fn host_prefix(host: Seq<char>) -> Option<Seq<char>> {
    if starts_with_spec(host, "x86_64"@) {
        Some("x86_64"@)
    } else if starts_with_spec(host, "aarch64"@) {
        Some("aarch64"@)
    } else {
        None
    }
}

/// Whether `arch` is a device target for a host whose prefix is `prefix`: not
/// a simulator, and of the host's architecture.
pub open spec fn is_device_arch(arch: IosArch, prefix: Seq<char>) -> bool {
    !ends_with_spec(ios_arch_name(arch), "sim"@) && starts_with_spec(ios_arch_name(arch), prefix)
}

/// The targets of `archs` that are (or, with `device` false, are not) device
/// targets for `prefix`, in order.
pub open spec fn select_archs(archs: Seq<IosArch>, prefix: Seq<char>, device: bool) -> Seq<IosArch>
    decreases archs.len(),
{
    if archs.len() == 0 {
        Seq::empty()
    } else {
        let prev = select_archs(archs.drop_last(), prefix, device);
        if is_device_arch(archs.last(), prefix) == device {
            prev.push(archs.last())
        } else {
            prev
        }
    }
}

/// The groups of `archs` for a host with device prefix `prefix`: the device
/// targets, then the others, each group present only when not empty.
pub open spec fn groups_spec(archs: Seq<IosArch>, prefix: Seq<char>) -> Seq<Seq<IosArch>> {
    let devices = select_archs(archs, prefix, true);
    let others = select_archs(archs, prefix, false);
    let g = if devices.len() > 0 {
        seq![devices]
    } else {
        Seq::empty()
    };
    if others.len() > 0 {
        g.push(others)
    } else {
        g
    }
}

/// On an x86_64 host the only device target is `x86_64-apple-ios`; on an
/// aarch64 host it is `aarch64-apple-ios`; the simulator targets never are.
pub proof fn lemma_device_archs(arch: IosArch)
    ensures
        is_device_arch(arch, "x86_64"@) <==> arch == IosArch::X8664Apple,
        is_device_arch(arch, "aarch64"@) <==> arch == IosArch::Aarch64Apple,
{
    reveal_strlit("x86_64");
    reveal_strlit("aarch64");
    reveal_strlit("sim");
    reveal_strlit("aarch64-apple-ios");
    reveal_strlit("aarch64-apple-ios-sim");
    reveal_strlit("x86_64-apple-ios");
    let n = ios_arch_name(arch);
    match arch {
        IosArch::Aarch64Apple => {
            assert(n.skip(n.len() - 3) =~= seq!['i', 'o', 's']);
            assert(n.take(7) =~= "aarch64"@);
            assert(n[0] != "x86_64"@[0]);
        },
        IosArch::Aarch64AppleSim => {
            assert(n.skip(n.len() - 3) =~= "sim"@);
        },
        IosArch::X8664Apple => {
            assert(n.skip(n.len() - 3) =~= seq!['i', 'o', 's']);
            assert(n.take(6) =~= "x86_64"@);
            assert(n[0] != "aarch64"@[0]);
        },
    }
}

/// Grouping splits the targets in two: the device targets and the others,
/// which together are as many as the targets, each a target of the input on
/// the right side of the split.
pub proof fn lemma_grouping_partitions(archs: Seq<IosArch>, prefix: Seq<char>)
    ensures
        select_archs(archs, prefix, true).len() + select_archs(archs, prefix, false).len()
            == archs.len(),
        forall|i: int|
            0 <= i < select_archs(archs, prefix, true).len() ==> is_device_arch(
                #[trigger] select_archs(archs, prefix, true)[i],
                prefix,
            ) && archs.contains(select_archs(archs, prefix, true)[i]),
        forall|i: int|
            0 <= i < select_archs(archs, prefix, false).len() ==> !is_device_arch(
                #[trigger] select_archs(archs, prefix, false)[i],
                prefix,
            ) && archs.contains(select_archs(archs, prefix, false)[i]),
    decreases archs.len(),
{
    if archs.len() > 0 {
        let init = archs.drop_last();
        lemma_grouping_partitions(init, prefix);
        assert forall|x: IosArch| init.contains(x) implies archs.contains(x) by {
            let k = choose|k: int| 0 <= k < init.len() && init[k] == x;
            assert(archs[k] == x);
        }
        assert(archs[archs.len() - 1] == archs.last());
    }
}

proof fn lemma_select_push(archs: Seq<IosArch>, prefix: Seq<char>, device: bool, a: IosArch)
    ensures
        select_archs(archs.push(a), prefix, device) == if is_device_arch(a, prefix) == device {
            select_archs(archs, prefix, device).push(a)
        } else {
            select_archs(archs, prefix, device)
        },
{
    assert(archs.push(a).drop_last() =~= archs);
}

/// The targets of `archs` grouped for a host of architecture `host_arch`: the
/// device targets, then the simulator and foreign-architecture targets, each
/// group only when not empty. Every target lands in exactly one group, in
/// its original order.
pub fn group_target_archs(target_archs: &[IosArch], host_arch: &str) -> (r: Vec<Vec<IosArch>>)
    requires
        host_prefix(host_arch@) is Some,
    ensures
        r@.len() == groups_spec(target_archs@, host_prefix(host_arch@)->0).len(),
        forall|i: int|
            0 <= i < r@.len() ==> (#[trigger] r@[i])@ == groups_spec(
                target_archs@,
                host_prefix(host_arch@)->0,
            )[i],
{
    let prefix: &str = if starts_with(host_arch, "x86_64") {
        "x86_64"
    } else {
        "aarch64"
    };
    let ghost p = host_prefix(host_arch@)->0;
    assert(prefix@ == p);
    let mut device_archs: Vec<IosArch> = Vec::new();
    let mut simulator_archs: Vec<IosArch> = Vec::new();
    let mut i: usize = 0;
    while i < target_archs.len()
        invariant
            i <= target_archs@.len(),
            prefix@ == p,
            device_archs@ == select_archs(target_archs@.take(i as int), p, true),
            simulator_archs@ == select_archs(target_archs@.take(i as int), p, false),
        decreases target_archs@.len() - i,
    {
        let arch = target_archs[i];
        let arch_str = arch.as_str();
        proof {
            lemma_select_push(target_archs@.take(i as int), p, true, arch);
            lemma_select_push(target_archs@.take(i as int), p, false, arch);
            assert(target_archs@.take(i as int).push(arch) =~= target_archs@.take(i + 1));
        }
        if ends_with(arch_str, "sim") {
            simulator_archs.push(arch);
        } else if starts_with(arch_str, prefix) {
            device_archs.push(arch);
        } else {
            simulator_archs.push(arch);
        }
        i = i + 1;
    }
    assert(target_archs@.take(i as int) =~= target_archs@);
    let mut grouped: Vec<Vec<IosArch>> = Vec::new();
    if device_archs.len() > 0 {
        grouped.push(device_archs);
    }
    if simulator_archs.len() > 0 {
        grouped.push(simulator_archs);
    }
    grouped
}

/// All iOS targets, each parsed from its name as the build does when no
/// targets are configured.
pub fn default_ios_archs() -> (r: Vec<IosArch>)
    ensures
        r@ == seq![IosArch::Aarch64Apple, IosArch::Aarch64AppleSim, IosArch::X8664Apple],
{
    let names = <IosArch as Arch>::all_strings();
    let mut v: Vec<IosArch> = Vec::new();
    let mut i: usize = 0;
    let ghost all = seq![IosArch::Aarch64Apple, IosArch::Aarch64AppleSim, IosArch::X8664Apple];
    while i < names.len()
        invariant
            i <= names@.len(),
            names@.len() == 3,
            all == seq![IosArch::Aarch64Apple, IosArch::Aarch64AppleSim, IosArch::X8664Apple],
            forall|k: int| 0 <= k < 3 ==> (#[trigger] names@[k])@ == ios_arch_name(all[k]),
            v@ == all.take(i as int),
        decreases names@.len() - i,
    {
        proof {
            lemma_ios_arch_name_parses(all[i as int]);
        }
        let a = IosArch::parse_checked(names[i]).unwrap();
        v.push(a);
        assert(v@ =~= all.take(i + 1));
        i = i + 1;
    }
    assert(all.take(3) =~= all);
    v
}

/// The targets named by the comma-separated `archs` (each compared without
/// regard to case), or `None` when a piece names no iOS target, which the
/// build refuses.
pub fn parse_ios_archs(archs: &str) -> (r: Option<Vec<IosArch>>)
    ensures
        match r {
            Some(v) => v@.len() == split_spec(archs@, ',').len() && forall|i: int|
                0 <= i < v@.len() ==> crate::app_config::constants::ios_arch_parse(
                    split_spec(archs@, ',')[i],
                ) == Some(#[trigger] v@[i]),
            None => exists|i: int|
                0 <= i < split_spec(archs@, ',').len()
                    && crate::app_config::constants::ios_arch_parse(
                    #[trigger] split_spec(archs@, ',')[i],
                ) is None,
        },
{
    let pieces = split_char(archs, ',');
    let mut v: Vec<IosArch> = Vec::new();
    let mut i: usize = 0;
    while i < pieces.len()
        invariant
            i <= pieces@.len(),
            pieces@.len() == split_spec(archs@, ',').len(),
            forall|k: int|
                0 <= k < pieces@.len() ==> (#[trigger] pieces@[k])@ == split_spec(archs@, ',')[k],
            v@.len() == i,
            forall|k: int|
                0 <= k < i ==> crate::app_config::constants::ios_arch_parse(
                    split_spec(archs@, ',')[k],
                ) == Some(#[trigger] v@[k]),
        decreases pieces@.len() - i,
    {
        match IosArch::parse_checked(pieces[i].as_str()) {
            Some(a) => {
                v.push(a);
            },
            None => {
                assert(crate::app_config::constants::ios_arch_parse(
                    split_spec(archs@, ',')[i as int],
                ) is None);
                return None;
            },
        }
        i = i + 1;
    }
    Some(v)
}

/// The path of the static library built for `arch` in `mode` in the cargo
/// target directory `build_dir`.
pub fn ios_arch_lib_path(build_dir: &str, arch: IosArch, mode: Mode, lib_name: &str) -> (r: String)
    ensures
        r@ == build_dir@ + "/"@ + ios_arch_name(arch) + "/"@ + crate::app_config::constants::mode_name(
            mode,
        ) + "/"@ + lib_name@,
{
    let mut s = String::from_str(build_dir);
    s.append("/");
    s.append(arch.as_str());
    s.append("/");
    s.append(mode.as_str());
    s.append("/");
    s.append(lib_name);
    s
}

/// The path, under the build directory, of the dynamic library built for
/// `arch` in `mode`: `{arch}/{mode}/{lib_name with ".a" made ".dylib"}`.
pub fn ios_dylib_path(arch: IosArch, mode: Mode, lib_name: &str) -> (r: String)
    ensures
        r@ == ios_arch_name(arch) + "/"@ + crate::app_config::constants::mode_name(mode) + "/"@
            + replace_spec(lib_name@, ".a"@, ".dylib"@),
{
    let mut s = String::from_str(arch.as_str());
    s.append("/");
    s.append(mode.as_str());
    s.append("/");
    proof {
        reveal_strlit(".a");
    }
    let dylib = replace_all(lib_name, ".a", ".dylib");
    s.append(dylib.as_str());
    s
}

} // verus!
