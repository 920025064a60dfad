//! The Android build: per-target library folders and `cargo ndk` arguments,
//! the barretenberg prebuilt that a Noir project links, the Zig linker set-up,
//! and the rewrite of the generated Kotlin package.
//!
//! The pinned `barretenberg-rs` version is read out of a `Cargo.lock` body line
//! by line, each line compared after trimming, as `str::lines` followed by
//! `str::trim` would present it (a `'\r'` before a `'\n'` is whitespace and
//! disappears in the trim; a final empty line matches nothing).

use crate::app_config::constants::{
    android_arch_name, AndroidArch, Arch, Mode, ARCH_ARM_64_V8, ARCH_ARM_V7_ABI, ARCH_I686,
    ARCH_X86_64,
};
use crate::text::{
    chars_of, find_line_end, lemma_line_end_bound, line_end, range_eq, range_starts_with, replace_all, replace_spec,
    trim, trim_bounds,
};
use vstd::prelude::*;
use vstd::string::{StrSliceExecFns, StringExecFns};

verus! {

/// The trimmed line that opens the `barretenberg-rs` package entry.
pub open spec fn package_name_line() -> Seq<char> {
    "name = \"barretenberg-rs\""@
}

/// The start of the version line of a package entry.
pub open spec fn version_prefix() -> Seq<char> {
    "version = \""@
}

/// The trimmed line that opens any package entry.
pub open spec fn package_header() -> Seq<char> {
    "[[package]]"@
}

/// The first line of `rest`, trimmed.
pub open spec fn first_trimmed_line(rest: Seq<char>) -> Seq<char> {
    trim(rest.take(line_end(rest) as int))
}

/// Whether `rest` has a line after its first one.
pub open spec fn has_next_line(rest: Seq<char>) -> bool {
    line_end(rest) < rest.len()
}

/// What follows the first line of `rest` and its `'\n'`.
pub open spec fn next_lines(rest: Seq<char>) -> Seq<char> {
    rest.skip(line_end(rest) + 1int)
}

/// The value of a version line: what follows the prefix, without its closing quote.
pub open spec fn quoted_value(value: Seq<char>) -> Option<Seq<char>> {
    if value.len() > 0 && value.last() == '"' {
        Some(value.drop_last())
    } else {
        None
    }
}

/// The version found in the lines of `rest`, read outside any `barretenberg-rs`
/// entry: the first line that trims to the entry's name line opens it.
pub open spec fn scan_packages(rest: Seq<char>) -> Option<Seq<char>>
    decreases rest.len(),
{
    if first_trimmed_line(rest) == package_name_line() {
        if has_next_line(rest) {
            scan_entry(next_lines(rest))
        } else {
            None
        }
    } else if has_next_line(rest) {
        scan_packages(next_lines(rest))
    } else {
        None
    }
}

/// The version found in the lines of `rest`, read inside the `barretenberg-rs`
/// entry: its first version line gives the answer, and a `[[package]]` line
/// closes the entry before one is seen.
pub open spec fn scan_entry(rest: Seq<char>) -> Option<Seq<char>>
    decreases rest.len(),
{
    let line = first_trimmed_line(rest);
    if line.len() >= version_prefix().len() && line.take(version_prefix().len() as int)
        == version_prefix() {
        quoted_value(line.skip(version_prefix().len() as int))
    } else if line == package_header() {
        if has_next_line(rest) {
            scan_packages(next_lines(rest))
        } else {
            None
        }
    } else if has_next_line(rest) {
        scan_entry(next_lines(rest))
    } else {
        None
    }
}

/// The `barretenberg-rs` version pinned by the lock file `lock`.
pub open spec fn barretenberg_version(lock: Seq<char>) -> Option<Seq<char>> {
    scan_packages(lock)
}

/// Whether some line of `rest` trims to the `barretenberg-rs` name line.
pub open spec fn names_barretenberg(rest: Seq<char>) -> bool
    decreases rest.len(),
{
    first_trimmed_line(rest) == package_name_line() || (has_next_line(rest) && names_barretenberg(
        next_lines(rest),
    ))
}

/// A lock file none of whose lines is the `barretenberg-rs` name line pins no
/// `barretenberg-rs` version, whatever else mentions the crate.
pub proof fn lemma_absent_package_has_no_version(lock: Seq<char>)
    requires
        !names_barretenberg(lock),
    ensures
        barretenberg_version(lock) is None,
    decreases lock.len(),
{
    if has_next_line(lock) {
        lemma_line_end_bound(lock);
        lemma_absent_package_has_no_version(next_lines(lock));
    }
}

proof fn lemma_line_split(s: Seq<char>, pos: int, k: int)
    requires
        0 <= pos <= k <= s.len(),
        k == pos + line_end(s.skip(pos)),
    ensures
        s.skip(pos).take(line_end(s.skip(pos)) as int) == s.subrange(pos, k),
        has_next_line(s.skip(pos)) == (k < s.len()),
        k < s.len() ==> next_lines(s.skip(pos)) == s.skip(k + 1),
{
    assert(s.skip(pos).take(line_end(s.skip(pos)) as int) =~= s.subrange(pos, k));
    if k < s.len() {
        assert(next_lines(s.skip(pos)) =~= s.skip(k + 1));
    }
}

/// Extracts the `barretenberg-rs` package version from a `Cargo.lock` body.
pub fn parse_barretenberg_rs_version(lock: &str) -> (r: Option<String>)
    ensures
        match r {
            Some(v) => barretenberg_version(lock@) == Some(v@),
            None => barretenberg_version(lock@) is None,
        },
{
    let s = chars_of(lock);
    let name = chars_of("name = \"barretenberg-rs\"");
    let prefix = chars_of("version = \"");
    let header = chars_of("[[package]]");
    let n: usize = s.len();
    let mut pos: usize = 0;
    let mut in_entry = false;
    assert(s@.skip(0) =~= s@);
    loop
        invariant
            pos <= n,
            n == s@.len(),
            s@ == lock@,
            name@ == package_name_line(),
            prefix@ == version_prefix(),
            header@ == package_header(),
            barretenberg_version(lock@) == if in_entry {
                scan_entry(s@.skip(pos as int))
            } else {
                scan_packages(s@.skip(pos as int))
            },
        decreases n - pos,
    {
        let k: usize = find_line_end(s.as_slice(), pos);
        let (a, b) = trim_bounds(s.as_slice(), pos, k);
        proof {
            lemma_line_split(s@, pos as int, k as int);
        }
        let more = k < n;
        if !in_entry {
            if range_eq(s.as_slice(), a, b, name.as_slice()) {
                if more {
                    in_entry = true;
                    pos = k + 1;
                } else {
                    return None;
                }
            } else if more {
                pos = k + 1;
            } else {
                return None;
            }
        } else {
            if range_starts_with(s.as_slice(), a, b, prefix.as_slice()) {
                let c: usize = a + prefix.len();
                let ghost line = s@.subrange(a as int, b as int);
                assert(line.skip(prefix@.len() as int) =~= s@.subrange(c as int, b as int));
                if c < b && s[b - 1] == '"' {
                    assert(s@.subrange(c as int, b as int).drop_last() =~= s@.subrange(
                        c as int,
                        b - 1,
                    ));
                    let v = String::from_str(lock.substring_char(c, b - 1));
                    return Some(v);
                } else {
                    return None;
                }
            } else if range_eq(s.as_slice(), a, b, header.as_slice()) {
                if more {
                    in_entry = false;
                    pos = k + 1;
                } else {
                    return None;
                }
            } else if more {
                pos = k + 1;
            } else {
                return None;
            }
        }
    }
}

/// The `jniLibs` folder of an Android target.
pub open spec fn jni_folder(arch: AndroidArch) -> Seq<char> {
    match arch {
        AndroidArch::X8664Linux => "x86_64"@,
        AndroidArch::I686Linux => "x86"@,
        AndroidArch::Armv7LinuxAbi => "armeabi-v7a"@,
        AndroidArch::Aarch64Linux => "arm64-v8a"@,
    }
}

/// The `jniLibs` folder that receives the library built for `arch`.
pub fn jni_lib_folder(arch: AndroidArch) -> (r: &'static str)
    ensures
        r@ == jni_folder(arch),
{
    match arch {
        AndroidArch::X8664Linux => ARCH_X86_64,
        AndroidArch::I686Linux => ARCH_I686,
        AndroidArch::Armv7LinuxAbi => ARCH_ARM_V7_ABI,
        AndroidArch::Aarch64Linux => ARCH_ARM_64_V8,
    }
}

/// The barretenberg prebuilt published for an Android target, if any: only
/// arm64 and x86_64 have one.
pub open spec fn bb_android_arch(arch: AndroidArch) -> Option<Seq<char>> {
    match arch {
        AndroidArch::X8664Linux => Some("x86_64-android"@),
        AndroidArch::Aarch64Linux => Some("arm64-android"@),
        _ => None,
    }
}

/// The name of the barretenberg Android prebuilt for `arch`, if one is published.
pub fn barretenberg_android_arch(arch: AndroidArch) -> (r: Option<&'static str>)
    ensures
        match r {
            Some(s) => bb_android_arch(arch) == Some(s@),
            None => bb_android_arch(arch) is None,
        },
{
    match arch {
        AndroidArch::X8664Linux => Some("x86_64-android"),
        AndroidArch::Aarch64Linux => Some("arm64-android"),
        _ => None,
    }
}

/// The cache directory of the prebuilt for `bb_arch` at `version`:
/// `{bb_arch}-{version}`.
pub fn barretenberg_prebuilt_dir_name(bb_arch: &str, version: &str) -> (r: String)
    ensures
        r@ == bb_arch@ + "-"@ + version@,
{
    let mut s = String::from_str(bb_arch);
    s.append("-");
    s.append(version);
    s
}

/// Where the prebuilt for `bb_arch` at `version` is downloaded from.
pub fn barretenberg_prebuilt_url(version: &str, bb_arch: &str) -> (r: String)
    ensures
        r@ == "https://github.com/AztecProtocol/aztec-packages/releases/download/v"@ + version@
            + "/barretenberg-static-"@ + bb_arch@ + ".tar.gz"@,
{
    let mut s = String::from_str(
        "https://github.com/AztecProtocol/aztec-packages/releases/download/v",
    );
    s.append(version);
    s.append("/barretenberg-static-");
    s.append(bb_arch);
    s.append(".tar.gz");
    s
}

/// The arguments of the `cargo ndk` build for `arch`, before the release flag.
pub open spec fn ndk_build_args(arch: AndroidArch) -> Seq<Seq<char>> {
    seq![
        "ndk"@,
        "-t"@,
        android_arch_name(arch),
        "--platform"@,
        "30"@,
        "build"@,
        "--link-libcxx-shared"@,
        "--lib"@,
    ]
}

/// The views of the strings of `v`.
pub open spec fn string_views(v: Seq<String>) -> Seq<Seq<char>> {
    v.map_values(|s: String| s@)
}

fn push_str(v: &mut Vec<String>, s: &str)
    ensures
        string_views(final(v)@) == string_views(old(v)@).push(s@),
{
    v.push(String::from_str(s));
    assert(string_views(final(v)@) =~= string_views(old(v)@).push(s@));
}

/// The arguments of the `cargo ndk` build of the bindgen library for `arch`:
/// a debug build, whatever the mode.
pub fn ndk_bindgen_args(arch: AndroidArch) -> (r: Vec<String>)
    ensures
        string_views(r@) == ndk_build_args(arch),
{
    let mut v: Vec<String> = Vec::new();
    push_str(&mut v, "ndk");
    push_str(&mut v, "-t");
    push_str(&mut v, arch.as_str());
    push_str(&mut v, "--platform");
    push_str(&mut v, "30");
    push_str(&mut v, "build");
    push_str(&mut v, "--link-libcxx-shared");
    push_str(&mut v, "--lib");
    assert(string_views(v@) =~= ndk_build_args(arch));
    v
}

/// The arguments of the `cargo ndk` build of the shipped library for `arch`:
/// `--release` is added in release mode.
pub fn ndk_build_arguments(arch: AndroidArch, mode: Mode) -> (r: Vec<String>)
    ensures
        string_views(r@) == (if mode == Mode::Release {
            ndk_build_args(arch).push("--release"@)
        } else {
            ndk_build_args(arch)
        }),
{
    let mut v = ndk_bindgen_args(arch);
    if mode == Mode::Release {
        push_str(&mut v, "--release");
    }
    v
}

/// The file name of the library built for the project `identifier`.
pub fn android_lib_name(identifier: &str) -> (r: String)
    ensures
        r@ == "lib"@ + identifier@ + ".so"@,
{
    let mut s = String::from_str("lib");
    s.append(identifier);
    s.append(".so");
    s
}

/// The Kotlin file that uniffi generates for the project `identifier`.
pub fn kotlin_file_name(identifier: &str) -> (r: String)
    ensures
        r@ == identifier@ + ".kt"@,
{
    let mut s = String::from_str(identifier);
    s.append(".kt");
    s
}

/// The NDK prebuilt host directory for the operating system `os` (as
/// `std::env::consts::OS` names it); Apple Silicon uses the x86_64 tools.
pub open spec fn ndk_host(os: Seq<char>) -> Seq<char> {
    if os == "macos"@ {
        "darwin-x86_64"@
    } else if os == "windows"@ {
        "windows-x86_64"@
    } else {
        "linux-x86_64"@
    }
}

/// The NDK prebuilt host directory for the operating system `os`.
pub fn ndk_host_tag(os: &str) -> (r: &'static str)
    ensures
        r@ == ndk_host(os@),
{
    if crate::app_config::constants::str_eq(os, "macos") {
        "darwin-x86_64"
    } else if crate::app_config::constants::str_eq(os, "windows") {
        "windows-x86_64"
    } else {
        "linux-x86_64"
    }
}

/// `RUSTFLAGS` with the linker flag added: `existing`, a space and `flag` when
/// `existing` is set and not blank; `flag` alone otherwise.
pub open spec fn rustflags_with(existing: Option<Seq<char>>, flag: Seq<char>) -> Seq<char> {
    match existing {
        Some(e) => if trim(e).len() > 0 {
            e + " "@ + flag
        } else {
            flag
        },
        None => flag,
    }
}

/// `RUSTFLAGS` with the linker flag added, keeping what the caller had set.
pub fn combine_rustflags(existing: Option<&str>, linker_flag: &str) -> (r: String)
    ensures
        r@ == rustflags_with(
            match existing {
                Some(e) => Some(e@),
                None => None,
            },
            linker_flag@,
        ),
{
    match existing {
        Some(e) => {
            let ec = chars_of(e);
            let (a, b) = trim_bounds(ec.as_slice(), 0, ec.len());
            assert(ec@.subrange(0, ec@.len() as int) =~= e@);
            if a < b {
                let mut s = String::from_str(e);
                s.append(" ");
                s.append(linker_flag);
                s
            } else {
                String::from_str(linker_flag)
            }
        },
        None => String::from_str(linker_flag),
    }
}

/// The `-Clinker=` flag that points rustc at the linker wrapper `wrapper`.
pub fn linker_flag(wrapper: &str) -> (r: String)
    ensures
        r@ == "-Clinker="@ + wrapper@,
{
    let mut s = String::from_str("-Clinker=");
    s.append(wrapper);
    s
}

/// The Zig libc configuration that points Zig at the NDK's bionic headers and
/// CRT objects.
pub fn zig_libc_config(generic_include: &str, arch_include: &str, crt_dir: &str) -> (r: String)
    ensures
        r@ == "include_dir="@ + generic_include@ + "\nsys_include_dir="@ + arch_include@
            + "\ncrt_dir="@ + crt_dir@ + "\nmsvc_lib_dir=\nkernel32_lib_dir=\ngcc_dir=\n"@,
{
    let mut s = String::from_str("include_dir=");
    s.append(generic_include);
    s.append("\nsys_include_dir=");
    s.append(arch_include);
    s.append("\ncrt_dir=");
    s.append(crt_dir);
    s.append("\nmsvc_lib_dir=\nkernel32_lib_dir=\ngcc_dir=\n");
    s
}

/// The shell script that links through `zig cc` for `triple`, with Zig's libc
/// configuration `libc`, the CRT directory `crt` and the target library
/// directory `triple_lib`.
pub fn zig_linker_wrapper(libc: &str, triple: &str, crt: &str, triple_lib: &str) -> (r: String)
    ensures
        r@ == "#!/bin/sh\nset -e\nexport ZIG_LIBC=\""@ + libc@ + "\"\nexec zig cc -target "@
            + triple@ + " -L \""@ + crt@ + "\" -L \""@ + triple_lib@ + "\" \"$@\" -lc++_shared\n"@,
{
    let mut s = String::from_str("#!/bin/sh\nset -e\nexport ZIG_LIBC=\"");
    s.append(libc);
    s.append("\"\nexec zig cc -target ");
    s.append(triple);
    s.append(" -L \"");
    s.append(crt);
    s.append("\" -L \"");
    s.append(triple_lib);
    s.append("\" \"$@\" -lc++_shared\n");
    s
}

/// The generated Kotlin source with its package `uniffi.{gen_module}` renamed
/// to `uniffi.{out_module}`.
pub fn rename_kotlin_package(content: &str, gen_module: &str, out_module: &str) -> (r: String)
    ensures
        r@ == replace_spec(
            content@,
            "package uniffi."@ + gen_module@,
            "package uniffi."@ + out_module@,
        ),
{
    let mut from = String::from_str("package uniffi.");
    from.append(gen_module);
    let mut to = String::from_str("package uniffi.");
    to.append(out_module);
    proof {
        reveal_strlit("package uniffi.");
    }
    replace_all(content, from.as_str(), to.as_str())
}

/// The target whose NDK-linked library the bindings are generated from: the
/// first target that was linked with Zig, if any.
pub fn first_zig_linked(built: &Vec<(AndroidArch, bool)>) -> (r: Option<AndroidArch>)
    ensures
        match r {
            Some(a) => exists|i: int|
                0 <= i < built@.len() && (#[trigger] built@[i]).1 && built@[i].0 == a && forall|
                    j: int,
                | 0 <= j < i ==> !(#[trigger] built@[j]).1,
            None => forall|i: int| 0 <= i < built@.len() ==> !(#[trigger] built@[i]).1,
        },
{
    let mut i: usize = 0;
    while i < built.len()
        invariant
            i <= built@.len(),
            forall|j: int| 0 <= j < i ==> !(#[trigger] built@[j]).1,
        decreases built@.len() - i,
    {
        if built[i].1 {
            return Some(built[i].0);
        }
        i = i + 1;
    }
    None
}

} // verus!
