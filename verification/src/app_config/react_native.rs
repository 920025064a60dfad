//! The React Native build: which `uniffi-bindgen-react-native` runs a set of
//! targets needs, and the edits made to the generated Android project files.

use crate::app_config::constants::{Mode, ARCH_ARM_64_V8, ARCH_ARM_V7_ABI, ARCH_I686, ARCH_X86_64};
use crate::app_config::constants::str_eq;
use crate::text::{
    chars_of, contains, contains_spec, find_line_end, find_spec, lemma_find_occurs,
    lemma_replace_removes, line_end, agrees_from, no_suffix_agrees, occurs_at, replace_all, replace_spec,
    trim_start,
};
use vstd::prelude::*;
use vstd::string::{StrSliceExecFns, StringExecFns};

verus! {

/// The Android ABI folder of a target triple.
pub open spec fn abi_of_triple(triple: Seq<char>) -> Option<Seq<char>> {
    if triple == "aarch64-linux-android"@ {
        Some("arm64-v8a"@)
    } else if triple == "armv7-linux-androideabi"@ {
        Some("armeabi-v7a"@)
    } else if triple == "i686-linux-android"@ {
        Some("x86"@)
    } else if triple == "x86_64-linux-android"@ {
        Some("x86_64"@)
    } else {
        None
    }
}

/// The Android ABI folder of the target triple `triple`, if it is an Android one.
pub fn android_abi_for_triple(triple: &str) -> (r: Option<&'static str>)
    ensures
        match r {
            Some(a) => abi_of_triple(triple@) == Some(a@),
            None => abi_of_triple(triple@) is None,
        },
{
    if str_eq(triple, "aarch64-linux-android") {
        Some(ARCH_ARM_64_V8)
    } else if str_eq(triple, "armv7-linux-androideabi") {
        Some(ARCH_ARM_V7_ABI)
    } else if str_eq(triple, "i686-linux-android") {
        Some(ARCH_I686)
    } else if str_eq(triple, "x86_64-linux-android") {
        Some(ARCH_X86_64)
    } else {
        None
    }
}

/// The ABI folders of the Android triples among `triples`, in order.
pub open spec fn abis_of(triples: Seq<Seq<char>>) -> Seq<Seq<char>>
    decreases triples.len(),
{
    if triples.len() == 0 {
        Seq::empty()
    } else {
        let prev = abis_of(triples.drop_last());
        match abi_of_triple(triples.last()) {
            Some(a) => prev.push(a),
            None => prev,
        }
    }
}

/// The views of the strings of `v`.
pub open spec fn string_views(v: Seq<String>) -> Seq<Seq<char>> {
    v.map_values(|s: String| s@)
}

/// The views of the strings of `v`.
pub open spec fn str_views(v: Seq<&str>) -> Seq<Seq<char>> {
    v.map_values(|s: &str| s@)
}

/// The ABI folders of the Android triples among `triples`, in order.
pub fn android_abis(triples: &[String]) -> (r: Vec<&'static str>)
    ensures
        str_views(r@) == abis_of(string_views(triples@)),
{
    let mut v: Vec<&'static str> = Vec::new();
    let mut i: usize = 0;
    while i < triples.len()
        invariant
            i <= triples@.len(),
            str_views(v@) == abis_of(string_views(triples@.take(i as int))),
        decreases triples@.len() - i,
    {
        let ghost before = v@;
        assert(string_views(triples@.take(i + 1)).drop_last() =~= string_views(
            triples@.take(i as int),
        ));
        assert(string_views(triples@.take(i + 1)).last() == triples@[i as int]@);
        match android_abi_for_triple(triples[i].as_str()) {
            Some(a) => {
                v.push(a);
                assert(str_views(v@) =~= str_views(before).push(a@));
            },
            None => {},
        }
        i = i + 1;
    }
    assert(triples@.take(i as int) =~= triples@);
    v
}

/// `parts` joined with `sep` between neighbours (`[&str]::join`).
pub open spec fn join_spec(parts: Seq<Seq<char>>, sep: Seq<char>) -> Seq<char>
    decreases parts.len(),
{
    if parts.len() == 0 {
        Seq::empty()
    } else if parts.len() == 1 {
        parts[0]
    } else {
        join_spec(parts.drop_last(), sep) + sep + parts.last()
    }
}

/// `parts` joined with `sep` between neighbours.
pub fn join(parts: &[&str], sep: &str) -> (r: String)
    ensures
        r@ == join_spec(str_views(parts@), sep@),
{
    let mut s = String::new();
    let mut i: usize = 0;
    while i < parts.len()
        invariant
            i <= parts@.len(),
            s@ == join_spec(str_views(parts@.take(i as int)), sep@),
        decreases parts@.len() - i,
    {
        assert(str_views(parts@.take(i + 1)).drop_last() =~= str_views(parts@.take(i as int)));
        if i > 0 {
            s.append(sep);
        }
        s.append(parts[i]);
        i = i + 1;
    }
    assert(parts@.take(i as int) =~= parts@);
    s
}

/// The triples among `triples` that contain `needle`, in order.
pub open spec fn containing(triples: Seq<Seq<char>>, needle: Seq<char>) -> Seq<Seq<char>>
    decreases triples.len(),
{
    if triples.len() == 0 {
        Seq::empty()
    } else {
        let prev = containing(triples.drop_last(), needle);
        if contains_spec(triples.last(), needle) {
            prev.push(triples.last())
        } else {
            prev
        }
    }
}

/// A platform's targets are exactly the triples that contain the platform's
/// word, in their order: those that contain it are kept, the others dropped.
pub proof fn lemma_targets_contain_the_platform(triples: Seq<Seq<char>>, needle: Seq<char>)
    ensures
        containing(triples, needle) == triples.filter(|t: Seq<char>| contains_spec(t, needle)),
        forall|t: Seq<char>|
            #[trigger] containing(triples, needle).contains(t) <==> (triples.contains(t)
                && contains_spec(t, needle)),
    decreases triples.len(),
{
    let pred = |t: Seq<char>| contains_spec(t, needle);
    if triples.len() > 0 {
        let init = triples.drop_last();
        let last = triples.last();
        lemma_targets_contain_the_platform(init, needle);
        assert(triples.filter(pred) == if pred(last) {
            init.filter(pred).push(last)
        } else {
            init.filter(pred)
        }) by {
            reveal_with_fuel(Seq::filter, 1);
        }
        assert(triples =~= init.push(last));
        assert forall|t: Seq<char>|
            #[trigger] containing(triples, needle).contains(t) <==> (triples.contains(t)
                && contains_spec(t, needle)) by {
            if triples.contains(t) && contains_spec(t, needle) {
                let j = choose|j: int| 0 <= j < triples.len() && triples[j] == t;
                if j < init.len() {
                    assert(init[j] == t);
                    assert(init.contains(t));
                }
            }
            if containing(triples, needle).contains(t) {
                if containing(init, needle).contains(t) {
                    let j = choose|j: int| 0 <= j < init.len() && init[j] == t;
                    assert(triples[j] == t);
                } else {
                    assert(t == last);
                    assert(triples[triples.len() - 1] == t);
                }
            }
        }
    } else {
        assert(triples.filter(pred) =~= Seq::<Seq<char>>::empty()) by {
            reveal_with_fuel(Seq::filter, 1);
        }
    }
}

/// The triples among `triples` that contain `needle`, joined with commas: the
/// `--targets` value of one platform's build.
pub fn target_string(triples: &[&str], needle: &str) -> (r: String)
    ensures
        r@ == join_spec(containing(str_views(triples@), needle@), ","@),
{
    let mut picked: Vec<&str> = Vec::new();
    let mut i: usize = 0;
    while i < triples.len()
        invariant
            i <= triples@.len(),
            str_views(picked@) == containing(str_views(triples@.take(i as int)), needle@),
        decreases triples@.len() - i,
    {
        let ghost before = picked@;
        assert(str_views(triples@.take(i + 1)).drop_last() =~= str_views(
            triples@.take(i as int),
        ));
        if contains(triples[i], needle) {
            picked.push(triples[i]);
            assert(str_views(picked@) =~= str_views(before).push(triples@[i as int]@));
        }
        i = i + 1;
    }
    assert(triples@.take(i as int) =~= triples@);
    join(picked.as_slice(), ",")
}

/// The arguments of `uniffi-bindgen-react-native` that build `platform` for
/// `targets`.
pub open spec fn build_args_spec(platform: Seq<char>, release: bool, targets: Seq<char>) -> Seq<
    Seq<char>,
> {
    let head = seq!["build"@, platform, "--and-generate"@];
    let head = if release {
        head.push("--release"@)
    } else {
        head
    };
    head.push("--targets"@).push(targets)
}

fn push_str(v: &mut Vec<String>, s: &str)
    ensures
        string_views(final(v)@) == string_views(old(v)@).push(s@),
{
    v.push(String::from_str(s));
    assert(string_views(final(v)@) =~= string_views(old(v)@).push(s@));
}

/// The arguments of `uniffi-bindgen-react-native` that build `platform`
/// (`"ios"` or `"android"`) for the comma-separated `target_string`.
pub fn build_arguments(platform: &str, mode: Mode, target_string: &str) -> (r: Vec<String>)
    ensures
        string_views(r@) == build_args_spec(platform@, mode == Mode::Release, target_string@),
{
    let mut args: Vec<String> = Vec::new();
    push_str(&mut args, "build");
    push_str(&mut args, platform);
    push_str(&mut args, "--and-generate");
    if mode == Mode::Release {
        push_str(&mut args, "--release");
    }
    push_str(&mut args, "--targets");
    push_str(&mut args, target_string);
    assert(string_views(args@) =~= build_args_spec(
        platform@,
        mode == Mode::Release,
        target_string@,
    ));
    args
}

/// One run of the React Native binding generation.
pub enum ReactNativeStep {
    /// `uniffi-bindgen-react-native generate jsi turbo-module`.
    GenerateJsi,
    /// `uniffi-bindgen-react-native` with these arguments.
    Build { args: Vec<String> },
    /// Patch the generated `android/CMakeLists.txt`.
    PatchCmakeLists,
    /// `npm pkg set files[]=*.xcframework/**`.
    SetXcframeworkFiles,
}

/// The runs that generate React Native bindings for `target_triples`: the JSI
/// bindings; an iOS build for the iOS triples, if any; an Android build for the
/// Android triples, if any, followed by the CMake patch; and the package-file
/// update.
pub fn react_native_steps(target_triples: &[&str], mode: Mode) -> (r: Vec<ReactNativeStep>)
    ensures
        ({
            let ios = join_spec(containing(str_views(target_triples@), "ios"@), ","@);
            let android = join_spec(containing(str_views(target_triples@), "android"@), ","@);
            let n_ios: int = if ios.len() > 0 {
                1
            } else {
                0
            };
            let n_android: int = if android.len() > 0 {
                2
            } else {
                0
            };
            &&& r@.len() == 2 + n_ios + n_android
            &&& r@[0] is GenerateJsi
            &&& ios.len() > 0 ==> (r@[1] matches ReactNativeStep::Build { args } && string_views(
                args@,
            ) == build_args_spec("ios"@, mode == Mode::Release, ios))
            &&& android.len() > 0 ==> {
                &&& (r@[1 + n_ios] matches ReactNativeStep::Build { args } && string_views(args@)
                    == build_args_spec("android"@, mode == Mode::Release, android))
                &&& r@[2 + n_ios] is PatchCmakeLists
            }
            &&& r@[r@.len() - 1] is SetXcframeworkFiles
        }),
{
    let ios_targets = target_string(target_triples, "ios");
    let android_targets = target_string(target_triples, "android");
    let mut steps: Vec<ReactNativeStep> = Vec::new();
    steps.push(ReactNativeStep::GenerateJsi);
    if ios_targets.unicode_len() > 0 {
        steps.push(
            ReactNativeStep::Build { args: build_arguments("ios", mode, ios_targets.as_str()) },
        );
    }
    if android_targets.unicode_len() > 0 {
        steps.push(
            ReactNativeStep::Build {
                args: build_arguments("android", mode, android_targets.as_str()),
            },
        );
        steps.push(ReactNativeStep::PatchCmakeLists);
    }
    steps.push(ReactNativeStep::SetXcframeworkFiles);
    steps
}

/// The `ubrn.config.yaml` template with the project path filled in.
pub fn fill_project_path(template: &str, project_dir: &str) -> (r: String)
    ensures
        r@ == replace_spec(template@, "<%PATH_TO_PROJECT%>"@, project_dir@),
{
    proof {
        reveal_strlit("<%PATH_TO_PROJECT%>");
    }
    replace_all(template, "<%PATH_TO_PROJECT%>", project_dir)
}

/// The package-root lookup that fails on packages whose `exports` omit
/// `package.json`.
pub open spec fn cmake_broken() -> Seq<char> {
    "require.resolve('uniffi-bindgen-react-native/package.json')"@
}

/// The package-root lookup through the package's public `.` export.
pub open spec fn cmake_fixed() -> Seq<char> {
    "require('path').dirname(require('path').dirname(require('path').dirname(require('path').dirname(require.resolve('uniffi-bindgen-react-native')))))"@
}

/// The directory step that the fixed lookup no longer needs.
pub open spec fn cmake_dirname_block() -> Seq<char> {
    "\n# Get the directory; get_filename_component and cmake_path will normalize\n# paths with Windows path separators.\nget_filename_component(UNIFFI_BINDGEN_PATH \"${UNIFFI_BINDGEN_PATH}\" DIRECTORY)\n"@
}

/// The patched `android/CMakeLists.txt`, or `None` when it has no broken
/// lookup and is left as it is.
pub fn patch_cmake_lists_contents(contents: &str) -> (r: Option<String>)
    ensures
        match r {
            Some(p) => contains_spec(contents@, cmake_broken()) && p@ == replace_spec(
                replace_spec(contents@, cmake_broken(), cmake_fixed()),
                cmake_dirname_block(),
                "\n"@,
            ),
            None => !contains_spec(contents@, cmake_broken()),
        },
{
    let broken = "require.resolve('uniffi-bindgen-react-native/package.json')";
    if !contains(contents, broken) {
        return None;
    }
    proof {
        reveal_strlit("require.resolve('uniffi-bindgen-react-native/package.json')");
        reveal_strlit(
            "\n# Get the directory; get_filename_component and cmake_path will normalize\n# paths with Windows path separators.\nget_filename_component(UNIFFI_BINDGEN_PATH \"${UNIFFI_BINDGEN_PATH}\" DIRECTORY)\n",
        );
    }
    let fixed = replace_all(
        contents,
        broken,
        "require('path').dirname(require('path').dirname(require('path').dirname(require('path').dirname(require.resolve('uniffi-bindgen-react-native')))))",
    );
    Some(
        replace_all(
            fixed.as_str(),
            "\n# Get the directory; get_filename_component and cmake_path will normalize\n# paths with Windows path separators.\nget_filename_component(UNIFFI_BINDGEN_PATH \"${UNIFFI_BINDGEN_PATH}\" DIRECTORY)\n",
            "\n",
        ),
    )
}

#[verifier::rlimit(100)]
#[verifier::spinoff_prover]
proof fn lemma_cmake_lookups_apart()
    ensures
        no_suffix_agrees(cmake_fixed(), cmake_broken(), 0),
        no_suffix_agrees(cmake_broken(), cmake_fixed(), 1),
        no_suffix_agrees("\n"@, cmake_broken(), 0),
        no_suffix_agrees(cmake_broken(), "\n"@, 1),
        cmake_broken().len() > 0,
        cmake_dirname_block().len() > 0,
{
    reveal_strlit("require.resolve('uniffi-bindgen-react-native/package.json')");
    reveal_strlit(
        "require('path').dirname(require('path').dirname(require('path').dirname(require('path').dirname(require.resolve('uniffi-bindgen-react-native')))))",
    );
    reveal_strlit("\n");
    reveal_strlit(
        "\n# Get the directory; get_filename_component and cmake_path will normalize\n# paths with Windows path separators.\nget_filename_component(UNIFFI_BINDGEN_PATH \"${UNIFFI_BINDGEN_PATH}\" DIRECTORY)\n",
    );
    let b = cmake_broken();
    let f = cmake_fixed();
    assert(no_suffix_agrees("\n"@, b, 0)) by {
        reveal_with_fuel(no_suffix_agrees, 3);
    }
    assert(no_suffix_agrees(b, "\n"@, 1)) by {
        reveal_with_fuel(no_suffix_agrees, 60);
    }
    assert(no_suffix_agrees(b, f, 1)) by {
        reveal_with_fuel(no_suffix_agrees, 60);
        reveal_with_fuel(agrees_from, 8);
    }
    // The last of the nested lookups agrees with the broken one up to the `/`.
    assert(no_suffix_agrees(f, b, 97)) by {
        reveal_with_fuel(no_suffix_agrees, 60);
        reveal_with_fuel(agrees_from, 8);
    }
    assert(!agrees_from(f, 96, b, 0)) by {
        reveal_with_fuel(agrees_from, 46);
    }
    assert(no_suffix_agrees(f, b, 96)) by {
        reveal_with_fuel(no_suffix_agrees, 2);
    }
    assert(no_suffix_agrees(f, b, 72)) by {
        reveal_with_fuel(no_suffix_agrees, 26);
        reveal_with_fuel(agrees_from, 10);
    }
    assert(no_suffix_agrees(f, b, 48)) by {
        reveal_with_fuel(no_suffix_agrees, 26);
        reveal_with_fuel(agrees_from, 10);
    }
    assert(no_suffix_agrees(f, b, 24)) by {
        reveal_with_fuel(no_suffix_agrees, 26);
        reveal_with_fuel(agrees_from, 10);
    }
    assert(no_suffix_agrees(f, b, 0)) by {
        reveal_with_fuel(no_suffix_agrees, 26);
        reveal_with_fuel(agrees_from, 10);
    }
}

/// A patched `android/CMakeLists.txt` no longer holds the broken lookup, so
/// patching it again leaves it as it is.
pub proof fn lemma_cmake_patch_idempotent(contents: Seq<char>)
    ensures
        !contains_spec(
            replace_spec(
                replace_spec(contents, cmake_broken(), cmake_fixed()),
                cmake_dirname_block(),
                "\n"@,
            ),
            cmake_broken(),
        ),
{
    lemma_cmake_lookups_apart();
    let b = cmake_broken();
    assert forall|i: int| #![trigger occurs_at(contents, b, i)] occurs_at(contents, b, i) implies b.len()
        <= contents.len() - i && contents.skip(i).take(b.len() as int) == b by {
        assert(contents.skip(i).take(b.len() as int) =~= contents.subrange(i, i + b.len()));
    }
    lemma_replace_removes(contents, b, cmake_fixed(), b);
    let fixed = replace_spec(contents, b, cmake_fixed());
    lemma_replace_removes(fixed, cmake_dirname_block(), "\n"@, b);
    let patched = replace_spec(fixed, cmake_dirname_block(), "\n"@);
    lemma_find_occurs(patched, b);
    if let Some(i) = find_spec(patched, b) {
        assert(occurs_at(patched, b, i as int));
    }
}

/// The ABIs to list in `gradle.properties` for the targets `triples`, or
/// `None` when none of them is an Android triple and the file is left alone.
pub fn gradle_abis(triples: &[String]) -> (r: Option<Vec<&'static str>>)
    ensures
        match r {
            Some(v) => str_views(v@) == abis_of(string_views(triples@)) && v@.len() > 0,
            None => abis_of(string_views(triples@)).len() == 0,
        },
{
    let abis = android_abis(triples);
    if abis.len() == 0 {
        assert(str_views(abis@).len() == 0);
        None
    } else {
        Some(abis)
    }
}

/// The property that lists the ABIs Gradle builds.
pub open spec fn arch_property() -> Seq<char> {
    "reactNativeArchitectures="@
}

/// The first line of `rest`, as `str::lines` yields it: without its `'\n'`,
/// and without the `'\r'` before that `'\n'`.
pub open spec fn first_line(rest: Seq<char>) -> Seq<char> {
    let piece = rest.take(line_end(rest) as int);
    if line_end(rest) < rest.len() && piece.len() > 0 && piece.last() == '\r' {
        piece.drop_last()
    } else {
        piece
    }
}

/// The bounds in `s` of the first line, from the line starting at `pos` on,
/// that starts with `prefix` once its leading whitespace is trimmed.
pub open spec fn property_line_from(s: Seq<char>, prefix: Seq<char>, pos: int) -> Option<
    (int, int),
>
    decreases s.len() - pos,
{
    if pos < 0 || pos > s.len() {
        None
    } else {
        let rest = s.skip(pos);
        let line = first_line(rest);
        if trim_start(line).len() >= prefix.len() && trim_start(line).take(prefix.len() as int)
            == prefix {
            Some((pos, pos + line.len()))
        } else if line_end(rest) < rest.len() {
            property_line_from(s, prefix, pos + line_end(rest) + 1)
        } else {
            None
        }
    }
}

/// `gradle.properties` with the ABI property set to `abis`: the first line
/// that assigns it is replaced in place, every other line kept; or the
/// property is appended on a line of its own when no line assigns it.
pub open spec fn gradle_patch(contents: Seq<char>, abis: Seq<Seq<char>>) -> Seq<char> {
    let new_line = arch_property() + join_spec(abis, ","@);
    match property_line_from(contents, arch_property(), 0) {
        Some((a, b)) => contents.take(a) + new_line + contents.skip(b),
        None => {
            let base = if contents.len() > 0 && contents.last() != '\n' {
                contents.push('\n')
            } else {
                contents
            };
            base + new_line + "\n"@
        },
    }
}

/// The bounds of the first line from `pos` on whose trimmed start begins with
/// `prefix`, if any.
fn find_property_line(s: &[char], prefix: &[char], pos: usize) -> (r: Option<(usize, usize)>)
    requires
        pos <= s@.len(),
    ensures
        match property_line_from(s@, prefix@, pos as int) {
            Some((a, b)) => r == Some((a as usize, b as usize)) && 0 <= a <= b <= s@.len(),
            None => r is None,
        },
    decreases s@.len() - pos,
{
    let n: usize = s.len();
    let k: usize = find_line_end(s, pos);
    let ghost rest = s@.skip(pos as int);
    assert(rest.take(line_end(rest) as int) =~= s@.subrange(pos as int, k as int));
    let b: usize = if k < n && k > pos && s[k - 1] == '\r' {
        k - 1
    } else {
        k
    };
    assert(first_line(rest) =~= s@.subrange(pos as int, b as int));
    let a: usize = crate::text::trim_start_index(s, pos, b);
    if crate::text::range_starts_with(s, a, b, prefix) {
        return Some((pos, b));
    }
    if k < n {
        find_property_line(s, prefix, k + 1)
    } else {
        None
    }
}

/// `gradle.properties` with `reactNativeArchitectures` set to the ABIs `abis`.
pub fn patch_gradle_properties_contents(contents: &str, abis: &[&str]) -> (r: String)
    ensures
        r@ == gradle_patch(contents@, str_views(abis@)),
{
    let prefix = "reactNativeArchitectures=";
    let mut new_line = String::from_str(prefix);
    let joined = join(abis, ",");
    new_line.append(joined.as_str());
    let cs = chars_of(contents);
    let pc = chars_of(prefix);
    assert(contents@.skip(0) =~= contents@);
    match find_property_line(cs.as_slice(), pc.as_slice(), 0) {
        Some((a, b)) => {
            let mut out = String::from_str(contents.substring_char(0, a));
            out.append(new_line.as_str());
            out.append(contents.substring_char(b, cs.len()));
            assert(contents@.subrange(0, a as int) =~= contents@.take(a as int));
            assert(contents@.subrange(b as int, contents@.len() as int) =~= contents@.skip(
                b as int,
            ));
            out
        },
        None => {
            let mut patched = String::from_str(contents);
            let n: usize = cs.len();
            proof {
                reveal_strlit("\n");
            }
            if n > 0 && cs[n - 1] != '\n' {
                patched.append("\n");
                assert(contents@ + "\n"@ =~= contents@.push('\n'));
            }
            patched.append(new_line.as_str());
            patched.append("\n");
            patched
        },
    }
}

} // verus!
