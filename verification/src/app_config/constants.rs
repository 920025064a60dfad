//! Names shared by the binding builders: environment variables, output
//! directories, build modes, target architectures and platforms.

use vstd::prelude::*;

verus! {

pub const BUILD_MODE_ENV: &'static str = "CONFIGURATION";

pub const IOS_ARCHS_ENV: &'static str = "IOS_ARCHS";

pub const ANDROID_ARCHS_ENV: &'static str = "ANDROID_ARCHS";

pub const IOS_BINDINGS_DIR: &'static str = "MoproiOSBindings";

pub const IOS_SWIFT_FILE: &'static str = "mopro.swift";

pub const IOS_XCFRAMEWORKS_DIR: &'static str = "MoproBindings.xcframework";

pub const ANDROID_BINDINGS_DIR: &'static str = "MoproAndroidBindings";

pub const ANDROID_JNILIBS_DIR: &'static str = "jniLibs";

pub const ANDROID_UNIFFI_DIR: &'static str = "uniffi";

pub const ANDROID_PACKAGE_NAME: &'static str = "mopro";

pub const ANDROID_KT_FILE: &'static str = "mopro.kt";

pub const WEB_BINDINGS_DIR: &'static str = "MoproWasmBindings";

pub const ARCH_X86_64: &'static str = "x86_64";

pub const ARCH_ARM_64: &'static str = "aarch64";

pub const ARCH_I686: &'static str = "x86";

pub const ARCH_ARM_V7_ABI: &'static str = "armeabi-v7a";

pub const ARCH_ARM_64_V8: &'static str = "arm64-v8a";

/// Whether every character of `s` is ASCII.
pub open spec fn is_ascii_chars(s: Seq<char>) -> bool {
    forall|i: int| 0 <= i < s.len() ==> (s[i] as u32) < 128
}

/// The ASCII lowercase of `c`.
pub open spec fn ascii_lower(c: char) -> char {
    if 'A' <= c <= 'Z' {
        ((c as u32) + 32) as char
    } else {
        c
    }
}

/// `s` with its ASCII capitals made small.
pub open spec fn ascii_lowercase(s: Seq<char>) -> Seq<char> {
    s.map_values(|c: char| ascii_lower(c))
}

/// The lowercase of a string (`str::to_lowercase`), Unicode's full lowercase
/// mapping applied to each character.
pub uninterp spec fn lowercase_of(s: Seq<char>) -> Seq<char>;

/// `str::to_lowercase`. Its result is named by `lowercase_of`; for ASCII input
/// it is the ASCII lowercase of the input, as the Unicode lowercase mapping of
/// an ASCII character is its ASCII lowercase. Nothing is stated of non-ASCII
/// input.
#[verifier::external_body]
pub(crate) fn lowercase(s: &str) -> (r: String)
    ensures
        r@ == lowercase_of(s@),
        is_ascii_chars(s@) ==> r@ == ascii_lowercase(s@),
{
    s.to_lowercase()
}

/// Whether the strings `a` and `b` are equal.
pub fn str_eq(a: &str, b: &str) -> (r: bool)
    ensures
        r == (a@ == b@),
{
    let ac = crate::text::chars_of(a);
    let bc = crate::text::chars_of(b);
    if ac.len() != bc.len() {
        return false;
    }
    let r = crate::text::range_eq(ac.as_slice(), 0, ac.len(), bc.as_slice());
    assert(ac@.subrange(0, ac@.len() as int) =~= ac@);
    r
}

/// Whether `name`, lowercased, equals `s` lowercased.
pub open spec fn same_lowercase(name: Seq<char>, s: Seq<char>) -> bool {
    lowercase_of(name) == lowercase_of(s)
}

/// Whether `name` and `s` are equal once lowercased.
fn lowercase_eq(name: &str, s: &str) -> (r: bool)
    ensures
        r == same_lowercase(name@, s@),
        is_ascii_chars(name@) && is_ascii_chars(s@) ==> r == (ascii_lowercase(name@)
            == ascii_lowercase(s@)),
{
    let a = lowercase(name);
    let b = lowercase(s);
    str_eq(a.as_str(), b.as_str())
}

/// Whether `name` is a lowercase ASCII name: ASCII lowercasing leaves it as it is.
pub open spec fn is_lower_ascii_name(name: Seq<char>) -> bool {
    is_ascii_chars(name) && ascii_lowercase(name) == name
}

proof fn lemma_lower_ascii_name(name: Seq<char>)
    requires
        forall|i: int| 0 <= i < name.len() ==> ('a' <= #[trigger] name[i] <= 'z' || name[i] == '-'
            || name[i] == '_' || '0' <= name[i] <= '9'),
    ensures
        is_lower_ascii_name(name),
{
    assert(ascii_lowercase(name) =~= name);
}

/// A build mode.
#[derive(Debug, Copy, Clone, PartialEq, Eq, Structural)]
pub enum Mode {
    Debug,
    Release,
}

/// The name of a build mode.
pub open spec fn mode_name(m: Mode) -> Seq<char> {
    match m {
        Mode::Debug => "debug"@,
        Mode::Release => "release"@,
    }
}

/// The modes in their fixed order.
pub open spec fn mode_at(idx: int) -> Mode {
    if idx == 0 {
        Mode::Debug
    } else {
        Mode::Release
    }
}

/// The first mode whose name equals `s` once both are lowercased.
pub open spec fn mode_parse(s: Seq<char>) -> Option<Mode> {
    if same_lowercase("debug"@, s) {
        Some(Mode::Debug)
    } else if same_lowercase("release"@, s) {
        Some(Mode::Release)
    } else {
        None
    }
}

/// The mode whose name equals the ASCII lowercase of `s`.
pub open spec fn mode_parse_ascii(s: Seq<char>) -> Option<Mode> {
    if ascii_lowercase(s) == "debug"@ {
        Some(Mode::Debug)
    } else if ascii_lowercase(s) == "release"@ {
        Some(Mode::Release)
    } else {
        None
    }
}

/// The position of the mode named exactly `s`.
pub open spec fn mode_idx(s: Seq<char>) -> Option<usize> {
    if s == "debug"@ {
        Some(0usize)
    } else if s == "release"@ {
        Some(1usize)
    } else {
        None
    }
}

proof fn lemma_mode_names_lower()
    ensures
        is_lower_ascii_name("debug"@),
        is_lower_ascii_name("release"@),
        "debug"@ != "release"@,
{
    reveal_strlit("debug");
    reveal_strlit("release");
    lemma_lower_ascii_name("debug"@);
    lemma_lower_ascii_name("release"@);
    assert("debug"@.len() != "release"@.len());
}

/// A mode's name, read back without regard to ASCII case, gives the mode.
pub proof fn lemma_mode_name_parses(m: Mode)
    ensures
        is_ascii_chars(mode_name(m)),
        mode_parse_ascii(mode_name(m)) == Some(m),
{
    lemma_mode_names_lower();
}

/// A mode's name gives back its position, and the position gives back the mode.
pub proof fn lemma_mode_idx_roundtrip(m: Mode)
    ensures
        mode_idx(mode_name(m)) matches Some(i) && i < 2 && mode_at(i as int) == m,
{
    lemma_mode_names_lower();
}

/// The names listed by `all_strings` are, at each position, the name of the
/// mode at that position.
pub proof fn lemma_mode_positions(i: int)
    requires
        0 <= i < 2,
    ensures
        mode_idx(mode_name(mode_at(i))) == Some(i as usize),
{
    lemma_mode_names_lower();
}

impl Mode {
    /// The mode's name: `"debug"` or `"release"`.
    pub fn as_str(&self) -> (r: &'static str)
        ensures
            r@ == mode_name(*self),
    {
        match self {
            Mode::Debug => "debug",
            Mode::Release => "release",
        }
    }

    /// The mode named `s`, compared without regard to case.
    pub fn parse_from_str(s: &str) -> (r: Self)
        requires
            mode_parse(s@) is Some,
        ensures
            mode_parse(s@) == Some(r),
    {
        if lowercase_eq("debug", s) {
            Mode::Debug
        } else {
            Mode::Release
        }
    }

    /// The mode named `s`, compared without regard to case, or `None` where
    /// `parse_from_str` refuses `s`.
    pub fn try_parse_from_str(s: &str) -> (r: Option<Self>)
        ensures
            r == mode_parse(s@),
            is_ascii_chars(s@) ==> r == mode_parse_ascii(s@),
    {
        proof {
            lemma_mode_names_lower();
        }
        if lowercase_eq("debug", s) || lowercase_eq("release", s) {
            Some(Mode::parse_from_str(s))
        } else {
            None
        }
    }

    /// The mode at position `idx` of the fixed order debug, release.
    pub fn from_idx(idx: usize) -> (r: Self)
        requires
            idx < 2,
        ensures
            r == mode_at(idx as int),
    {
        if idx == 0 {
            Mode::Debug
        } else {
            Mode::Release
        }
    }

    /// The position of the mode named exactly `s`.
    pub fn idx(s: &str) -> (r: Option<usize>)
        ensures
            r == mode_idx(s@),
    {
        if str_eq("debug", s) {
            Some(0)
        } else if str_eq("release", s) {
            Some(1)
        } else {
            None
        }
    }

    /// The names of all modes, in order.
    pub fn all_strings() -> (r: Vec<&'static str>)
        ensures
            r@.len() == 2,
            r@[0]@ == "debug"@,
            r@[1]@ == "release"@,
    {
        let mut v: Vec<&'static str> = Vec::new();
        v.push("debug");
        v.push("release");
        v
    }
}

/// A compilation target of one platform.
pub trait Arch: Sized {
    /// The target triple of `self`.
    spec fn arch_name(&self) -> Seq<char>;

    /// The target that `parse_from_str` gives for `s`; `None` where it refuses `s`.
    spec fn arch_parse(s: Seq<char>) -> Option<Self>;

    /// The target triples of the platform, in order.
    spec fn arch_names() -> Seq<Seq<char>>;

    /// A description of each target, in the order of `arch_names`.
    spec fn arch_descriptions() -> Seq<Seq<char>>;

    /// The environment variable that lists the targets to build.
    spec fn arch_env() -> Seq<char>;

    fn as_str(&self) -> (r: &'static str)
        ensures
            r@ == self.arch_name(),
    ;

    fn parse_from_str(s: &str) -> (r: Self)
        requires
            Self::arch_parse(s@) is Some,
        ensures
            Self::arch_parse(s@) == Some(r),
    ;

    /// The target named `s`, or `None` where `parse_from_str` refuses `s`.
    fn try_parse_from_str(s: &str) -> (r: Option<Self>)
        ensures
            r == Self::arch_parse(s@),
    ;

    fn all_strings() -> (r: Vec<&'static str>)
        ensures
            r@.len() == Self::arch_names().len(),
            forall|i: int| 0 <= i < r@.len() ==> (#[trigger] r@[i])@ == Self::arch_names()[i],
    ;

    fn all_display_strings() -> (r: Vec<(String, String)>)
        ensures
            r@.len() == Self::arch_names().len(),
            Self::arch_descriptions().len() == Self::arch_names().len(),
            forall|i: int|
                0 <= i < r@.len() ==> (#[trigger] r@[i]).0@ == Self::arch_names()[i] && r@[i].1@
                    == Self::arch_descriptions()[i],
    ;

    fn env_var_name() -> (r: &'static str)
        ensures
            r@ == Self::arch_env(),
    ;
}

/// An iOS target.
#[derive(Debug, Copy, Clone, PartialEq, Eq, Structural)]
pub enum IosArch {
    Aarch64Apple,
    Aarch64AppleSim,
    X8664Apple,
}

/// The target triple of an iOS target.
pub open spec fn ios_arch_name(a: IosArch) -> Seq<char> {
    match a {
        IosArch::Aarch64Apple => "aarch64-apple-ios"@,
        IosArch::Aarch64AppleSim => "aarch64-apple-ios-sim"@,
        IosArch::X8664Apple => "x86_64-apple-ios"@,
    }
}

/// The iOS targets in their fixed order.
pub open spec fn ios_arch_at(i: int) -> IosArch {
    if i == 0 {
        IosArch::Aarch64Apple
    } else if i == 1 {
        IosArch::Aarch64AppleSim
    } else {
        IosArch::X8664Apple
    }
}

/// The first iOS target whose triple equals `s` once both are lowercased.
pub open spec fn ios_arch_parse(s: Seq<char>) -> Option<IosArch> {
    if same_lowercase("aarch64-apple-ios"@, s) {
        Some(IosArch::Aarch64Apple)
    } else if same_lowercase("aarch64-apple-ios-sim"@, s) {
        Some(IosArch::Aarch64AppleSim)
    } else if same_lowercase("x86_64-apple-ios"@, s) {
        Some(IosArch::X8664Apple)
    } else {
        None
    }
}

/// The iOS target whose triple equals the ASCII lowercase of `s`.
pub open spec fn ios_arch_parse_ascii(s: Seq<char>) -> Option<IosArch> {
    if ascii_lowercase(s) == "aarch64-apple-ios"@ {
        Some(IosArch::Aarch64Apple)
    } else if ascii_lowercase(s) == "aarch64-apple-ios-sim"@ {
        Some(IosArch::Aarch64AppleSim)
    } else if ascii_lowercase(s) == "x86_64-apple-ios"@ {
        Some(IosArch::X8664Apple)
    } else {
        None
    }
}

proof fn lemma_ios_names_lower()
    ensures
        is_lower_ascii_name("aarch64-apple-ios"@),
        is_lower_ascii_name("aarch64-apple-ios-sim"@),
        is_lower_ascii_name("x86_64-apple-ios"@),
        "aarch64-apple-ios"@ != "aarch64-apple-ios-sim"@,
        "aarch64-apple-ios"@ != "x86_64-apple-ios"@,
        "aarch64-apple-ios-sim"@ != "x86_64-apple-ios"@,
{
    reveal_strlit("aarch64-apple-ios");
    reveal_strlit("aarch64-apple-ios-sim");
    reveal_strlit("x86_64-apple-ios");
    lemma_lower_ascii_name("aarch64-apple-ios"@);
    lemma_lower_ascii_name("aarch64-apple-ios-sim"@);
    lemma_lower_ascii_name("x86_64-apple-ios"@);
    assert("aarch64-apple-ios"@[0] != "x86_64-apple-ios"@[0]);
    assert("aarch64-apple-ios-sim"@[0] != "x86_64-apple-ios"@[0]);
}

/// An iOS target's triple, read back without regard to ASCII case, gives the
/// target.
pub proof fn lemma_ios_arch_name_parses(a: IosArch)
    ensures
        is_ascii_chars(ios_arch_name(a)),
        ios_arch_parse_ascii(ios_arch_name(a)) == Some(a),
{
    lemma_ios_names_lower();
}

impl Arch for IosArch {
    open spec fn arch_name(&self) -> Seq<char> {
        ios_arch_name(*self)
    }

    open spec fn arch_parse(s: Seq<char>) -> Option<Self> {
        ios_arch_parse(s)
    }

    open spec fn arch_names() -> Seq<Seq<char>> {
        seq!["aarch64-apple-ios"@, "aarch64-apple-ios-sim"@, "x86_64-apple-ios"@]
    }

    open spec fn arch_descriptions() -> Seq<Seq<char>> {
        seq![
            "64-bit iOS devices (iPhone/iPad)"@,
            "ARM64 iOS simulator on Apple Silicon Macs"@,
            "x86_64 iOS simulator on Intel Macs"@,
        ]
    }

    open spec fn arch_env() -> Seq<char> {
        "IOS_ARCHS"@
    }

    fn as_str(&self) -> (r: &'static str) {
        match self {
            IosArch::Aarch64Apple => "aarch64-apple-ios",
            IosArch::Aarch64AppleSim => "aarch64-apple-ios-sim",
            IosArch::X8664Apple => "x86_64-apple-ios",
        }
    }

    fn parse_from_str(s: &str) -> (r: Self) {
        if lowercase_eq("aarch64-apple-ios", s) {
            IosArch::Aarch64Apple
        } else if lowercase_eq("aarch64-apple-ios-sim", s) {
            IosArch::Aarch64AppleSim
        } else {
            IosArch::X8664Apple
        }
    }

    fn try_parse_from_str(s: &str) -> (r: Option<Self>) {
        IosArch::parse_checked(s)
    }

    fn all_strings() -> (r: Vec<&'static str>) {
        let mut v: Vec<&'static str> = Vec::new();
        v.push("aarch64-apple-ios");
        v.push("aarch64-apple-ios-sim");
        v.push("x86_64-apple-ios");
        v
    }

    fn all_display_strings() -> (r: Vec<(String, String)>) {
        let mut v: Vec<(String, String)> = Vec::new();
        v.push(("aarch64-apple-ios".to_string(), "64-bit iOS devices (iPhone/iPad)".to_string()));
        v.push(
            (
                "aarch64-apple-ios-sim".to_string(),
                "ARM64 iOS simulator on Apple Silicon Macs".to_string(),
            ),
        );
        v.push(("x86_64-apple-ios".to_string(), "x86_64 iOS simulator on Intel Macs".to_string()));
        v
    }

    fn env_var_name() -> (r: &'static str) {
        IOS_ARCHS_ENV
    }
}

impl IosArch {
    /// The iOS target named `s`, compared without regard to case; for ASCII
    /// input, compared after ASCII lowercasing.
    pub fn parse_checked(s: &str) -> (r: Option<Self>)
        ensures
            r == ios_arch_parse(s@),
            is_ascii_chars(s@) ==> r == ios_arch_parse_ascii(s@),
    {
        proof {
            lemma_ios_names_lower();
        }
        if lowercase_eq("aarch64-apple-ios", s) || lowercase_eq("aarch64-apple-ios-sim", s)
            || lowercase_eq("x86_64-apple-ios", s) {
            Some(<IosArch as Arch>::parse_from_str(s))
        } else {
            None
        }
    }
}

/// An Android target.
#[derive(Debug, Copy, Clone, PartialEq, Eq, Structural)]
pub enum AndroidArch {
    X8664Linux,
    I686Linux,
    Armv7LinuxAbi,
    Aarch64Linux,
}

/// The target triple of an Android target.
pub open spec fn android_arch_name(a: AndroidArch) -> Seq<char> {
    match a {
        AndroidArch::X8664Linux => "x86_64-linux-android"@,
        AndroidArch::I686Linux => "i686-linux-android"@,
        AndroidArch::Armv7LinuxAbi => "armv7-linux-androideabi"@,
        AndroidArch::Aarch64Linux => "aarch64-linux-android"@,
    }
}

/// The first Android target whose triple equals `s` once both are lowercased.
pub open spec fn android_arch_parse(s: Seq<char>) -> Option<AndroidArch> {
    if same_lowercase("x86_64-linux-android"@, s) {
        Some(AndroidArch::X8664Linux)
    } else if same_lowercase("i686-linux-android"@, s) {
        Some(AndroidArch::I686Linux)
    } else if same_lowercase("armv7-linux-androideabi"@, s) {
        Some(AndroidArch::Armv7LinuxAbi)
    } else if same_lowercase("aarch64-linux-android"@, s) {
        Some(AndroidArch::Aarch64Linux)
    } else {
        None
    }
}

/// The Android target whose triple equals the ASCII lowercase of `s`.
pub open spec fn android_arch_parse_ascii(s: Seq<char>) -> Option<AndroidArch> {
    if ascii_lowercase(s) == "x86_64-linux-android"@ {
        Some(AndroidArch::X8664Linux)
    } else if ascii_lowercase(s) == "i686-linux-android"@ {
        Some(AndroidArch::I686Linux)
    } else if ascii_lowercase(s) == "armv7-linux-androideabi"@ {
        Some(AndroidArch::Armv7LinuxAbi)
    } else if ascii_lowercase(s) == "aarch64-linux-android"@ {
        Some(AndroidArch::Aarch64Linux)
    } else {
        None
    }
}

proof fn lemma_android_names_lower()
    ensures
        is_lower_ascii_name("x86_64-linux-android"@),
        is_lower_ascii_name("i686-linux-android"@),
        is_lower_ascii_name("armv7-linux-androideabi"@),
        is_lower_ascii_name("aarch64-linux-android"@),
        "x86_64-linux-android"@ != "i686-linux-android"@,
        "x86_64-linux-android"@ != "armv7-linux-androideabi"@,
        "x86_64-linux-android"@ != "aarch64-linux-android"@,
        "i686-linux-android"@ != "armv7-linux-androideabi"@,
        "i686-linux-android"@ != "aarch64-linux-android"@,
        "armv7-linux-androideabi"@ != "aarch64-linux-android"@,
{
    reveal_strlit("x86_64-linux-android");
    reveal_strlit("i686-linux-android");
    reveal_strlit("armv7-linux-androideabi");
    reveal_strlit("aarch64-linux-android");
    lemma_lower_ascii_name("x86_64-linux-android"@);
    lemma_lower_ascii_name("i686-linux-android"@);
    lemma_lower_ascii_name("armv7-linux-androideabi"@);
    lemma_lower_ascii_name("aarch64-linux-android"@);
    assert("x86_64-linux-android"@[0] != "i686-linux-android"@[0]);
    assert("x86_64-linux-android"@[0] != "armv7-linux-androideabi"@[0]);
    assert("x86_64-linux-android"@[0] != "aarch64-linux-android"@[0]);
    assert("i686-linux-android"@[0] != "armv7-linux-androideabi"@[0]);
    assert("i686-linux-android"@[0] != "aarch64-linux-android"@[0]);
    assert("armv7-linux-androideabi"@[1] != "aarch64-linux-android"@[1]);
}

/// An Android target's triple, read back without regard to ASCII case, gives
/// the target.
pub proof fn lemma_android_arch_name_parses(a: AndroidArch)
    ensures
        is_ascii_chars(android_arch_name(a)),
        android_arch_parse_ascii(android_arch_name(a)) == Some(a),
{
    lemma_android_names_lower();
}

impl Arch for AndroidArch {
    open spec fn arch_name(&self) -> Seq<char> {
        android_arch_name(*self)
    }

    open spec fn arch_parse(s: Seq<char>) -> Option<Self> {
        android_arch_parse(s)
    }

    open spec fn arch_names() -> Seq<Seq<char>> {
        seq![
            "x86_64-linux-android"@,
            "i686-linux-android"@,
            "armv7-linux-androideabi"@,
            "aarch64-linux-android"@,
        ]
    }

    open spec fn arch_descriptions() -> Seq<Seq<char>> {
        seq![
            "64-bit Android emulators (x86_64 architecture)"@,
            "32-bit Android emulators (x86 architecture, legacy)"@,
            "32-bit ARM devices (older Android smartphones/tablets)"@,
            "64-bit ARM devices (modern Android smartphones/tablets)"@,
        ]
    }

    open spec fn arch_env() -> Seq<char> {
        "ANDROID_ARCHS"@
    }

    fn as_str(&self) -> (r: &'static str) {
        match self {
            AndroidArch::X8664Linux => "x86_64-linux-android",
            AndroidArch::I686Linux => "i686-linux-android",
            AndroidArch::Armv7LinuxAbi => "armv7-linux-androideabi",
            AndroidArch::Aarch64Linux => "aarch64-linux-android",
        }
    }

    fn parse_from_str(s: &str) -> (r: Self) {
        if lowercase_eq("x86_64-linux-android", s) {
            AndroidArch::X8664Linux
        } else if lowercase_eq("i686-linux-android", s) {
            AndroidArch::I686Linux
        } else if lowercase_eq("armv7-linux-androideabi", s) {
            AndroidArch::Armv7LinuxAbi
        } else {
            AndroidArch::Aarch64Linux
        }
    }

    fn try_parse_from_str(s: &str) -> (r: Option<Self>) {
        AndroidArch::parse_checked(s)
    }

    fn all_strings() -> (r: Vec<&'static str>) {
        let mut v: Vec<&'static str> = Vec::new();
        v.push("x86_64-linux-android");
        v.push("i686-linux-android");
        v.push("armv7-linux-androideabi");
        v.push("aarch64-linux-android");
        v
    }

    fn all_display_strings() -> (r: Vec<(String, String)>) {
        let mut v: Vec<(String, String)> = Vec::new();
        v.push(
            (
                "x86_64-linux-android".to_string(),
                "64-bit Android emulators (x86_64 architecture)".to_string(),
            ),
        );
        v.push(
            (
                "i686-linux-android".to_string(),
                "32-bit Android emulators (x86 architecture, legacy)".to_string(),
            ),
        );
        v.push(
            (
                "armv7-linux-androideabi".to_string(),
                "32-bit ARM devices (older Android smartphones/tablets)".to_string(),
            ),
        );
        v.push(
            (
                "aarch64-linux-android".to_string(),
                "64-bit ARM devices (modern Android smartphones/tablets)".to_string(),
            ),
        );
        v
    }

    fn env_var_name() -> (r: &'static str) {
        ANDROID_ARCHS_ENV
    }
}

impl AndroidArch {
    /// The Android target named `s`, compared without regard to case; for
    /// ASCII input, compared after ASCII lowercasing.
    pub fn parse_checked(s: &str) -> (r: Option<Self>)
        ensures
            r == android_arch_parse(s@),
            is_ascii_chars(s@) ==> r == android_arch_parse_ascii(s@),
    {
        proof {
            lemma_android_names_lower();
        }
        if lowercase_eq("x86_64-linux-android", s) || lowercase_eq("i686-linux-android", s)
            || lowercase_eq("armv7-linux-androideabi", s) || lowercase_eq(
            "aarch64-linux-android",
            s,
        ) {
            Some(<AndroidArch as Arch>::parse_from_str(s))
        } else {
            None
        }
    }
}

/// The single WebAssembly target.
#[derive(Debug, Copy, Clone, PartialEq, Eq, Structural)]
pub struct WebArch;

impl Arch for WebArch {
    open spec fn arch_name(&self) -> Seq<char> {
        "wasm32-unknown-unknown"@
    }

    open spec fn arch_parse(s: Seq<char>) -> Option<Self> {
        Some(WebArch)
    }

    open spec fn arch_names() -> Seq<Seq<char>> {
        seq!["wasm32-unknown-unknown"@]
    }

    open spec fn arch_descriptions() -> Seq<Seq<char>> {
        seq!["WebAssembly"@]
    }

    open spec fn arch_env() -> Seq<char> {
        "WEB_ARCHS"@
    }

    fn as_str(&self) -> (r: &'static str) {
        "wasm32-unknown-unknown"
    }

    fn parse_from_str(s: &str) -> (r: Self) {
        WebArch
    }

    fn try_parse_from_str(s: &str) -> (r: Option<Self>) {
        Some(WebArch)
    }

    fn all_strings() -> (r: Vec<&'static str>) {
        let mut v: Vec<&'static str> = Vec::new();
        v.push("wasm32-unknown-unknown");
        v
    }

    fn all_display_strings() -> (r: Vec<(String, String)>) {
        let mut v: Vec<(String, String)> = Vec::new();
        v.push(("wasm32-unknown-unknown".to_string(), "WebAssembly".to_string()));
        v
    }

    fn env_var_name() -> (r: &'static str) {
        "WEB_ARCHS"
    }
}

/// A platform the bindings are built for.
pub trait Platform {
    /// The platform's builder name.
    spec fn platform_id() -> Seq<char>;

    fn identifier() -> (r: &'static str)
        ensures
            r@ == Self::platform_id(),
    ;
}

pub struct IosPlatform;

impl Platform for IosPlatform {
    open spec fn platform_id() -> Seq<char> {
        "iOS Bindings Builder"@
    }

    fn identifier() -> (r: &'static str) {
        "iOS Bindings Builder"
    }
}

pub struct AndroidPlatform;

impl Platform for AndroidPlatform {
    open spec fn platform_id() -> Seq<char> {
        "Android Bindings Builder"@
    }

    fn identifier() -> (r: &'static str) {
        "Android Bindings Builder"
    }
}

pub struct WebPlatform;

impl Platform for WebPlatform {
    open spec fn platform_id() -> Seq<char> {
        "Web Bindings Builder"@
    }

    fn identifier() -> (r: &'static str) {
        "Web Bindings Builder"
    }
}

} // verus!
