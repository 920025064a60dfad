//! The WebAssembly build: the `wasm-pack` run through a pinned nightly
//! toolchain.

use crate::app_config::constants::Mode;
use vstd::prelude::*;
use vstd::string::StringExecFns;

verus! {

/// The `wasm-pack` profile flag of a build mode.
pub open spec fn wasm_mode_flag(mode: Mode) -> Seq<char> {
    match mode {
        Mode::Release => "--release"@,
        Mode::Debug => "--dev"@,
    }
}

/// The `RUSTFLAGS` of the WebAssembly build: shared memory with atomics, and a
/// 4 GiB memory ceiling.
pub open spec fn wasm_rustflags() -> Seq<char> {
    "-C target-feature=+atomics,+bulk-memory -C link-arg=--max-memory=4294967296"@
}

/// The `RUSTFLAGS` of the WebAssembly build.
pub fn wasm_build_rustflags() -> (r: &'static str)
    ensures
        r@ == wasm_rustflags(),
{
    "-C target-feature=+atomics,+bulk-memory -C link-arg=--max-memory=4294967296"
}

/// The arguments of `rustup` that run `wasm-pack` for `mode`, writing to `out_dir`.
pub open spec fn wasm_pack_args_spec(mode: Mode, out_dir: Seq<char>) -> Seq<Seq<char>> {
    seq![
        "run"@,
        "nightly-2024-07-18"@,
        "wasm-pack"@,
        "build"@,
        "--target"@,
        "web"@,
        wasm_mode_flag(mode),
        "--out-dir"@,
        out_dir,
        "--out-name"@,
        "mopro_wasm_lib"@,
        "--no-default-features"@,
        "--features"@,
        "wasm"@,
    ]
}

/// The views of the strings of `v`.
pub open spec fn string_views(v: Seq<String>) -> Seq<Seq<char>> {
    v.map_values(|s: String| s@)
}

fn push_str(v: &mut Vec<String>, s: &str)
    ensures
        string_views(final(v)@) == string_views(old(v)@).push(s@),
{
    v.push(String::from_str(s));
    assert(string_views(final(v)@) =~= string_views(old(v)@).push(s@));
}

/// The arguments of `rustup` that run `wasm-pack` for `mode`, writing to `out_dir`.
pub fn wasm_pack_args(mode: Mode, out_dir: &str) -> (r: Vec<String>)
    ensures
        string_views(r@) == wasm_pack_args_spec(mode, out_dir@),
{
    let flag = match mode {
        Mode::Release => "--release",
        Mode::Debug => "--dev",
    };
    let mut v: Vec<String> = Vec::new();
    push_str(&mut v, "run");
    push_str(&mut v, "nightly-2024-07-18");
    push_str(&mut v, "wasm-pack");
    push_str(&mut v, "build");
    push_str(&mut v, "--target");
    push_str(&mut v, "web");
    push_str(&mut v, flag);
    push_str(&mut v, "--out-dir");
    push_str(&mut v, out_dir);
    push_str(&mut v, "--out-name");
    push_str(&mut v, "mopro_wasm_lib");
    push_str(&mut v, "--no-default-features");
    push_str(&mut v, "--features");
    push_str(&mut v, "wasm");
    assert(string_views(v@) =~= wasm_pack_args_spec(mode, out_dir@));
    v
}

} // verus!
