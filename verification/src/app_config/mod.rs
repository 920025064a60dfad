//! Configuration of the per-platform binding builds: build modes, target
//! architectures and the edits the builders make to generated project files.

pub mod android;
pub mod constants;
pub mod react_native;
pub mod flutter;
pub mod web;
pub mod ios;

use crate::text::{replace_all, replace_spec};
use vstd::prelude::*;
use vstd::string::StringExecFns;

verus! {

/// The library name of a project: the `[lib]` name when the manifest sets one,
/// else the package name with `-` made `_`.
pub open spec fn project_name_spec(lib_name: Option<Seq<char>>, package_name: Option<Seq<char>>) -> Option<
    Seq<char>,
> {
    match lib_name {
        Some(l) => Some(l),
        None => match package_name {
            Some(p) => Some(replace_spec(p, "-"@, "_"@)),
            None => None,
        },
    }
}

/// The library name of a project from the `[lib]` name and the package name
/// found in its manifest; `None` when neither is set.
pub fn select_project_name(lib_name: Option<&str>, package_name: Option<&str>) -> (r: Option<
    String,
>)
    ensures
        match r {
            Some(n) => project_name_spec(
                match lib_name {
                    Some(l) => Some(l@),
                    None => None,
                },
                match package_name {
                    Some(p) => Some(p@),
                    None => None,
                },
            ) == Some(n@),
            None => lib_name is None && package_name is None,
        },
{
    match lib_name {
        Some(l) => Some(String::from_str(l)),
        None => match package_name {
            Some(p) => {
                proof {
                    reveal_strlit("-");
                }
                Some(replace_all(p, "-", "_"))
            },
            None => None,
        },
    }
}

/// The file of the library `name` with the extension `ext`: `lib{name}.{ext}`.
pub fn lib_file_name(name: &str, ext: &str) -> (r: String)
    ensures
        r@ == "lib"@ + name@ + "."@ + ext@,
{
    let mut s = String::from_str("lib");
    s.append(name);
    s.append(".");
    s.append(ext);
    s
}


/// Why no project name could be read from a manifest.
#[derive(Debug, Clone, Copy, PartialEq, Eq, Structural)]
pub enum ManifestError {
    /// The manifest is not TOML.
    Parse,
    /// The manifest names neither a library nor a package.
    MissingName,
}

/// The view of an optional string.
pub open spec fn opt_view(o: Option<String>) -> Option<Seq<char>> {
    match o {
        Some(s) => Some(s@),
        None => None,
    }
}

/// The `[lib]` `name` and the `[package]` `name` of the manifest `text` where
/// they are strings, or `None` where `text` is not TOML.
pub uninterp spec fn toml_manifest_names(text: Seq<char>) -> Option<
    (Option<Seq<char>>, Option<Seq<char>>),
>;

/// Parses `text` as a `toml::Value` and reads `lib.name` and `package.name`
/// with `get` and `as_str`. The contract names the result, a function of
/// `text` alone.
#[verifier::external_body]
fn toml_names(text: &str) -> (r: Option<(Option<String>, Option<String>)>)
    ensures
        match r {
            Some((l, p)) => toml_manifest_names(text@) == Some((opt_view(l), opt_view(p))),
            None => toml_manifest_names(text@) is None,
        },
{
    match text.parse::<toml::Value>() {
        Ok(v) => Some((
            v.get("lib").and_then(|t| t.get("name")).and_then(|n| n.as_str()).map(|n| n.to_string()),
            v.get("package").and_then(|t| t.get("name")).and_then(|n| n.as_str()).map(|n| n.to_string()),
        )),
        Err(_) => None,
    }
}

fn as_opt_str(o: &Option<String>) -> (r: Option<&str>)
    ensures
        match r {
            Some(s) => opt_view(*o) == Some(s@),
            None => o is None,
        },
{
    match o {
        Some(s) => Some(s.as_str()),
        None => None,
    }
}

/// The library name of the project whose manifest is `text`: the `[lib]`
/// name when set, else the package name with `-` made `_`.
pub fn project_name_from_manifest(text: &str) -> (r: Result<String, ManifestError>)
    ensures
        match toml_manifest_names(text@) {
            None => r == Err::<String, ManifestError>(ManifestError::Parse),
            Some((l, p)) => match project_name_spec(l, p) {
                Some(n) => r matches Ok(s) && s@ == n,
                None => r == Err::<String, ManifestError>(ManifestError::MissingName),
            },
        },
{
    match toml_names(text) {
        None => Err(ManifestError::Parse),
        Some((l, p)) => {
            let lib_name = as_opt_str(&l);
            let package_name = as_opt_str(&p);
            match select_project_name(lib_name, package_name) {
                Some(n) => Ok(n),
                None => Err(ManifestError::MissingName),
            }
        },
    }
}

/// The package name, as written, of the project whose manifest is `text`.
pub fn raw_project_name_from_manifest(text: &str) -> (r: Result<String, ManifestError>)
    ensures
        match toml_manifest_names(text@) {
            None => r == Err::<String, ManifestError>(ManifestError::Parse),
            Some((_, p)) => match p {
                Some(n) => r matches Ok(s) && s@ == n,
                None => r == Err::<String, ManifestError>(ManifestError::MissingName),
            },
        },
{
    match toml_names(text) {
        None => Err(ManifestError::Parse),
        Some((_, p)) => match p {
            Some(n) => Ok(n),
            None => Err(ManifestError::MissingName),
        },
    }
}


/// The file name, with extension `ext`, of the library that the `[lib]`
/// section of the manifest `text` names; `None` when it names none.
pub fn lib_file_from_manifest(text: &str, ext: &str) -> (r: Result<Option<String>, ManifestError>)
    ensures
        match toml_manifest_names(text@) {
            None => r == Err::<Option<String>, ManifestError>(ManifestError::Parse),
            Some((l, _)) => match l {
                Some(n) => r matches Ok(Some(f)) && f@ == "lib"@ + n + "."@ + ext@,
                None => r == Ok::<Option<String>, ManifestError>(None),
            },
        },
{
    match toml_names(text) {
        None => Err(ManifestError::Parse),
        Some((l, _)) => match l {
            Some(n) => Ok(Some(lib_file_name(n.as_str(), ext))),
            None => Ok(None),
        },
    }
}

} // verus!
