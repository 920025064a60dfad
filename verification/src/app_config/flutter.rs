//! The Flutter build: the parameters of the bindings builder and the edits
//! made to the files of the generated Flutter plugin.

use crate::text::{contains, contains_spec, lemma_contains_middle, replace_all, replace_spec};
use vstd::prelude::*;
use vstd::string::StringExecFns;

verus! {

/// Parameters of the Flutter bindings builder.
pub struct FlutterBindingsParams {
    pub using_noir: bool,
}

impl Default for FlutterBindingsParams {
    fn default() -> (r: Self)
        ensures
            !r.using_noir,
    {
        FlutterBindingsParams { using_noir: false }
    }
}

/// A `Cargo.toml` made a workspace root: `[workspace]` is appended after two
/// newlines unless the text already mentions it.
pub open spec fn workspace_toml(content: Seq<char>) -> Seq<char> {
    if contains_spec(content, "[workspace]"@) {
        content
    } else {
        content + "\n\n[workspace]\n"@
    }
}

/// Making a manifest a workspace root is idempotent: the result declares the
/// workspace, so a second pass leaves it as it is.
pub proof fn lemma_workspace_toml_idempotent(content: Seq<char>)
    ensures
        contains_spec(workspace_toml(content), "[workspace]"@),
        workspace_toml(workspace_toml(content)) == workspace_toml(content),
{
    if !contains_spec(content, "[workspace]"@) {
        reveal_strlit("\n\n[workspace]\n");
        reveal_strlit("[workspace]");
        let a = content + seq!['\n', '\n'];
        let b = seq!['\n'];
        lemma_contains_middle(a, "[workspace]"@, b);
        assert(content + "\n\n[workspace]\n"@ =~= a + "[workspace]"@ + b);
    }
}

/// The new text of the plugin's `Cargo.toml`, or `None` when it already
/// declares a workspace and is left as it is.
pub fn ensure_workspace_contents(content: &str) -> (r: Option<String>)
    ensures
        match r {
            Some(s) => !contains_spec(content@, "[workspace]"@) && s@ == workspace_toml(content@),
            None => contains_spec(content@, "[workspace]"@),
        },
{
    if contains(content, "[workspace]") {
        None
    } else {
        let mut s = String::from_str(content);
        s.append("\n\n[workspace]\n");
        Some(s)
    }
}

/// The plugin check that only knows the plugin's fully qualified class name.
pub open spec fn cargokit_plugin_check() -> Seq<char> {
    "if (plugin.class.name == \"com.flutter.gradle.FlutterPlugin\")"@
}

/// The plugin check that also accepts the short class name.
pub open spec fn cargokit_plugin_check_fixed() -> Seq<char> {
    "if (plugin.class.name == \"com.flutter.gradle.FlutterPlugin\" || plugin.class.name == \"FlutterPlugin\")"@
}

/// The platform lookup that only works with the newer Flutter Gradle plugin.
pub open spec fn cargokit_platforms() -> Seq<char> {
    "        def platforms = com.flutter.gradle.FlutterPluginUtils.getTargetPlatforms(project).collect()"@
}

/// The platform lookup that falls back to the older plugin's method.
pub open spec fn cargokit_platforms_fixed() -> Seq<char> {
    "        def List<String> platforms\n            try {\n                platforms = com.flutter.gradle.FlutterPluginUtils.getTargetPlatforms(project).collect()\n            } catch (Exception ignored) {\n                platforms = plugin.getTargetPlatforms().collect()\n            }"@
}

/// cargokit's `plugin.gradle` made to work with both Flutter Gradle plugins.
pub fn patch_cargokit_contents(content: &str) -> (r: String)
    ensures
        r@ == replace_spec(
            replace_spec(content@, cargokit_plugin_check(), cargokit_plugin_check_fixed()),
            cargokit_platforms(),
            cargokit_platforms_fixed(),
        ),
{
    proof {
        reveal_strlit("if (plugin.class.name == \"com.flutter.gradle.FlutterPlugin\")");
        reveal_strlit(
            "        def platforms = com.flutter.gradle.FlutterPluginUtils.getTargetPlatforms(project).collect()",
        );
    }
    let first = replace_all(
        content,
        "if (plugin.class.name == \"com.flutter.gradle.FlutterPlugin\")",
        "if (plugin.class.name == \"com.flutter.gradle.FlutterPlugin\" || plugin.class.name == \"FlutterPlugin\")",
    );
    replace_all(
        first.as_str(),
        "        def platforms = com.flutter.gradle.FlutterPluginUtils.getTargetPlatforms(project).collect()",
        "        def List<String> platforms\n            try {\n                platforms = com.flutter.gradle.FlutterPluginUtils.getTargetPlatforms(project).collect()\n            } catch (Exception ignored) {\n                platforms = plugin.getTargetPlatforms().collect()\n            }",
    )
}

/// The manifest `content` with `dependencies.<crate_name>.path` set to `path`
/// where that dependency is a table, as `toml::to_string_pretty` prints the
/// document; `None` where `content` is not TOML or the document cannot be
/// printed.
pub uninterp spec fn toml_with_dependency_path(
    content: Seq<char>,
    crate_name: Seq<char>,
    path: Seq<char>,
) -> Option<Seq<char>>;

/// Parses `content` as a `toml::Value`, sets `path` in the table of the
/// dependency `crate_name` (reached with `get_mut`) when it is a table, and
/// prints the document with `toml::to_string_pretty`. The contract names the
/// result, a function of the three arguments alone.
#[verifier::external_body]
fn set_dependency_path(content: &str, crate_name: &str, path: &str) -> (r: Option<String>)
    ensures
        match r {
            Some(s) => toml_with_dependency_path(content@, crate_name@, path@) == Some(s@),
            None => toml_with_dependency_path(content@, crate_name@, path@) is None,
        },
{
    let mut doc: toml::Value = match content.parse() {
        Ok(v) => v,
        Err(_) => return None,
    };
    let dep = doc.get_mut("dependencies").and_then(|d| d.get_mut(crate_name));
    if let Some(toml::Value::Table(table)) = dep {
        table.insert("path".to_string(), toml::Value::String(path.to_string()));
    }
    toml::to_string_pretty(&doc).ok()
}

/// The plugin manifest `content` with the dependency on the project crate
/// `crate_name` pointed at the project by its absolute path `abs_path`;
/// `None` where the manifest is not TOML or cannot be printed again.
pub fn absolute_dependency_manifest(content: &str, crate_name: &str, abs_path: &str) -> (r: Option<
    String,
>)
    ensures
        match toml_with_dependency_path(content@, crate_name@, abs_path@) {
            Some(t) => r matches Some(s) && s@ == t,
            None => r is None,
        },
{
    set_dependency_path(content, crate_name, abs_path)
}

} // verus!
