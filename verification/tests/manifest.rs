use mopro_ffi::app_config::{
    project_name_from_manifest, raw_project_name_from_manifest, ManifestError,
};

#[test]
fn lib_name_wins_over_package_name() {
    let text = "[package]\nname = \"my-app\"\n\n[lib]\nname = \"my_core\"\n";
    assert_eq!(project_name_from_manifest(text), Ok("my_core".to_string()));
    assert_eq!(raw_project_name_from_manifest(text), Ok("my-app".to_string()));
}

#[test]
fn package_name_has_dashes_made_underscores() {
    let text = "[package]\nname = \"mopro-example-app\"\nversion = \"0.1.0\"\n";
    assert_eq!(project_name_from_manifest(text), Ok("mopro_example_app".to_string()));
    assert_eq!(raw_project_name_from_manifest(text), Ok("mopro-example-app".to_string()));
}

#[test]
fn lib_name_that_is_not_a_string_falls_back_to_the_package() {
    let text = "[package]\nname = \"a-b\"\n\n[lib]\nname = 3\n";
    assert_eq!(project_name_from_manifest(text), Ok("a_b".to_string()));
}

#[test]
fn manifest_without_names_is_refused() {
    let text = "[dependencies]\nserde = \"1\"\n";
    assert_eq!(project_name_from_manifest(text), Err(ManifestError::MissingName));
    assert_eq!(raw_project_name_from_manifest(text), Err(ManifestError::MissingName));
}

#[test]
fn text_that_is_not_toml_is_refused() {
    assert_eq!(project_name_from_manifest("[package\nname ="), Err(ManifestError::Parse));
    assert_eq!(raw_project_name_from_manifest("= ="), Err(ManifestError::Parse));
}
