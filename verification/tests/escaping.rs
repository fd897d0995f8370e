use wheelpack::escape::escape_name;
use wheelpack::escape::escape_version;
use wheelpack::escape::underscore_form;

#[test]
fn name_mixed_case_and_repeated_separators() {
    assert_eq!(escape_name("My--Cool.Pkg"), "my-cool-pkg");
}

#[test]
fn name_simple_underscore() {
    assert_eq!(escape_name("Demo_Lib"), "demo-lib");
}

#[test]
fn name_empty() {
    assert_eq!(escape_name(""), "");
}

#[test]
fn name_all_separators_collapse() {
    assert_eq!(escape_name("_-._"), "-");
}

#[test]
fn name_already_canonical() {
    assert_eq!(escape_name("my-cool-pkg"), "my-cool-pkg");
}

#[test]
fn version_dots_preserved() {
    assert_eq!(escape_version("0.1.0"), "0.1.0");
}

#[test]
fn version_separators_collapsed_lowercased() {
    assert_eq!(escape_version("1.0-ALPHA_2"), "1.0-alpha-2");
}

#[test]
fn version_underscore_run() {
    assert_eq!(escape_version("1.0__dev"), "1.0-dev");
}

#[test]
fn underscore_form_of_escaped_name() {
    assert_eq!(underscore_form("demo-lib"), "demo_lib");
    assert_eq!(underscore_form("0.1.0"), "0.1.0");
}

#[test]
fn name_escaping_idempotent() {
    let once = escape_name("My--Cool.Pkg");
    assert_eq!(escape_name(&once), once);
    let v_once = escape_version("1.0-ALPHA_2");
    assert_eq!(escape_version(&v_once), v_once);
}
