use wheelpack::metadata::translate;
use wheelpack::metadata::render_metadata;
use wheelpack::metadata::render_wheel_marker;
use wheelpack::metadata::ManifestParseError;
use wheelpack::metadata::RawManifest;

fn raw(name: Option<&str>, version: Option<&str>) -> RawManifest {
    RawManifest {
        name: name.map(String::from),
        version: version.map(String::from),
        authors: vec![],
        license: None,
        summary: None,
        classifiers: vec![],
        requires_dist: vec![],
        readme_path: None,
    }
}

#[test]
fn translate_escapes_name_and_version() {
    let m = translate(raw(Some("Demo_Lib"), Some("0.1.0"))).unwrap();
    assert_eq!(m.name, "demo-lib");
    assert_eq!(m.version, "0.1.0");
}

#[test]
fn translate_missing_name() {
    let e = translate(raw(None, Some("0.1.0"))).unwrap_err();
    assert!(matches!(e, ManifestParseError::MissingName));
    assert!(e.message().contains("name"));
}

#[test]
fn translate_empty_name() {
    let e = translate(raw(Some(""), Some("0.1.0"))).unwrap_err();
    assert!(matches!(e, ManifestParseError::MissingName));
}

#[test]
fn translate_missing_version() {
    let e = translate(raw(Some("demo"), None)).unwrap_err();
    assert!(matches!(e, ManifestParseError::MissingVersion));
    assert!(e.message().contains("version"));
}

#[test]
fn translate_keeps_field_order() {
    let m = translate(RawManifest {
        name: Some(String::from("demo")),
        version: Some(String::from("1.0")),
        authors: vec![String::from("A One"), String::from("B Two")],
        license: Some(String::from("MIT")),
        summary: Some(String::from("a demo")),
        classifiers: vec![String::from("X :: Y"), String::from("W :: Z")],
        requires_dist: vec![String::from("serde >=1"), String::from("rand")],
        readme_path: None,
    })
    .unwrap();
    assert_eq!(m.authors, vec![String::from("A One"), String::from("B Two")]);
    assert_eq!(m.classifiers, vec![String::from("X :: Y"), String::from("W :: Z")]);
    assert_eq!(m.requires_dist, vec![String::from("serde >=1"), String::from("rand")]);
}

#[test]
fn metadata_file_layout() {
    let m = translate(RawManifest {
        name: Some(String::from("Demo_Lib")),
        version: Some(String::from("0.1.0")),
        authors: vec![String::from("A One")],
        license: Some(String::from("MIT")),
        summary: Some(String::from("a demo")),
        classifiers: vec![String::from("X :: Y"), String::from("W :: Z")],
        requires_dist: vec![String::from("other-lib >=1")],
        readme_path: Some(String::from("README.md")),
    })
    .unwrap();
    let text = render_metadata(&m);
    assert_eq!(
        text,
        "Metadata-Version: 2.1\n\
         Name: demo-lib\n\
         Version: 0.1.0\n\
         Author: A One\n\
         License: MIT\n\
         Summary: a demo\n\
         Classifier: X :: Y\n\
         Classifier: W :: Z\n\
         Requires-Dist: other-lib >=1\n"
    );
}

#[test]
fn metadata_file_minimal() {
    let m = translate(raw(Some("Demo_Lib"), Some("0.1.0"))).unwrap();
    let text = render_metadata(&m);
    assert_eq!(text, "Metadata-Version: 2.1\nName: demo-lib\nVersion: 0.1.0\n");
}

#[test]
fn wheel_marker_layout() {
    let tags = vec![String::from("cp39-cp39-linux_x86_64")];
    assert_eq!(
        render_wheel_marker(&tags),
        "Wheel-Version: 1.0\n\
         Generator: wheelpack\n\
         Root-Is-Purelib: false\n\
         Tag: cp39-cp39-linux_x86_64\n"
    );
}

#[test]
fn wheel_marker_multiple_tags() {
    let tags = vec![String::from("cp38-cp38-linux_x86_64"), String::from("cp39-cp39-linux_x86_64")];
    let text = render_wheel_marker(&tags);
    assert!(text.ends_with("Tag: cp38-cp38-linux_x86_64\nTag: cp39-cp39-linux_x86_64\n"));
}
