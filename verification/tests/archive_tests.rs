use wheelpack::archive::build_plan;
use wheelpack::archive::ArchivePlan;
use wheelpack::digest::digest_of;
use wheelpack::metadata::translate;
use wheelpack::metadata::RawManifest;
use wheelpack::tag::resolve_tag;
use wheelpack::tag::InterpreterDescriptor;
use wheelpack::tag::LibraryNaming;
use wheelpack::tag::TagSource;

#[test]
fn digest_of_empty_bytes() {
    assert_eq!(
        digest_of(&Vec::new()),
        "sha256=47DEQpj8HBSa-_TImW-5JCeuQeRkm5NMpJWZG3hSuFU"
    );
}

#[test]
fn digest_of_known_bytes() {
    let data = b"hello".to_vec();
    assert_eq!(digest_of(&data), "sha256=LPJNul-wow4m6DsqxbninhsWHlwfp0JecwQzYpOLmCQ");
}

fn demo_plan() -> ArchivePlan {
    let raw = RawManifest {
        name: Some(String::from("Demo_Lib")),
        version: Some(String::from("0.1.0")),
        authors: vec![],
        license: None,
        summary: None,
        classifiers: vec![],
        requires_dist: vec![],
        readme_path: None,
    };
    let meta = translate(raw).unwrap();
    let descriptor = InterpreterDescriptor {
        major: 3,
        minor: 9,
        implementation: String::from("cp"),
        abi: String::from("cp39"),
        platform: String::from("linux_x86_64"),
        naming: LibraryNaming::Unix,
    };
    let tag = resolve_tag(&TagSource::PerInterpreter(descriptor));
    build_plan(
        &tag,
        &meta,
        "demo_lib",
        Some("cp39"),
        LibraryNaming::Unix,
        b"fake shared library bytes".to_vec(),
    )
}

#[test]
fn end_to_end_demo_wheel() {
    let plan = demo_plan();
    assert_eq!(plan.wheel_name, "demo-lib-0.1.0-cp39-cp39-linux_x86_64.whl");
    let meta_file = plan
        .files
        .iter()
        .find(|f| f.path == "demo_lib-0.1.0.dist-info/METADATA")
        .expect("METADATA file present");
    let text = String::from_utf8(meta_file.data.clone()).unwrap();
    assert!(text.contains("Name: demo-lib\n"));
    assert!(text.contains("Version: 0.1.0\n"));
}

#[test]
fn plan_file_order_is_sorted() {
    let plan = demo_plan();
    let paths: Vec<&str> = plan.files.iter().map(|f| f.path.as_str()).collect();
    assert_eq!(
        paths,
        vec![
            "demo_lib-0.1.0.dist-info/METADATA",
            "demo_lib-0.1.0.dist-info/RECORD",
            "demo_lib-0.1.0.dist-info/WHEEL",
            "demo_lib.cp39.so",
        ]
    );
    let mut sorted = paths.clone();
    sorted.sort();
    assert_eq!(paths, sorted);
}

#[test]
fn build_is_reproducible() {
    let p1 = demo_plan();
    let p2 = demo_plan();
    assert_eq!(p1.wheel_name, p2.wheel_name);
    assert_eq!(p1.files.len(), p2.files.len());
    for (a, b) in p1.files.iter().zip(p2.files.iter()) {
        assert_eq!(a.path, b.path);
        assert_eq!(a.data, b.data);
    }
}

#[test]
fn record_rows_have_digests_and_sizes() {
    let plan = demo_plan();
    assert_eq!(plan.rows.len(), plan.files.len());
    for row in plan.rows.iter() {
        if row.path == "demo_lib-0.1.0.dist-info/RECORD" {
            assert!(row.digest.is_none());
            assert!(row.size.is_none());
        } else {
            let d = row.digest.as_ref().expect("digest present");
            assert!(d.starts_with("sha256="));
            assert!(d.len() > "sha256=".len());
            let file = plan
                .files
                .iter()
                .find(|f| f.path == row.path)
                .expect("row matches a file");
            assert_eq!(row.size, Some(file.data.len() as u64));
            assert_eq!(&digest_of(&file.data), d);
        }
    }
}

#[test]
fn record_file_lists_every_entry() {
    let plan = demo_plan();
    let record_file = plan
        .files
        .iter()
        .find(|f| f.path == "demo_lib-0.1.0.dist-info/RECORD")
        .expect("RECORD file present");
    let text = String::from_utf8(record_file.data.clone()).unwrap();
    let lines: Vec<&str> = text.lines().collect();
    assert_eq!(lines.len(), plan.files.len());
    assert!(lines.contains(&"demo_lib-0.1.0.dist-info/RECORD,,"));
    for line in lines.iter() {
        if !line.ends_with(",,") {
            let mut parts = line.splitn(3, ',');
            let path = parts.next().unwrap();
            let digest = parts.next().unwrap();
            let size = parts.next().unwrap();
            let file = plan.files.iter().find(|f| f.path == path).expect("listed file");
            assert_eq!(digest, digest_of(&file.data));
            assert_eq!(size, file.data.len().to_string());
        }
    }
}

#[test]
fn abi3_plan_strips_module_tag() {
    let raw = RawManifest {
        name: Some(String::from("Demo_Lib")),
        version: Some(String::from("0.1.0")),
        authors: vec![],
        license: None,
        summary: None,
        classifiers: vec![],
        requires_dist: vec![],
        readme_path: None,
    };
    let meta = translate(raw).unwrap();
    let tag = resolve_tag(&TagSource::AbiStable {
        implementation: String::from("cp"),
        min_major: 3,
        min_minor: 7,
        platform: String::from("linux_x86_64"),
    });
    let plan = build_plan(&tag, &meta, "demo_lib", None, LibraryNaming::Unix, vec![1, 2, 3]);
    assert_eq!(plan.wheel_name, "demo-lib-0.1.0-cp37-abi3-linux_x86_64.whl");
    assert!(plan.files.iter().any(|f| f.path == "demo_lib.so"));
}
