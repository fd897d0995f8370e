use wheelpack::tag::artifact_filename;
use wheelpack::tag::resolve_tag;
use wheelpack::tag::wheel_filename;
use wheelpack::tag::InterpreterDescriptor;
use wheelpack::tag::LibraryNaming;
use wheelpack::tag::TagSource;

fn cp39_descriptor() -> InterpreterDescriptor {
    InterpreterDescriptor {
        major: 3,
        minor: 9,
        implementation: String::from("cp"),
        abi: String::from("cp39"),
        platform: String::from("linux_x86_64"),
        naming: LibraryNaming::Unix,
    }
}

#[test]
fn per_interpreter_tag() {
    let t = TagSource::PerInterpreter(cp39_descriptor());
    assert_eq!(resolve_tag(&t), "cp39-cp39-linux_x86_64");
}

#[test]
fn resolve_tag_deterministic() {
    let t = TagSource::PerInterpreter(cp39_descriptor());
    let a = resolve_tag(&t);
    let b = resolve_tag(&t);
    assert_eq!(a, b);
}

#[test]
fn abi_stable_tag_minimum_3_7() {
    let t = TagSource::AbiStable {
        implementation: String::from("cp"),
        min_major: 3,
        min_minor: 7,
        platform: String::from("linux_x86_64"),
    };
    assert_eq!(resolve_tag(&t), "cp37-abi3-linux_x86_64");
}

#[test]
fn two_digit_minor_version() {
    let t = TagSource::PerInterpreter(InterpreterDescriptor {
        major: 3,
        minor: 10,
        implementation: String::from("cp"),
        abi: String::from("cp310"),
        platform: String::from("manylinux1_x86_64"),
        naming: LibraryNaming::Unix,
    });
    assert_eq!(resolve_tag(&t), "cp310-cp310-manylinux1_x86_64");
}

#[test]
fn wheel_filename_grammar() {
    assert_eq!(
        wheel_filename("demo-lib", "0.1.0", "cp39-cp39-linux_x86_64"),
        "demo-lib-0.1.0-cp39-cp39-linux_x86_64.whl"
    );
}

#[test]
fn artifact_filename_unix_tagged() {
    assert_eq!(
        artifact_filename("demo_lib", Some("cp39"), LibraryNaming::Unix),
        "demo_lib.cp39.so"
    );
}

#[test]
fn artifact_filename_unix_stripped() {
    assert_eq!(artifact_filename("demo_lib", None, LibraryNaming::Unix), "demo_lib.so");
}

#[test]
fn artifact_filename_windows() {
    assert_eq!(artifact_filename("demo_lib", Some("cp39"), LibraryNaming::Windows), "demo_lib.pyd");
}
