use wheelpack::discovery::check_candidates;
use wheelpack::discovery::DiscoveryError;

#[test]
fn expect_one_with_none_found_fails() {
    let candidates: Vec<String> = vec![];
    let e = check_candidates(&candidates, true).unwrap_err();
    assert!(matches!(e, DiscoveryError::NoInterpreters));
    let msg = e.message();
    assert_eq!(msg, "no compatible python interpreters found");
    assert!(msg.contains("no "));
    assert!(msg.contains("found"));
}

#[test]
fn expect_one_with_two_found_lists_both() {
    let candidates = vec![
        String::from("cp38-cp38-linux_x86_64"),
        String::from("cp39-cp39-linux_x86_64"),
    ];
    let e = check_candidates(&candidates, true).unwrap_err();
    match &e {
        DiscoveryError::Ambiguous { candidates: c } => {
            assert_eq!(c, &candidates);
        }
        _ => panic!("expected the ambiguous-candidates error"),
    }
    let msg = e.message();
    assert!(msg.contains("cp38-cp38-linux_x86_64"));
    assert!(msg.contains("cp39-cp39-linux_x86_64"));
}

#[test]
fn expect_one_with_exactly_one_passes() {
    let candidates = vec![String::from("cp39-cp39-linux_x86_64")];
    assert!(check_candidates(&candidates, true).is_ok());
}

#[test]
fn no_requirement_always_passes() {
    let none: Vec<String> = vec![];
    assert!(check_candidates(&none, false).is_ok());
    let two = vec![String::from("a"), String::from("b")];
    assert!(check_candidates(&two, false).is_ok());
}
