use solidity_ast::error::DerivationError;
use solidity_ast::output::{ast_payload, decode_output};
use solidity_ast::solc::Solc;
use solidity_ast::version::Version;

#[test]
fn release_has_three_numbers() {
    let v = Version::new(0, 8, 15);
    assert_eq!(v.major(), 0);
    assert_eq!(v.minor(), 8);
    assert_eq!(v.patch(), 15);
    assert_eq!(v.pre(), "");
    assert_eq!(v.build(), "");
}

#[test]
fn identifiers_are_kept() {
    let v = Version::with_identifiers(1, 2, 3, "alpha.1", "build.5").unwrap();
    assert_eq!(v.major(), 1);
    assert_eq!(v.minor(), 2);
    assert_eq!(v.patch(), 3);
    assert_eq!(v.pre(), "alpha.1");
    assert_eq!(v.build(), "build.5");
    assert_eq!(Version::with_identifiers(1, 2, 3, "", ""), Some(Version::new(1, 2, 3)));
}

#[test]
fn refused_identifiers_give_no_version() {
    assert_eq!(Version::with_identifiers(1, 2, 3, "01", ""), None);
    assert_eq!(Version::with_identifiers(1, 2, 3, "a..b", ""), None);
    assert_eq!(Version::with_identifiers(1, 2, 3, "a b", ""), None);
    assert_eq!(Version::with_identifiers(1, 2, 3, "", "x+y"), None);
    assert_eq!(Version::with_identifiers(1, 2, 3, "", "."), None);
    assert!(Version::with_identifiers(1, 2, 3, "", "01").is_some());
    assert!(Version::with_identifiers(1, 2, 3, "0", "").is_some());
}

#[test]
fn same_compares_every_part() {
    let v = Version::new(0, 8, 15);
    assert!(v.same(&Version::new(0, 8, 15)));
    assert!(!v.same(&Version::new(0, 8, 16)));
    assert!(!v.same(&Version::new(0, 9, 15)));
    assert!(!v.same(&Version::new(1, 8, 15)));
    assert!(!v.same(&Version::with_identifiers(0, 8, 15, "rc", "").unwrap()));
    assert!(!v.same(&Version::with_identifiers(0, 8, 15, "", "b").unwrap()));
    assert!(v.same(&v.duplicate()));
    assert_eq!(v.clone(), v);
}

#[test]
fn at_least_orders_by_major_minor_patch() {
    let v = Version::new(0, 8, 8);
    assert!(v.at_least(0, 8, 8));
    assert!(v.at_least(0, 8, 7));
    assert!(v.at_least(0, 7, 99));
    assert!(v.at_least(0, 0, 0));
    assert!(!v.at_least(0, 8, 9));
    assert!(!v.at_least(0, 9, 0));
    assert!(!v.at_least(1, 0, 0));
    assert!(Version::new(1, 0, 0).at_least(0, 99, 99));
}

#[test]
fn at_least_refuses_pre_releases() {
    let pre = Version::with_identifiers(0, 8, 8, "rc.1", "").unwrap();
    assert!(!pre.at_least(0, 8, 8));
    assert!(!pre.at_least(0, 6, 9));
    assert!(!Version::with_identifiers(2, 0, 0, "alpha", "").unwrap().at_least(0, 6, 9));
    assert!(Version::with_identifiers(0, 8, 8, "", "commit.1").unwrap().at_least(0, 8, 8));
}

#[test]
fn support_of_path_flags() {
    let at = |major, minor, patch| Solc::new("solc".to_string(), Version::new(major, minor, patch));
    assert!(!at(0, 6, 8).supports_base_path());
    assert!(at(0, 6, 9).supports_base_path());
    assert!(at(0, 8, 0).supports_base_path());
    assert!(!at(0, 6, 9).supports_include_path());
    assert!(!at(0, 8, 7).supports_include_path());
    assert!(at(0, 8, 8).supports_include_path());
    assert!(at(0, 8, 30).supports_include_path());
}

#[test]
fn output_that_is_utf8_is_decoded() {
    assert_eq!(decode_output(b"{\"sources\":{}}".to_vec()), Ok("{\"sources\":{}}".to_string()));
    assert_eq!(decode_output("é€😀".as_bytes().to_vec()), Ok("é€😀".to_string()));
    assert_eq!(decode_output(vec![]), Ok(String::new()));
}

#[test]
fn output_that_is_not_utf8_is_malformed() {
    assert!(matches!(decode_output(vec![b'{', 0xff, b'}']), Err(DerivationError::MalformedOutput(_))));
    assert!(matches!(decode_output(vec![0xc3]), Err(DerivationError::MalformedOutput(_))));
    assert!(matches!(decode_output(vec![0xed, 0xa0, 0x80]), Err(DerivationError::MalformedOutput(_))));
}

#[test]
fn failures_have_their_text() {
    assert_eq!(DerivationError::NonExistentRoot.message(), "Non existent root");
    assert_eq!(DerivationError::ConfigLoad("a".to_string()).message(), "a");
    assert_eq!(DerivationError::GraphResolution("b".to_string()).message(), "b");
    assert_eq!(DerivationError::CompilerInstall("c".to_string()).message(), "c");
    assert_eq!(DerivationError::CompilerInvocation("d".to_string()).message(), "d");
    assert_eq!(DerivationError::MalformedOutput("e".to_string()).message(), "e");
    assert_eq!(DerivationError::Io("f".to_string()).message(), "f");
    assert_eq!(DerivationError::OutsideRoot("/g".to_string()).message(), "/g");
}

#[test]
fn null_gives_no_syntax_tree() {
    assert_eq!(ast_payload(true, "null".to_string()), None);
    assert_eq!(ast_payload(false, "{\"nodeType\":\"SourceUnit\"}".to_string()), Some("{\"nodeType\":\"SourceUnit\"}".to_string()));
    assert_eq!(ast_payload(false, "\"\"".to_string()), Some("\"\"".to_string()));
    assert_eq!(ast_payload(false, String::new()), Some(String::new()));
}
