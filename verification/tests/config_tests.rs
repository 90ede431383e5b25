use mu::config::{Config, ParseConfigError};

#[test]
fn policy_parses_all_declaration_kinds() {
    let text = "# sampler policy\n\
                ignore-user: root\n\
                ignore-proc: kworker\n\
                rename-proc: cc1plus -> gcc\n\
                \n\
                ignore-user: sshuser\n";
    let cfg = Config::from_str(text).unwrap();
    assert!(cfg.is_ignored_user("root"));
    assert!(cfg.is_ignored_user("sshuser"));
    assert!(!cfg.is_ignored_user("ann"));
    assert!(cfg.is_ignored_process("kworker"));
    assert!(!cfg.is_ignored_process("vim"));
    assert_eq!(cfg.get_canonical_name("cc1plus"), Some(String::from("gcc")));
    assert_eq!(cfg.get_canonical_name("vim"), None);
}

#[test]
fn policy_rename_last_entry_wins() {
    let text = "rename-proc: a -> b\nrename-proc: a -> c\n";
    let cfg = Config::from_str(text).unwrap();
    assert_eq!(cfg.get_canonical_name("a"), Some(String::from("c")));
}

#[test]
fn policy_default_is_empty() {
    let cfg = Config::default();
    assert!(!cfg.is_ignored_user("root"));
    assert!(!cfg.is_ignored_process("sshd"));
    assert_eq!(cfg.get_canonical_name("x"), None);
}

#[test]
fn policy_missing_colon_is_an_error() {
    let err = Config::from_str("ignore-user root\n").unwrap_err();
    assert!(matches!(err, ParseConfigError::ExpectedColon(1)));
}

#[test]
fn policy_empty_rest_is_an_error() {
    let err = Config::from_str("ok-line-skipped:#\nignore-user:   \n");
    // the first line has a non-empty rest ("#"), but an unknown keyword
    assert!(matches!(err.unwrap_err(), ParseConfigError::UnknownKeyword(1, _)));
    let err = Config::from_str("ignore-user:   \n").unwrap_err();
    assert!(matches!(err, ParseConfigError::EmptyRest(1)));
}

#[test]
fn policy_dangling_arrow_is_an_error() {
    let err = Config::from_str("rename-proc: -> b\n").unwrap_err();
    assert!(matches!(err, ParseConfigError::EmptyRest(1)));
    let err = Config::from_str("rename-proc: a ->\n").unwrap_err();
    assert!(matches!(err, ParseConfigError::EmptyRest(1)));
}

#[test]
fn policy_missing_arrow_is_an_error() {
    let err = Config::from_str("rename-proc: a b\n").unwrap_err();
    assert!(matches!(err, ParseConfigError::ExpectedRenameArrow(1)));
}

#[test]
fn policy_unknown_keyword_is_an_error() {
    let err = Config::from_str("\n\nbogus: x\n").unwrap_err();
    assert!(matches!(err, ParseConfigError::UnknownKeyword(3, ref kw) if kw == "bogus"));
}

#[test]
fn policy_error_messages() {
    assert_eq!(
        ParseConfigError::ExpectedColon(7).message(),
        "expected colon after keyword on line 7"
    );
    assert_eq!(
        ParseConfigError::UnknownKeyword(2, String::from("boo")).message(),
        "encountered unknown keyword \"boo\" on line 2"
    );
    assert_eq!(
        ParseConfigError::ExpectedRenameArrow(3).message(),
        "expected rename-arrow (->) on line 3"
    );
    assert_eq!(
        ParseConfigError::EmptyRest(10).message(),
        "expected additional information on line 10"
    );
}

#[test]
fn policy_accepts_crlf_line_endings() {
    let cfg = Config::from_str("ignore-user: root\r\nignore-proc: kworker\r\n").unwrap();
    assert!(cfg.is_ignored_user("root"));
    assert!(cfg.is_ignored_process("kworker"));
}
