use growcli_chat::home::check_home_metadata;
use growcli_chat::home::choose_home;
use growcli_chat::home::home_env_value;
use growcli_chat::home::HomeChoice;
use growcli_chat::home::check_home_dir_found;
use growcli_chat::home::HomeError;
use growcli_chat::home::HomeErrorKind;
use growcli_chat::home::MetadataProbe;
use std::io::ErrorKind;

fn override_of(env_name: &str, path: &str) -> HomeChoice {
    HomeChoice::Override {
        env_name: env_name.to_string(),
        path: path.to_string(),
    }
}

#[test]
fn find_codex_home_env_missing_path_is_fatal() {
    let missing = "/tmp/home/missing-codex-home";
    let choice = choose_home(None, Some(missing), Some("codex"));
    assert_eq!(choice, override_of("CODEX_HOME", missing));
    let err = check_home_metadata("CODEX_HOME", missing, MetadataProbe::NotFound)
        .expect_err("missing CODEX_HOME");
    assert!(matches!(err, HomeError::Missing { .. }));
    assert_eq!(err.kind(), HomeErrorKind::NotFound);
    let message = err.message();
    assert!(message.contains("CODEX_HOME"), "unexpected error: {message}");
    assert_eq!(
        message,
        "CODEX_HOME points to \"/tmp/home/missing-codex-home\", but that path does not exist"
    );
}

#[test]
fn find_codex_home_env_file_path_is_fatal() {
    let file = "/tmp/home/codex-home.txt";
    let err = check_home_metadata("CODEX_HOME", file, MetadataProbe::Found { is_dir: false })
        .expect_err("file CODEX_HOME");
    assert!(matches!(err, HomeError::NotADirectory { .. }));
    assert_eq!(err.kind(), HomeErrorKind::InvalidInput);
    let message = err.message();
    assert!(message.contains("not a directory"), "unexpected error: {message}");
}

#[test]
fn find_codex_home_env_valid_directory_canonicalizes() {
    let dir = "/tmp/home";
    assert_eq!(choose_home(None, Some(dir), Some("codex")), override_of("CODEX_HOME", dir));
    assert!(check_home_metadata("CODEX_HOME", dir, MetadataProbe::Found { is_dir: true }).is_ok());
}

#[test]
fn find_codex_home_without_env_uses_default_home_dir() {
    assert_eq!(
        choose_home(None, None, Some("codex")),
        HomeChoice::Default {
            dir_name: ".codex".to_string()
        }
    );
}

#[test]
fn find_codex_home_without_env_uses_growcli_default_for_growcli_binary() {
    assert_eq!(
        choose_home(None, None, Some("growcli")),
        HomeChoice::Default {
            dir_name: ".growcli".to_string()
        }
    );
}

#[test]
fn find_codex_home_prefers_growcli_home_for_growcli_binary() {
    assert_eq!(
        choose_home(Some("/g"), Some("/c"), Some("growcli")),
        override_of("GROWCLI_HOME", "/g")
    );
}

#[test]
fn find_codex_home_uses_codex_home_fallback_for_growcli_binary() {
    assert_eq!(
        choose_home(None, Some("/c"), Some("growcli")),
        override_of("CODEX_HOME", "/c")
    );
}

#[test]
fn codex_binary_ignores_growcli_home() {
    assert_eq!(
        choose_home(Some("/g"), Some("/c"), Some("codex")),
        override_of("CODEX_HOME", "/c")
    );
    assert_eq!(
        choose_home(Some("/g"), None, None),
        HomeChoice::Default {
            dir_name: ".codex".to_string()
        }
    );
    assert_eq!(
        choose_home(Some("/g"), None, Some("growcli-dev")),
        HomeChoice::Default {
            dir_name: ".codex".to_string()
        }
    );
}

#[test]
fn empty_environment_values_count_as_unset() {
    assert_eq!(home_env_value(Some(String::new())), None);
    assert_eq!(home_env_value(None), None);
    assert_eq!(home_env_value(Some("/x".to_string())), Some("/x".to_string()));
}

#[test]
fn read_failures_keep_their_kind_and_detail() {
    let err = check_home_metadata(
        "GROWCLI_HOME",
        "/root/x",
        MetadataProbe::Failed {
            kind: ErrorKind::PermissionDenied,
            detail: "Permission denied".to_string(),
        },
    )
    .expect_err("unreadable");
    match &err {
        HomeError::Unreadable { kind, .. } => assert_eq!(*kind, ErrorKind::PermissionDenied),
        other => panic!("unexpected error: {other:?}"),
    }
    assert_eq!(err.kind(), HomeErrorKind::Passed(ErrorKind::PermissionDenied));
    assert_eq!(
        err.message(),
        "failed to read GROWCLI_HOME \"/root/x\": Permission denied"
    );
}

#[test]
fn other_error_messages() {
    let err = HomeError::CanonicalizeFailed {
        env_name: "CODEX_HOME".to_string(),
        path: "a\"b".to_string(),
        kind: ErrorKind::Other,
        detail: "boom".to_string(),
    };
    assert_eq!(err.message(), "failed to canonicalize CODEX_HOME \"a\\\"b\": boom");
    assert_eq!(HomeError::NoHomeDirectory.message(), "Could not find home directory");
}

#[test]
fn invalid_growcli_home_is_fatal_without_fallback() {
    let choice = choose_home(Some("/nowhere/growcli"), Some("/tmp"), Some("growcli"));
    assert_eq!(choice, override_of("GROWCLI_HOME", "/nowhere/growcli"));
    let err = check_home_metadata("GROWCLI_HOME", "/nowhere/growcli", MetadataProbe::NotFound)
        .expect_err("missing GROWCLI_HOME");
    assert_eq!(err.kind(), HomeErrorKind::NotFound);
    assert!(err.message().contains("GROWCLI_HOME"));
}

#[test]
fn default_directory_needs_only_a_home_directory() {
    assert!(check_home_dir_found(true).is_ok());
    let err = check_home_dir_found(false).expect_err("no home");
    assert!(matches!(err, HomeError::NoHomeDirectory));
    assert_eq!(err.kind(), HomeErrorKind::NotFound);
    let canon = HomeError::CanonicalizeFailed {
        env_name: "CODEX_HOME".to_string(),
        path: "/x".to_string(),
        kind: ErrorKind::Interrupted,
        detail: String::new(),
    };
    assert_eq!(canon.kind(), HomeErrorKind::Passed(ErrorKind::Interrupted));
}
