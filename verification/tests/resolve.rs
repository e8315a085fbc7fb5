use recent_downloads::resolve::{find_downloads_dir, join_path, EnvVarValue, ResolveError};

#[test]
fn join_inserts_separator() {
    assert_eq!(join_path("/home/u", "Downloads"), "/home/u/Downloads");
    assert_eq!(join_path("/home/u", "dl"), "/home/u/dl");
}

#[test]
fn join_keeps_existing_separator() {
    assert_eq!(join_path("/", "dl"), "/dl");
    assert_eq!(join_path("/home/u/", "Downloads"), "/home/u/Downloads");
}

#[test]
fn join_empty_base_is_child() {
    assert_eq!(join_path("", "Downloads"), "Downloads");
}

#[test]
fn env_override_used_verbatim() {
    let r = find_downloads_dir(
        "/home/u",
        true,
        EnvVarValue::Present(String::from("/custom/path")),
    );
    assert_eq!(r.unwrap(), "/custom/path");
}

#[test]
fn env_override_ignores_existence() {
    let r = find_downloads_dir(
        "/home/u",
        false,
        EnvVarValue::Present(String::from("/custom/path")),
    );
    assert_eq!(r.unwrap(), "/custom/path");
}

#[test]
fn fallback_downloads_when_it_exists() {
    let r = find_downloads_dir("/home/u", true, EnvVarValue::NotPresent);
    assert_eq!(r.unwrap(), "/home/u/Downloads");
}

#[test]
fn fallback_dl_when_downloads_missing() {
    // Resolution never probes `home/dl` itself: even when neither fallback
    // exists it still returns `home/dl`, and enumeration fails later instead.
    let r = find_downloads_dir("/home/u", false, EnvVarValue::NotPresent);
    assert_eq!(r.unwrap(), "/home/u/dl");
}

#[test]
fn undecodable_env_value_is_an_error() {
    let r = find_downloads_dir("/home/u", true, EnvVarValue::NotUnicode);
    assert_eq!(r, Err(ResolveError::EnvNotUnicode));
}
