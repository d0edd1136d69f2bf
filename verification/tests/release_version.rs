use pmtile_tool::release_version::resolve_release_version;

#[test]
fn injected_release_is_used_without_changing_package_metadata() {
    assert_eq!(
        resolve_release_version(Some("1.4.6"), "1.4.5"),
        Ok("1.4.6".into())
    );
}

#[test]
fn development_preserves_cargo_package_version() {
    for package in ["1.4.5", "1.4.6-dev"] {
        assert_eq!(resolve_release_version(None, package), Ok(package.into()));
    }
}

#[test]
fn invalid_injection_cannot_fall_back_or_inject_build_output() {
    for value in [
        "",
        "v1.4.6",
        "1.4",
        "01.4.6",
        "1.4.6-rc1",
        "1.4.6\n",
        "1.4.6;echo bad",
    ] {
        assert!(resolve_release_version(Some(value), "1.4.5").is_err());
    }
}

#[test]
fn release_version_error_message_is_fixed() {
    assert_eq!(
        resolve_release_version(Some("1..2"), "1.4.5"),
        Err("Release version must be a stable major.minor.patch version")
    );
}

#[test]
fn release_version_accepts_zero_and_u64_max_components() {
    assert_eq!(
        resolve_release_version(Some("0.0.18446744073709551615"), "x"),
        Ok("0.0.18446744073709551615".to_string())
    );
    assert!(resolve_release_version(Some("0.0.18446744073709551616"), "x").is_err());
    assert!(resolve_release_version(Some("1.2.3.4"), "x").is_err());
    assert!(resolve_release_version(Some("1.2."), "x").is_err());
    assert!(resolve_release_version(Some("1.٣.2"), "x").is_err());
}
