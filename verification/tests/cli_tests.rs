use pypack::cli::{application_name, resolve_targets};
use pypack::platform::{all_targets, Target};

#[test]
fn targets_from_names() {
    let names = vec!["linux-x86_64".to_string(), "darwin-arm64".to_string()];
    assert_eq!(
        resolve_targets(false, &names),
        Ok(vec![Target::linux_x86_64(), Target::macos_aarch64()])
    );
    assert_eq!(resolve_targets(true, &names), Ok(all_targets()));
}

#[test]
fn first_bad_target_name_is_reported() {
    let names = vec!["linux-x86_64".to_string(), "bsd-x64".to_string(), "x".to_string()];
    assert_eq!(
        resolve_targets(false, &names),
        Err("Unknown OS: 'bsd'. Use linux, macos, or windows".to_string())
    );
}

#[test]
fn no_target_named() {
    assert_eq!(
        resolve_targets(false, &vec![]),
        Err("No valid target platform given.".to_string())
    );
}

#[test]
fn application_names() {
    assert_eq!(application_name(Some("Given".to_string()), Some("script")), "Given");
    assert_eq!(application_name(None, Some("script")), "script");
    assert_eq!(application_name(None, None), "app");
}
