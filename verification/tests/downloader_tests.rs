use pypack::downloader::{
    archive_format, find_asset, is_acceptable_asset_name, pip_download_args, pip_platform,
    python_major_minor, release_api_url, release_cache_file_name, release_from_cache,
    release_from_response, release_request_error,
    ArchiveFormat, RELEASE_TAG,
};
use pypack::json::JsonValue;
use pypack::platform::Target;

fn asset(name: &str) -> JsonValue {
    JsonValue::Object(vec![
        ("name".to_string(), JsonValue::Str(name.to_string())),
        (
            "browser_download_url".to_string(),
            JsonValue::Str(format!("https://example.invalid/{}", name)),
        ),
    ])
}

fn release(assets: Vec<JsonValue>) -> JsonValue {
    JsonValue::Object(vec![
        ("tag_name".to_string(), JsonValue::Str(RELEASE_TAG.to_string())),
        ("assets".to_string(), JsonValue::Array(assets)),
    ])
}

fn sample_release() -> JsonValue {
    release(vec![
        asset("cpython-3.11.7+20240107-x86_64-unknown-linux-gnu-pgo+lto-full.tar.zst"),
        asset("cpython-3.11.7+20240107-x86_64-unknown-linux-gnu-install_only.tar.gz"),
        asset("cpython-3.11.7+20240107-x86_64-pc-windows-msvc-shared-install_only.tar.gz"),
        asset("cpython-3.11.7+20240107-aarch64-apple-darwin-install_only.tar.gz"),
        asset("cpython-3.12.1+20240107-x86_64-unknown-linux-gnu-install_only.tar.gz"),
    ])
}

#[test]
fn finds_linux_asset() {
    let (url, name) =
        find_asset(&sample_release(), &Target::linux_x86_64(), "3.11.7", "20240107").unwrap();
    assert_eq!(name, "cpython-3.11.7+20240107-x86_64-unknown-linux-gnu-install_only.tar.gz");
    assert_eq!(url, format!("https://example.invalid/{}", name));
}

#[test]
fn finds_shared_windows_asset() {
    let (_, name) =
        find_asset(&sample_release(), &Target::windows_x86_64(), "3.11.7", "20240107").unwrap();
    assert_eq!(name, "cpython-3.11.7+20240107-x86_64-pc-windows-msvc-shared-install_only.tar.gz");
}

#[test]
fn lists_other_builds_when_target_missing() {
    let err =
        find_asset(&sample_release(), &Target::linux_aarch64(), "3.11.7", "20240107").unwrap_err();
    assert_eq!(
        err,
        "Couldn't find any asset for linux-aarch64 target. Available assets on this Python version:\n  \
         cpython-3.11.7+20240107-aarch64-apple-darwin-install_only.tar.gz\n  \
         cpython-3.11.7+20240107-x86_64-pc-windows-msvc-shared-install_only.tar.gz\n  \
         cpython-3.11.7+20240107-x86_64-unknown-linux-gnu-install_only.tar.gz"
    );
}

#[test]
fn says_version_missing() {
    let err =
        find_asset(&sample_release(), &Target::linux_x86_64(), "3.10.1", "20240107").unwrap_err();
    assert_eq!(
        err,
        "Python 3.10.1 does not exist on this release (tag: 20240107).\nFor version list: \
         https://github.com/indygreg/python-build-standalone/releases/tag/20240107"
    );
}

#[test]
fn malformed_releases() {
    let no_list = JsonValue::Object(vec![("assets".to_string(), JsonValue::Null)]);
    assert_eq!(
        find_asset(&no_list, &Target::linux_x86_64(), "3.11.7", "20240107"),
        Err("Couldn't read release asset list".to_string())
    );
    assert_eq!(
        find_asset(&JsonValue::Null, &Target::linux_x86_64(), "3.11.7", "20240107"),
        Err("Couldn't read release asset list".to_string())
    );
    let no_url = release(vec![JsonValue::Object(vec![(
        "name".to_string(),
        JsonValue::Str("cpython-3.11.7+20240107-x86_64-unknown-linux-gnu-install_only.tar.gz".to_string()),
    )])]);
    assert_eq!(
        find_asset(&no_url, &Target::linux_x86_64(), "3.11.7", "20240107"),
        Err("Couldn't read asset download URL".to_string())
    );
}

#[test]
fn asset_name_variants() {
    let p = "cpython-3.11.7+20240107-x86_64-unknown-linux-gnu-";
    assert!(is_acceptable_asset_name(&format!("{}install_only.tar.gz", p), p));
    assert!(is_acceptable_asset_name(&format!("{}install_only.zip", p), p));
    assert!(is_acceptable_asset_name(&format!("{}shared-install_only.tar.gz", p), p));
    assert!(is_acceptable_asset_name(&format!("{}SHARED-install_only.tar.gz", p), p));
    assert!(!is_acceptable_asset_name(&format!("{}Shared-install_only.tar.gz", p), p));
    assert!(is_acceptable_asset_name(&format!("{}--install_only.tar.gz", p), p));
    assert!(!is_acceptable_asset_name(&format!("{}debug-install_only.tar.gz", p), p));
    assert!(!is_acceptable_asset_name(&format!("{}install_only_stripped.tar.gz", p), p));
    assert!(!is_acceptable_asset_name("cpython-3.11.7+20240107-x86_64-unknown-linux-gnu", p));
}

#[test]
fn pip_arguments() {
    let packages = vec!["numpy".to_string(), "requests".to_string()];
    let args = pip_download_args(Some("/tmp/pkgs"), &Target::macos_aarch64(), "3.11.7", &packages)
        .unwrap();
    assert_eq!(
        args,
        vec![
            "-m", "pip", "download", "--dest", "/tmp/pkgs", "--platform", "macosx_11_0_arm64",
            "--only-binary=:all:", "--python-version", "3.11", "numpy", "requests",
        ]
    );
    let args = pip_download_args(None, &Target::linux_x86_64(), "3", &packages).unwrap();
    assert_eq!(args[4], ".");
    assert_eq!(args[9], "3");
    assert_eq!(pip_download_args(Some("/tmp"), &Target::linux_x86_64(), "3.11.7", &vec![]), None);
}

#[test]
fn platform_tags() {
    assert_eq!(pip_platform(&Target::linux_x86_64()), "manylinux2014_x86_64");
    assert_eq!(pip_platform(&Target::linux_aarch64()), "manylinux2014_aarch64");
    assert_eq!(pip_platform(&Target::macos_x86_64()), "macosx_10_9_x86_64");
    assert_eq!(pip_platform(&Target::windows_x86_64()), "win_amd64");
}

#[test]
fn major_minor_versions() {
    assert_eq!(python_major_minor("3.11.7"), "3.11");
    assert_eq!(python_major_minor("3.11"), "3.11");
    assert_eq!(python_major_minor("3"), "3");
    assert_eq!(python_major_minor(""), "");
    assert_eq!(python_major_minor("3..7"), "3.");
    let expected: Vec<&str> = "3.12.0rc1".split('.').take(2).collect();
    assert_eq!(python_major_minor("3.12.0rc1"), expected.join("."));
}

#[test]
fn archive_formats() {
    assert_eq!(archive_format("zip"), Ok(ArchiveFormat::Zip));
    assert_eq!(archive_format("gz"), Ok(ArchiveFormat::TarGz));
    assert_eq!(archive_format("zst"), Err("Unsupported archive format: zst".to_string()));
    assert_eq!(archive_format(""), Err("Unsupported archive format: ".to_string()));
}

#[test]
fn release_requests() {
    assert_eq!(
        release_api_url(RELEASE_TAG),
        "https://api.github.com/repos/indygreg/python-build-standalone/releases/tags/20240107"
    );
    assert_eq!(release_cache_file_name("20240107"), "20240107.json");
    assert_eq!(
        release_request_error("403 Forbidden", "20240107"),
        "GitHub API error: HTTP 403 Forbidden — tag: 20240107\n(API rate limit might be exceeded; clean ~/.cache/pypack/releases/ and retry few minutes later.)"
    );
}

#[test]
fn selected_asset_is_for_the_target() {
    for t in [Target::linux_x86_64(), Target::windows_x86_64(), Target::macos_aarch64()] {
        let (_, name) = find_asset(&sample_release(), &t, "3.11.7", "20240107").unwrap();
        assert!(name.starts_with(&format!("cpython-3.11.7+20240107-{}-", t.triplet())));
        assert!(name.ends_with("install_only.tar.gz") || name.ends_with("install_only.zip"));
    }
}

#[test]
fn finds_upper_case_shared_windows_asset() {
    let name = "cpython-3.11.7+20240107-x86_64-pc-windows-msvc-SHARED-install_only.tar.gz";
    let mut a = asset(name);
    if let JsonValue::Object(members) = &mut a {
        for m in members.iter_mut() {
            if m.0 == "browser_download_url" {
                m.1 = JsonValue::Str("https://e/s".to_string());
            }
        }
    }
    let r = find_asset(&release(vec![a]), &Target::windows_x86_64(), "3.11.7", "20240107");
    assert_eq!(r, Ok(("https://e/s".to_string(), name.to_string())));
}

#[test]
fn release_metadata_from_text() {
    let body = "{\"tag_name\": \"20240107\", \"assets\": [{\"name\": \"cpython-3.11.7+20240107-x86_64-unknown-linux-gnu-install_only.tar.gz\", \"browser_download_url\": \"https://e/l\", \"size\": 42}]}";
    let release = release_from_response(Some(body)).unwrap();
    let (url, name) =
        find_asset(&release, &Target::linux_x86_64(), "3.11.7", "20240107").unwrap();
    assert_eq!(url, "https://e/l");
    assert_eq!(name, "cpython-3.11.7+20240107-x86_64-unknown-linux-gnu-install_only.tar.gz");
    assert_eq!(
        release_from_response(Some("<html>rate limited</html>")).err(),
        Some("GitHub API response couldn't be parsed: error decoding response body".to_string())
    );
    assert_eq!(
        release_from_response(None).err(),
        Some("GitHub API response couldn't be parsed: error decoding response body".to_string())
    );
    assert!(release_from_cache(Some(body)).is_some());
    assert!(release_from_cache(Some("{truncated")).is_none());
    assert!(release_from_cache(None).is_none());
}
