use pypack::platform::{all_targets, default_targets, Architecture, OperatingSystem, Target};

#[test]
fn parse_accepts_canonical_names() {
    assert_eq!(Target::parse("linux-x86_64"), Ok(Target::linux_x86_64()));
    assert_eq!(Target::parse("linux-aarch64"), Ok(Target::linux_aarch64()));
    assert_eq!(Target::parse("macos-x86_64"), Ok(Target::macos_x86_64()));
    assert_eq!(Target::parse("macos-aarch64"), Ok(Target::macos_aarch64()));
    assert_eq!(Target::parse("windows-x86_64"), Ok(Target::windows_x86_64()));
    assert_eq!(
        Target::parse("windows-aarch64"),
        Ok(Target { os: OperatingSystem::Windows, arch: Architecture::Aarch64 })
    );
}

#[test]
fn parse_accepts_aliases() {
    assert_eq!(Target::parse("darwin-arm64"), Ok(Target::macos_aarch64()));
    assert_eq!(Target::parse("win-amd64"), Ok(Target::windows_x86_64()));
    assert_eq!(Target::parse("linux-x64"), Ok(Target::linux_x86_64()));
}

#[test]
fn parse_rejects_bad_format() {
    assert_eq!(
        Target::parse("linux"),
        Err("Invalid target format: 'linux'. Use 'os-arch' (e.g., 'linux-x86_64')".to_string())
    );
    assert_eq!(
        Target::parse("linux-x86-64"),
        Err("Invalid target format: 'linux-x86-64'. Use 'os-arch' (e.g., 'linux-x86_64')"
            .to_string())
    );
    assert_eq!(
        Target::parse(""),
        Err("Invalid target format: ''. Use 'os-arch' (e.g., 'linux-x86_64')".to_string())
    );
}

#[test]
fn parse_rejects_unknown_os_and_arch() {
    assert_eq!(
        Target::parse("freebsd-x86_64"),
        Err("Unknown OS: 'freebsd'. Use linux, macos, or windows".to_string())
    );
    assert_eq!(
        Target::parse("linux-riscv64"),
        Err("Unknown architecture: 'riscv64'. Use x86_64 or aarch64".to_string())
    );
    assert_eq!(
        Target::parse("Linux-x86_64"),
        Err("Unknown OS: 'Linux'. Use linux, macos, or windows".to_string())
    );
}

#[test]
fn parse_inverts_to_string_for_every_target() {
    let mut every = all_targets();
    every.push(Target { os: OperatingSystem::Windows, arch: Architecture::Aarch64 });
    for t in every {
        assert_eq!(Target::parse(&t.to_string()), Ok(t));
    }
}

#[test]
fn names_of_targets() {
    assert_eq!(Target::linux_x86_64().to_string(), "linux-x86_64");
    assert_eq!(Target::macos_aarch64().to_string(), "macos-aarch64");
    assert_eq!(OperatingSystem::Windows.to_string(), "windows");
    assert_eq!(Architecture::Aarch64.to_string(), "aarch64");
    assert_eq!(Architecture::X86_64.name(), "x86_64");
}

#[test]
fn triplets() {
    assert_eq!(Target::linux_x86_64().triplet(), "x86_64-unknown-linux-gnu");
    assert_eq!(Target::linux_aarch64().triplet(), "aarch64-unknown-linux-gnu");
    assert_eq!(Target::macos_x86_64().triplet(), "x86_64-apple-darwin");
    assert_eq!(Target::macos_aarch64().triplet(), "aarch64-apple-darwin");
    assert_eq!(Target::windows_x86_64().triplet(), "x86_64-pc-windows-msvc");
    assert_eq!(
        Target { os: OperatingSystem::Windows, arch: Architecture::Aarch64 }.triplet(),
        "aarch64-pc-windows-msvc"
    );
}

#[test]
fn cross_triplets() {
    assert_eq!(Target::windows_x86_64().rust_cross_triplet(), Some("x86_64-pc-windows-gnu"));
    assert_eq!(
        Target { os: OperatingSystem::Windows, arch: Architecture::Aarch64 }.rust_cross_triplet(),
        None
    );
    assert_eq!(Target::linux_aarch64().rust_cross_triplet(), Some("aarch64-unknown-linux-gnu"));
    assert_eq!(Target::macos_x86_64().rust_cross_triplet(), Some("x86_64-apple-darwin"));
}

#[test]
fn file_names() {
    assert_eq!(Target::windows_x86_64().exe_file_name("demo"), "demo.exe");
    assert_eq!(Target::linux_x86_64().exe_file_name("demo"), "demo");
    assert_eq!(Target::windows_x86_64().bin_file_name("pypack-launcher"), "pypack-launcher.exe");
    assert_eq!(Target::macos_aarch64().bin_file_name("pypack-launcher"), "pypack-launcher");
}

#[test]
fn host_detection() {
    assert_eq!(Target::host("linux", "x86_64"), Some(Target::linux_x86_64()));
    assert_eq!(Target::host("macos", "aarch64"), Some(Target::macos_aarch64()));
    assert_eq!(Target::host("freebsd", "x86_64"), None);
    assert_eq!(Target::host("linux", "riscv64"), None);
    assert_eq!(Target::host("darwin", "aarch64"), None);
    assert!(Target::linux_x86_64().is_host("linux", "x86_64"));
    assert!(!Target::linux_aarch64().is_host("linux", "x86_64"));
    assert!(!Target::linux_x86_64().is_host("freebsd", "x86_64"));
}

#[test]
fn target_lists() {
    assert_eq!(
        default_targets(),
        vec![Target::linux_x86_64(), Target::macos_aarch64(), Target::windows_x86_64()]
    );
    let all = all_targets();
    assert_eq!(all.len(), 5);
    for t in default_targets() {
        assert!(all.contains(&t));
    }
}

#[test]
fn triplets_are_distinct() {
    let mut every = all_targets();
    every.push(Target { os: OperatingSystem::Windows, arch: Architecture::Aarch64 });
    for (i, a) in every.iter().enumerate() {
        for b in every.iter().skip(i + 1) {
            assert_ne!(a.triplet(), b.triplet());
            assert_ne!(a.to_string(), b.to_string());
        }
    }
}
