use pypack::analyzer::AnalysisResult;
use pypack::bundler::{
    bundle_dir_name, bundle_manifest, find_python_dir, plan_bundle, python_dirs,
    script_file_name, select_python_dir, staging_dir_name, BundleConfig, WalkEntry,
};
use pypack::launcher::create_readme;
use pypack::platform::{OperatingSystem, Target};
use pypack::runtime::{parse_manifest, LaunchSettings};

#[test]
fn directory_names() {
    assert_eq!(bundle_dir_name("demo", &Target::linux_x86_64()), "demo_linux-x86_64");
    assert_eq!(staging_dir_name(&Target::windows_x86_64()), ".tmp_windows-x86_64");
    assert_eq!(script_file_name(Some("app.py")), "app.py");
    assert_eq!(script_file_name(None), "main.py");
}

#[test]
fn manifest_text() {
    assert_eq!(
        bundle_manifest("demo", "main.py"),
        "# pypack bundle manifest\nname=demo\nentry=app/main.py\npython_home=python\nchdir=true\n"
    );
}

#[test]
fn launcher_reads_the_bundle_manifest() {
    let m = parse_manifest(&bundle_manifest("my app", "run me.py"));
    let s = LaunchSettings::from_manifest(&m).unwrap();
    assert_eq!(s.entry, "app/run me.py");
    assert_eq!(s.python_home, "python");
    assert!(s.chdir);
    assert!(s.set_pythonhome);
    assert_eq!(m.get("name"), Some("my app".to_string()));
}

#[test]
fn candidate_directories() {
    let d = python_dirs(OperatingSystem::Linux, OperatingSystem::Linux, "/tmp/x");
    assert_eq!(d[0], ("/tmp/x/python".to_string(), "/tmp/x/python/bin/python3".to_string()));
    assert_eq!(d[1], ("/tmp/x/install".to_string(), "/tmp/x/install/bin/python3".to_string()));
    assert_eq!(d[2], ("/tmp/x".to_string(), "/tmp/x/bin/python3".to_string()));
    let w = python_dirs(OperatingSystem::Windows, OperatingSystem::Windows, "C:\\t");
    assert_eq!(w[0], ("C:\\t\\python".to_string(), "C:\\t\\python\\python.exe".to_string()));
    // a Windows runtime unpacked on a Unix host: host paths, Windows interpreter
    let x = python_dirs(OperatingSystem::Linux, OperatingSystem::Windows, "/tmp/x");
    assert_eq!(x[0], ("/tmp/x/python".to_string(), "/tmp/x/python/python.exe".to_string()));
    assert_eq!(x[2], ("/tmp/x".to_string(), "/tmp/x/python.exe".to_string()));
    // a Unix runtime unpacked on a Windows host
    let y = python_dirs(OperatingSystem::Windows, OperatingSystem::Linux, "C:\\t");
    assert_eq!(y[1], ("C:\\t\\install".to_string(), "C:\\t\\install\\bin\\python3".to_string()));
}

fn entry(name: &str, parent: &str, parent_name: &str, grandparent: &str) -> WalkEntry {
    WalkEntry {
        file_name: name.to_string(),
        is_file: true,
        parent: Some(parent.to_string()),
        parent_name: Some(parent_name.to_string()),
        grandparent: Some(grandparent.to_string()),
    }
}

#[test]
fn python_directory_choice() {
    let walk = vec![
        entry("README", "/t", "t", "/"),
        entry("python3", "/t/rt/bin", "bin", "/t/rt"),
    ];
    assert_eq!(
        select_python_dir(OperatingSystem::Linux, OperatingSystem::Linux, "/t", &vec![false, true, true], &walk),
        Ok("/t/install".to_string())
    );
    assert_eq!(
        select_python_dir(OperatingSystem::Linux, OperatingSystem::Linux, "/t", &vec![false, false, false], &walk),
        Ok("/t/rt".to_string())
    );
    let flat = vec![entry("python.exe", "C:\\t\\rt", "rt", "C:\\t")];
    assert_eq!(
        select_python_dir(OperatingSystem::Windows, OperatingSystem::Windows, "C:\\t", &vec![false, false, false], &flat),
        Ok("C:\\t\\rt".to_string())
    );
    assert_eq!(
        select_python_dir(OperatingSystem::Linux, OperatingSystem::Linux, "/t", &vec![false, false, false], &vec![]),
        Err("Couldn't find the Python binary: in /t".to_string())
    );
}

#[test]
fn walk_takes_files_only() {
    let mut dir = entry("python", "/t", "t", "/");
    dir.is_file = false;
    let walk = vec![dir, entry("python3", "/t/rt/bin", "bin", "/t/rt")];
    assert_eq!(
        select_python_dir(OperatingSystem::Linux, OperatingSystem::Linux, "/t", &vec![false, false, false], &walk),
        Ok("/t/rt".to_string())
    );
    let mut only_dir = entry("python.exe", "/t", "t", "/");
    only_dir.is_file = false;
    assert_eq!(
        select_python_dir(OperatingSystem::Linux, OperatingSystem::Windows, "/t", &vec![false, false, false], &vec![only_dir]),
        Err("Couldn't find the Python binary: in /t".to_string())
    );
}

#[test]
fn windows_runtime_on_unix_host() {
    let tmp = tempfile::tempdir().unwrap();
    let python = tempfile::Builder::new().prefix("python").rand_bytes(0).tempdir_in(tmp.path()).unwrap();
    let _exe = tempfile::Builder::new().prefix("python.exe").rand_bytes(0).tempfile_in(python.path()).unwrap();
    let temp = tmp.path().to_string_lossy().into_owned();
    assert_eq!(
        find_python_dir(OperatingSystem::Linux, OperatingSystem::Windows, &temp, &vec![]),
        Ok(format!("{}/python", temp))
    );
}

#[test]
fn python_directory_on_disk() {
    let tmp = tempfile::tempdir().unwrap();
    let python = tempfile::Builder::new().prefix("python").rand_bytes(0).tempdir_in(tmp.path()).unwrap();
    let bin = tempfile::Builder::new().prefix("bin").rand_bytes(0).tempdir_in(python.path()).unwrap();
    let _exe = tempfile::Builder::new().prefix("python3").rand_bytes(0).tempfile_in(bin.path()).unwrap();
    let temp = tmp.path().to_string_lossy().into_owned();
    assert_eq!(
        find_python_dir(OperatingSystem::Linux, OperatingSystem::Linux, &temp, &vec![]),
        Ok(format!("{}/python", temp))
    );
    let empty = tempfile::tempdir().unwrap();
    let e = empty.path().to_string_lossy().into_owned();
    assert_eq!(
        find_python_dir(OperatingSystem::Linux, OperatingSystem::Linux, &e, &vec![]),
        Err(format!("Couldn't find the Python binary: in {}", e))
    );
}

fn analysis(external: &[&str]) -> AnalysisResult {
    AnalysisResult {
        user_imports: external.iter().map(|s| s.to_string()).collect(),
        module_paths: vec![],
        external_packages: external.iter().map(|s| s.to_string()).collect(),
        python_version: "3.11.7".to_string(),
        python_executable: "/usr/bin/python3".to_string(),
    }
}

#[test]
fn bundle_plan() {
    let config = BundleConfig {
        app_name: "demo".to_string(),
        script_path: "/work/demo.py".to_string(),
        output_dir: "dist".to_string(),
        targets: vec![Target::windows_x86_64(), Target::linux_x86_64()],
        python_version: "3.11.7".to_string(),
        clean: true,
        try_native: false,
    };
    let win = Target::windows_x86_64();
    let plan = plan_bundle(&config, &analysis(&["requests"]), &win, Some("demo.py"));
    assert_eq!(plan.bundle_dir, "demo_windows-x86_64");
    assert_eq!(plan.staging_dir, ".tmp_windows-x86_64");
    assert_eq!(plan.script_name, "demo.py");
    assert!(plan.clean);
    assert!(plan.install_packages);
    assert!(!plan.try_native);
    let names: Vec<&str> = plan.launchers.iter().map(|f| f.name.as_str()).collect();
    assert_eq!(names, vec!["demo.sh", "demo.bat", "demo.ps1"]);
    assert!(plan.launchers[0].executable);
    assert!(!plan.launchers[1].executable && !plan.launchers[2].executable);
    assert!(plan.launchers[1].contents.contains("%SCRIPT_DIR%app\\demo.py"));
    assert_eq!(plan.manifest, bundle_manifest("demo", "demo.py"));
    assert_eq!(plan.readme, create_readme("demo", &win));

    let linux = Target::linux_x86_64();
    let plan = plan_bundle(&config, &analysis(&[]), &linux, None);
    assert_eq!(plan.bundle_dir, "demo_linux-x86_64");
    assert_eq!(plan.script_name, "main.py");
    assert!(!plan.install_packages);
    assert_eq!(plan.launchers.len(), 3);
    assert_eq!(plan.launchers[0].name, "demo.sh");
    assert_eq!(plan.launchers[1].name, "demo.bat");
    assert_eq!(plan.launchers[2].name, "demo.ps1");
    assert!(plan.launchers[0].executable);
    assert!(plan.launchers[0].contents.contains("\"$SCRIPT_DIR/app/main.py\" \"$@\""));
    assert!(plan.manifest.contains("entry=app/main.py\n"));
}
