use pypack::platform::OperatingSystem;
use pypack::runtime::{
    exit_code, find_python_bin, join, join_search_path, launch_python_path, library_path_value,
    parse_manifest,
    python_bin_paths, select_python_bin, site_packages_dir, LaunchSettings,
};

#[test]
fn manifest_parses_keys_comments_and_blanks() {
    let m = parse_manifest("# yorum\n\nentry=app/main.py\npython_home = python\nchdir=false\n");
    assert_eq!(m.get("entry").unwrap(), "app/main.py");
    assert_eq!(m.get("python_home").unwrap(), "python");
    assert_eq!(m.get("chdir").unwrap(), "false");
}

#[test]
fn manifest_later_lines_win_and_odd_lines_are_ignored() {
    let m = parse_manifest("a=1\nno equals sign\n  # x=2\na = 3 \n b = x=y \r\n");
    assert_eq!(m.get("a"), Some("3".to_string()));
    assert_eq!(m.get("b"), Some("x=y".to_string()));
    assert_eq!(m.get("x"), None);
    assert_eq!(m.get("no equals sign"), None);
}

#[test]
fn launch_settings() {
    let s = LaunchSettings::from_manifest(&parse_manifest(
        "entry=app/main.py\npython_home=rt\nchdir=true\nset_pythonhome=false\n",
    ))
    .unwrap();
    assert_eq!(s.entry, "app/main.py");
    assert_eq!(s.python_home, "rt");
    assert!(s.chdir);
    assert!(!s.set_pythonhome);
    let d = LaunchSettings::from_manifest(&parse_manifest("entry=x.py\nchdir=no\n")).unwrap();
    assert_eq!(d.python_home, "python");
    assert!(d.chdir);
    assert!(d.set_pythonhome);
    assert_eq!(
        LaunchSettings::from_manifest(&parse_manifest("python_home=python\n")).err(),
        Some("manifest'te 'entry' eksik".to_string())
    );
}

#[test]
fn path_joining() {
    assert_eq!(join(OperatingSystem::Linux, "/a", "b"), "/a/b");
    assert_eq!(join(OperatingSystem::Linux, "/a/", "b"), "/a/b");
    assert_eq!(join(OperatingSystem::Linux, "", "b"), "b");
    assert_eq!(join(OperatingSystem::Windows, "C:\\a", "b"), "C:\\a\\b");
    assert_eq!(join(OperatingSystem::Windows, "C:/a/", "b"), "C:/a/b");
    let std_joined = std::path::Path::new("/x/y").join("bin").join("python3");
    assert_eq!(
        join(OperatingSystem::Linux, &join(OperatingSystem::Linux, "/x/y", "bin"), "python3"),
        std_joined.to_string_lossy()
    );
}

#[test]
fn interpreter_candidates() {
    assert_eq!(
        python_bin_paths(OperatingSystem::Linux, "/b/python"),
        vec!["/b/python/bin/python3", "/b/python/bin/python"]
    );
    assert_eq!(
        python_bin_paths(OperatingSystem::Windows, "C:\\b\\python"),
        vec!["C:\\b\\python\\python.exe", "C:\\b\\python\\bin\\python.exe"]
    );
    assert_eq!(
        select_python_bin(OperatingSystem::Linux, "/b/python", &vec![false, true]),
        Ok("/b/python/bin/python".to_string())
    );
    assert_eq!(
        select_python_bin(OperatingSystem::Linux, "/b/python", &vec![false, false]),
        Err("Python runtime bulunamadı: /b/python altında python binary yok".to_string())
    );
}

#[test]
fn interpreter_on_disk() {
    let home = tempfile::tempdir().unwrap();
    let bin = tempfile::Builder::new().prefix("bin").rand_bytes(0).tempdir_in(home.path()).unwrap();
    let _python = tempfile::Builder::new().prefix("python").rand_bytes(0).tempfile_in(bin.path()).unwrap();
    let h = home.path().to_string_lossy().into_owned();
    assert_eq!(find_python_bin(OperatingSystem::Linux, &h), Ok(format!("{}/bin/python", h)));
    let _python3 = tempfile::Builder::new().prefix("python3").rand_bytes(0).tempfile_in(bin.path()).unwrap();
    assert_eq!(find_python_bin(OperatingSystem::Linux, &h), Ok(format!("{}/bin/python3", h)));
}

#[test]
fn site_packages() {
    let names = vec!["libpython3.11.so".to_string(), "python3.11".to_string(), "python3.12".to_string()];
    assert_eq!(
        site_packages_dir(OperatingSystem::Linux, "/rt", Some(&names)),
        Some("/rt/lib/python3.11/site-packages".to_string())
    );
    assert_eq!(site_packages_dir(OperatingSystem::Linux, "/rt", None), None);
    assert_eq!(site_packages_dir(OperatingSystem::Macos, "/rt", Some(&vec![])), None);
    assert_eq!(
        site_packages_dir(OperatingSystem::Windows, "C:\\rt", None),
        Some("C:\\rt\\Lib\\site-packages".to_string())
    );
}

#[test]
fn library_paths() {
    assert_eq!(library_path_value("/rt/lib", None), Some("/rt/lib".to_string()));
    assert_eq!(library_path_value("/rt/lib", Some("")), Some("/rt/lib".to_string()));
    assert_eq!(
        library_path_value("/rt/lib", Some("/usr/lib:/opt/lib")),
        Some("/rt/lib:/usr/lib:/opt/lib".to_string())
    );
    assert_eq!(library_path_value("/a:b", Some("/usr/lib")), None);
}

#[test]
fn search_paths() {
    let parts = vec!["/b/lib".to_string(), "/b/python/lib/python3.11/site-packages".to_string()];
    assert_eq!(
        join_search_path(OperatingSystem::Linux, &parts),
        Some("/b/lib:/b/python/lib/python3.11/site-packages".to_string())
    );
    assert_eq!(join_search_path(OperatingSystem::Linux, &vec!["a:b".to_string()]), None);
    assert_eq!(
        join_search_path(OperatingSystem::Windows, &vec!["C:\\b\\lib".to_string(), "x;y".to_string()]),
        Some("C:\\b\\lib;\"x;y\"".to_string())
    );
    assert_eq!(join_search_path(OperatingSystem::Windows, &vec!["a\"b".to_string()]), None);
    assert_eq!(join_search_path(OperatingSystem::Linux, &vec![]), Some(String::new()));
}

#[test]
fn exit_codes() {
    assert_eq!(exit_code(Some(7), None), 7);
    assert_eq!(exit_code(Some(0), Some(9)), 0);
    assert_eq!(exit_code(None, Some(9)), 137);
    assert_eq!(exit_code(None, None), 1);
}

#[test]
fn launched_python_path() {
    assert_eq!(
        launch_python_path(OperatingSystem::Linux, "/b/lib", Some("/b/python/lib/python3.11/site-packages"), Some("/extra")),
        Some("/b/lib:/b/python/lib/python3.11/site-packages:/extra".to_string())
    );
    assert_eq!(
        launch_python_path(OperatingSystem::Linux, "/b/lib", None, Some("")),
        Some("/b/lib".to_string())
    );
    assert_eq!(
        launch_python_path(OperatingSystem::Windows, "C:\\b\\lib", Some("C:\\b\\python\\Lib\\site-packages"), None),
        Some("C:\\b\\lib;C:\\b\\python\\Lib\\site-packages".to_string())
    );
    assert_eq!(launch_python_path(OperatingSystem::Linux, "/odd:dir/lib", None, None), None);
}

fn named_dir(parent: &std::path::Path, name: &str) -> tempfile::TempDir {
    tempfile::Builder::new().prefix(name).rand_bytes(0).tempdir_in(parent).unwrap()
}

fn named_file(parent: &std::path::Path, name: &str) -> tempfile::NamedTempFile {
    tempfile::Builder::new().prefix(name).rand_bytes(0).tempfile_in(parent).unwrap()
}

#[test]
fn sample_bundle_launch_decisions() {
    // The sample bundle of the native launcher's end-to-end run: demoapp/
    // with app/main.py, lib/, python/bin/python3, marker.txt and its manifest.
    let tmp = tempfile::tempdir().unwrap();
    let bundle = named_dir(tmp.path(), "demoapp");
    let app = named_dir(bundle.path(), "app");
    let _main = named_file(app.path(), "main.py");
    let lib = named_dir(bundle.path(), "lib");
    let python = named_dir(bundle.path(), "python");
    let bin = named_dir(python.path(), "bin");
    let _python3 = named_file(bin.path(), "python3");
    let _marker = named_file(bundle.path(), "marker.txt");
    let exe_dir = bundle.path().to_string_lossy().into_owned();

    let manifest =
        parse_manifest("entry=app/main.py\npython_home=python\nchdir=true\nset_pythonhome=false\n");
    let s = LaunchSettings::from_manifest(&manifest).unwrap();
    assert_eq!(s.entry, "app/main.py");
    assert_eq!(s.python_home, "python");
    assert!(s.chdir);
    assert!(!s.set_pythonhome);

    let entry = join(OperatingSystem::Linux, &exe_dir, &s.entry);
    assert_eq!(entry, format!("{}/app/main.py", exe_dir));
    let home = join(OperatingSystem::Linux, &exe_dir, &s.python_home);
    assert_eq!(
        find_python_bin(OperatingSystem::Linux, &home),
        Ok(format!("{}/python/bin/python3", exe_dir))
    );
    assert_eq!(site_packages_dir(OperatingSystem::Linux, &home, Some(&vec![])), None);

    let lib_dir = join(OperatingSystem::Linux, &exe_dir, "lib");
    assert_eq!(lib_dir, lib.path().to_string_lossy());
    let pythonpath = launch_python_path(OperatingSystem::Linux, &lib_dir, None, None).unwrap();
    assert_eq!(pythonpath, lib_dir);
    assert!(pythonpath.contains("lib"));
    let inherited =
        launch_python_path(OperatingSystem::Linux, &lib_dir, None, Some("/inherited")).unwrap();
    assert_eq!(inherited, format!("{}:/inherited", lib_dir));

    // The entry's exit status 7 is passed on.
    assert_eq!(exit_code(Some(7), None), 7);
}
