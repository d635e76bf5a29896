use std::io::Write;

use pypack::archive::{unpack_plan, unpack_zip, wheel_names, ZipEntry};
use pypack::platform::OperatingSystem;

fn zip_bytes(entries: &[(&str, Option<&[u8]>)]) -> Vec<u8> {
    let mut w = zip::ZipWriter::new(std::io::Cursor::new(Vec::new()));
    let options = zip::write::SimpleFileOptions::default()
        .compression_method(zip::CompressionMethod::Deflated);
    for (name, data) in entries {
        match data {
            None => w.add_directory(*name, options).unwrap(),
            Some(d) => {
                w.start_file(*name, options).unwrap();
                w.write_all(d).unwrap();
            }
        }
    }
    w.finish().unwrap().into_inner()
}

#[test]
fn wheel_file_names() {
    let names: Vec<String> = ["requests-2.31.0-py3-none-any.whl", "notes.txt", ".whl", "x.whl", "a.whl.part", "pkg.WHL"]
        .iter()
        .map(|s| s.to_string())
        .collect();
    assert_eq!(wheel_names(&names), vec!["requests-2.31.0-py3-none-any.whl", "x.whl"]);
    assert!(wheel_names(&vec![]).is_empty());
}

#[test]
fn plan_for_entries() {
    let entries = vec![
        ZipEntry { name: "pkg/".to_string(), is_dir: true, data: vec![] },
        ZipEntry { name: "pkg/__init__.py".to_string(), is_dir: false, data: b"x = 1\n".to_vec() },
    ];
    let plan = unpack_plan(OperatingSystem::Linux, "/b/lib/packages", entries);
    assert_eq!(
        plan,
        vec![
            ("/b/lib/packages/pkg/".to_string(), None),
            ("/b/lib/packages/pkg/__init__.py".to_string(), Some(b"x = 1\n".to_vec())),
        ]
    );
    let win = unpack_plan(
        OperatingSystem::Windows,
        "C:\\b",
        vec![ZipEntry { name: "a.py".to_string(), is_dir: false, data: vec![1, 2] }],
    );
    assert_eq!(win, vec![("C:\\b\\a.py".to_string(), Some(vec![1, 2]))]);
}

#[test]
fn unpacks_a_wheel() {
    let bytes = zip_bytes(&[
        ("demo/", None),
        ("demo/__init__.py", Some(b"print('hi')\n")),
        ("demo-1.0.dist-info/METADATA", Some(b"Name: demo\n")),
    ]);
    let plan = unpack_zip(OperatingSystem::Linux, "/p", &bytes).unwrap();
    assert_eq!(
        plan,
        vec![
            ("/p/demo/".to_string(), None),
            ("/p/demo/__init__.py".to_string(), Some(b"print('hi')\n".to_vec())),
            ("/p/demo-1.0.dist-info/METADATA".to_string(), Some(b"Name: demo\n".to_vec())),
        ]
    );
}

#[test]
fn refuses_what_is_no_zip() {
    assert!(unpack_zip(OperatingSystem::Linux, "/p", b"not a zip archive").is_err());
    assert!(unpack_zip(OperatingSystem::Linux, "/p", b"").is_err());
}
