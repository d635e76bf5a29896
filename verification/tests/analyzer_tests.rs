use pypack::analyzer::{
    analysis_from_output, analysis_from_report, build_analysis, generate_requirements,
    select_report_line,
    AnalysisResult,
};
use pypack::json::JsonValue;
use pypack::text::split_lines;

fn s(x: &str) -> JsonValue {
    JsonValue::Str(x.to_string())
}

fn object(members: Vec<(&str, JsonValue)>) -> JsonValue {
    JsonValue::Object(members.into_iter().map(|(k, v)| (k.to_string(), v)).collect())
}

fn report() -> JsonValue {
    object(vec![
        ("all_imports", JsonValue::Array(vec![s("os"), s("requests"), s("helper"), JsonValue::Null])),
        (
            "modules",
            object(vec![
                ("helper", s("/nonexistent/dir/helper.py")),
                ("requests", s("/nonexistent/site-packages/requests/__init__.py")),
                ("weird", JsonValue::Number("3".to_string())),
            ]),
        ),
        ("local", JsonValue::Array(vec![s("helper")])),
        (
            "external",
            object(vec![("yaml", JsonValue::Null), ("requests", s("/x")), ("attrs", JsonValue::Null)]),
        ),
    ])
}

#[test]
fn report_line_is_the_last_json_line() {
    let out = "noise\n{\"a\": 1}\nmore\n  {\"all_imports\": []}  \r\ntrailer\n";
    assert_eq!(select_report_line(out), Ok("{\"all_imports\": []}".to_string()));
}

#[test]
fn report_line_missing() {
    assert_eq!(
        select_report_line("nothing here\n"),
        Err("Python analiz çıktısında JSON bulunamadı".to_string())
    );
    assert_eq!(
        select_report_line(""),
        Err("Python analiz çıktısında JSON bulunamadı".to_string())
    );
}

#[test]
fn analysis_with_known_files() {
    let r = build_analysis(&report(), "3.11.7".to_string(), "/usr/bin/python3".to_string(), &vec![true, false]);
    let mut imports = r.user_imports.clone();
    imports.sort();
    assert_eq!(imports, vec!["helper", "os", "requests"]);
    assert_eq!(r.module_paths, vec!["/nonexistent/dir/helper.py"]);
    assert_eq!(r.external_packages, vec!["attrs", "requests", "yaml"]);
    assert_eq!(r.python_version, "3.11.7");
    assert_eq!(r.python_executable, "/usr/bin/python3");
}

#[test]
fn analysis_checks_files_on_disk() {
    let file = tempfile::NamedTempFile::new().unwrap();
    let present = file.path().to_string_lossy().into_owned();
    let doc = object(vec![
        ("all_imports", JsonValue::Array(vec![s("helper"), s("gone")])),
        (
            "modules",
            object(vec![("gone", s("/nonexistent/gone.py")), ("helper", s(&present))]),
        ),
        ("external", object(vec![])),
    ]);
    let r = analysis_from_report(&doc, "3.12.1".to_string(), "python3".to_string());
    assert_eq!(r.module_paths, vec![present]);
    assert_eq!(r.user_imports.len(), 2);
    assert!(r.external_packages.is_empty());
}

#[test]
fn analysis_of_a_report_without_sections() {
    let r = build_analysis(&object(vec![]), "3.11.7".to_string(), "py".to_string(), &vec![]);
    assert!(r.user_imports.is_empty());
    assert!(r.module_paths.is_empty());
    assert!(r.external_packages.is_empty());
}

fn with_packages(packages: &[&str]) -> AnalysisResult {
    AnalysisResult {
        user_imports: vec![],
        module_paths: vec![],
        external_packages: packages.iter().map(|p| p.to_string()).collect(),
        python_version: "3.11.7".to_string(),
        python_executable: "python3".to_string(),
    }
}

#[test]
fn requirements_text() {
    assert_eq!(generate_requirements(&with_packages(&["numpy", "requests"])), "numpy\nrequests\n");
    assert_eq!(generate_requirements(&with_packages(&[])), "");
}

#[test]
fn requirements_read_back_line_by_line() {
    let a = with_packages(&["attrs", "numpy", "requests"]);
    assert_eq!(split_lines(&generate_requirements(&a)), a.external_packages);
}

#[test]
fn analysis_from_program_output() {
    let out = "warming up {not json\n{\"all_imports\": [\"json\", \"requests\", \"yaml\"], \"modules\": {\"requests\": \"/nonexistent/requests/__init__.py\"}, \"local\": [], \"external\": {\"yaml\": null, \"requests\": \"/nonexistent/requests/__init__.py\"}}\n";
    let a = analysis_from_output(out, "3.11.7".to_string(), "/usr/bin/python3".to_string()).unwrap();
    let mut imports = a.user_imports.clone();
    imports.sort();
    assert_eq!(imports, vec!["json", "requests", "yaml"]);
    assert_eq!(a.external_packages, vec!["requests", "yaml"]);
    assert!(a.module_paths.is_empty());
    assert_eq!(a.python_version, "3.11.7");
    assert_eq!(a.python_executable, "/usr/bin/python3");
}

#[test]
fn analysis_output_errors() {
    let none = analysis_from_output("no report here\n", String::new(), String::new());
    assert_eq!(none.err(), Some("Python analiz çıktısında JSON bulunamadı".to_string()));
    let bad = analysis_from_output("{\"all_imports\": [\n", String::new(), String::new());
    assert!(bad.err().unwrap().starts_with("JSON parse hatası: "));
}
