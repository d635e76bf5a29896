//! The layout of a bundle: its directory names, the manifest that the
//! native launcher reads, and where in an unpacked runtime archive the
//! Python installation lies.
use vstd::prelude::*;
use crate::analyzer::AnalysisResult;
use crate::files::path_exists;
use crate::launcher::{
    LauncherFile,
    create_launcher,
    create_readme,
    files_view,
    launcher_files,
    readme_text,
};
use crate::platform::{OperatingSystem, Target};
use crate::runtime::{
    LaunchSettings,
    join,
    join_path,
    manifest_line,
    manifest_settings,
    switch_on,
};
use crate::text::{
    is_ws,
    lemma_find_char,
    lemma_lines_of_terminated,
    lines,
    starts_with,
    str_eq,
    terminate_strings,
    terminated,
    trim,
    trim_end,
    trim_start,
};

verus! {

/// What to bundle, for which targets, and how.
pub struct BundleConfig {
    /// The application's name.
    pub app_name: String,
    /// The Python script to bundle.
    pub script_path: String,
    /// The directory that receives one bundle per target.
    pub output_dir: String,
    /// The targets to bundle for.
    pub targets: Vec<Target>,
    /// The full Python version of the runtime (for example `3.11.7`).
    pub python_version: String,
    /// Whether an earlier bundle is removed first.
    pub clean: bool,
    /// Whether a native launcher is attempted.
    pub try_native: bool,
}

/// A finished bundle.
pub struct BundleResult {
    /// The bundle's directory.
    pub output_path: String,
    /// The target it was made for.
    pub target: Target,
    /// The total size of its files in bytes.
    pub total_size: u64,
}

/// The directory name of a bundle: `{app}_{os}-{arch}`.
pub fn bundle_dir_name(app_name: &str, target: &Target) -> (r: String)
    ensures
        r@ == app_name@ + "_"@ + target.spec_to_string(),
{
    let mut s = app_name.to_owned();
    s.append("_");
    let t = target.to_string();
    s.append(t.as_str());
    s
}

/// The directory name where a target's runtime archive is unpacked:
/// `.tmp_{os}-{arch}`.
pub fn staging_dir_name(target: &Target) -> (r: String)
    ensures
        r@ == ".tmp_"@ + target.spec_to_string(),
{
    let mut s = ".tmp_".to_owned();
    let t = target.to_string();
    s.append(t.as_str());
    s
}

/// The file name the script gets in the bundle: its own, or `main.py`
/// when it has none that is valid UTF-8.
pub fn script_file_name(file_name: Option<&str>) -> (r: String)
    ensures
        r@ == match file_name {
            Some(n) => n@,
            None => "main.py"@,
        },
{
    match file_name {
        Some(n) => n.to_owned(),
        None => "main.py".to_owned(),
    }
}

/// What goes into a target's bundle, decided before any file is touched.
pub struct BundlePlan {
    /// The bundle's directory name under the output directory.
    pub bundle_dir: String,
    /// Where the runtime archive is unpacked, under the output directory.
    pub staging_dir: String,
    /// The script's file name in the bundle's `app/` directory.
    pub script_name: String,
    /// Whether an earlier bundle directory is removed first.
    pub clean: bool,
    /// Whether the dependencies are downloaded (there are external packages).
    pub install_packages: bool,
    /// Whether a native launcher is attempted.
    pub try_native: bool,
    /// The script launchers to write.
    pub launchers: Vec<LauncherFile>,
    /// The contents of the bundle manifest.
    pub manifest: String,
    /// The contents of the bundle's README.
    pub readme: String,
}

/// Plans the bundle of `config`'s application for `target`, given the
/// analysis of its script and the script's file name (`None` when it has
/// none that is valid UTF-8).
pub fn plan_bundle(
    config: &BundleConfig,
    analysis: &AnalysisResult,
    target: &Target,
    script_file: Option<&str>,
) -> (r: BundlePlan)
    ensures
        r.bundle_dir@ == config.app_name@ + "_"@ + target.spec_to_string(),
        r.staging_dir@ == ".tmp_"@ + target.spec_to_string(),
        r.script_name@ == match script_file {
            Some(n) => n@,
            None => "main.py"@,
        },
        r.clean == config.clean,
        r.install_packages == (analysis.external_packages.len() > 0),
        r.try_native == config.try_native,
        files_view(r.launchers@) == launcher_files(config.app_name@, r.script_name@),
        r.manifest@ == bundle_manifest_text(config.app_name@, r.script_name@),
        r.readme@ == readme_text(config.app_name@, target.spec_to_string()),
{
    let script_name = script_file_name(script_file);
    let launchers = create_launcher(target, config.app_name.as_str(), script_name.as_str());
    let manifest = bundle_manifest(config.app_name.as_str(), script_name.as_str());
    BundlePlan {
        bundle_dir: bundle_dir_name(config.app_name.as_str(), target),
        staging_dir: staging_dir_name(target),
        script_name,
        clean: config.clean,
        install_packages: analysis.external_packages.len() > 0,
        try_native: config.try_native,
        launchers,
        manifest,
        readme: create_readme(config.app_name.as_str(), target),
    }
}

/// The lines of the bundle manifest.
pub open spec fn manifest_lines(app: Seq<char>, script: Seq<char>) -> Seq<Seq<char>> {
    seq![
        "# pypack bundle manifest"@,
        "name="@ + app,
        "entry=app/"@ + script,
        "python_home=python"@,
        "chdir=true"@,
    ]
}

/// The bundle manifest: the application's name, the entry script under
/// `app/`, the runtime under `python/`, and `chdir=true`; each line ends
/// with a newline.
pub open spec fn bundle_manifest_text(app: Seq<char>, script: Seq<char>) -> Seq<char> {
    terminated(manifest_lines(app, script), "\n"@)
}

/// The manifest that the native launcher of a bundle reads.
pub fn bundle_manifest(app_name: &str, script_name: &str) -> (r: String)
    ensures
        r@ == bundle_manifest_text(app_name@, script_name@),
{
    let mut name = "name=".to_owned();
    name.append(app_name);
    let mut entry = "entry=app/".to_owned();
    entry.append(script_name);
    let pieces = vec![
        "# pypack bundle manifest".to_owned(),
        name,
        entry,
        "python_home=python".to_owned(),
        "chdir=true".to_owned(),
    ];
    assert(pieces.deep_view() =~= manifest_lines(app_name@, script_name@));
    terminate_strings(&pieces, "\n")
}

pub proof fn lemma_trim_end_after(a: Seq<char>, b: Seq<char>)
    requires
        a.len() > 0,
        !is_ws(a.last()),
    ensures
        trim_end(a + b) == a + trim_end(b),
    decreases b.len(),
{
    if b.len() == 0 {
        assert(a + b =~= a);
        assert(a + trim_end(b) =~= a);
    } else if is_ws(b.last()) {
        assert((a + b).drop_last() =~= a + b.drop_last());
        lemma_trim_end_after(a, b.drop_last());
    } else {
        assert((a + b).last() == b.last());
    }
}

/// The line `{key}={value}`, for a nonempty key free of whitespace and `=`
/// that does not start with `#`, sets `key` to the trimmed value.
proof fn lemma_setting_line(key: Seq<char>, value: Seq<char>)
    requires
        key.len() > 0,
        key[0] != '#',
        forall|j: int| 0 <= j < key.len() ==> key[j] != '=' && !is_ws(#[trigger] key[j]),
    ensures
        manifest_line(key + "="@ + value) == Some((key, trim(value))),
{
    reveal_strlit("=");
    reveal_strlit("#");
    let eq = "="@;
    assert(eq =~= seq!['=']);
    let line = key + eq + value;
    let head = key + eq;
    assert(line =~= head + value);
    assert(!is_ws(line[0]));
    assert(trim_start(line) == line);
    lemma_trim_end_after(head, value);
    let t = trim(line);
    assert(t =~= head + trim_end(value));
    assert(t.len() > 0);
    assert(!starts_with(t, "#"@)) by {
        assert("#"@ =~= seq!['#']);
        if starts_with(t, "#"@) {
            assert(t.take(1)[0] == '#');
            assert(t[0] == key[0]);
        }
    }
    assert(t[key.len() as int] == '=');
    assert(forall|j: int| 0 <= j < key.len() ==> t[j] == key[j]);
    lemma_find_char(t, '=', key.len() as int);
    assert(t.take(key.len() as int) =~= key);
    assert(t.skip(key.len() + 1 as int) =~= trim_end(value));
    assert(trim(key) == key) by {
        assert(trim_start(key) == key);
        assert(trim_end(key) == key);
    }
    lemma_trim_of_trim_end(value);
}

pub proof fn lemma_trim_end_prefix(s: Seq<char>)
    ensures
        trim_end(s).len() <= s.len(),
        trim_end(s) == s.take(trim_end(s).len() as int),
    decreases s.len(),
{
    if s.len() > 0 && is_ws(s.last()) {
        lemma_trim_end_prefix(s.drop_last());
        assert(s.drop_last().take(trim_end(s).len() as int) =~= s.take(trim_end(s).len() as int));
    } else {
        assert(s.take(s.len() as int) =~= s);
    }
}

pub proof fn lemma_trim_start_of_trim_end(s: Seq<char>)
    ensures
        trim_start(trim_end(s)) == trim_end(trim_start(s)),
    decreases s.len(),
{
    let e = Seq::<char>::empty();
    assert(trim_start(e) == e);
    assert(trim_end(e) == e);
    if s.len() == 0 {
    } else if is_ws(s[0]) {
        if s.len() == 1 {
            assert(s.drop_last() =~= e);
            assert(s.drop_first() =~= e);
            assert(s.last() == s[0]);
            assert(trim_end(s) == e);
            assert(trim_start(s) == e);
        } else if is_ws(s.last()) {
            let dl = s.drop_last();
            let df = s.drop_first();
            let m = df.drop_last();
            assert(dl.drop_first() =~= m);
            assert(dl[0] == s[0]);
            assert(df.last() == s.last());
            lemma_trim_start_of_trim_end(dl);
            lemma_trim_start_of_trim_end(df);
            lemma_trim_start_of_trim_end(m);
            assert(trim_end(s) == trim_end(dl));
            assert(trim_start(dl) == trim_start(m));
            assert(trim_start(s) == trim_start(df));
            assert(trim_end(df) == trim_end(m));
        } else {
            let df = s.drop_first();
            assert(df.last() == s.last());
            lemma_trim_start_of_trim_end(df);
            assert(trim_end(s) == s);
            assert(trim_end(df) == df);
            assert(trim_start(s) == trim_start(df));
        }
    } else {
        lemma_trim_end_prefix(s);
        let t = trim_end(s);
        assert(trim_start(s) == s);
        if t.len() > 0 {
            assert(t[0] == s[0]);
        }
    }
}

pub proof fn lemma_trim_of_trim_end(s: Seq<char>)
    ensures
        trim(trim_end(s)) == trim(s),
    decreases s.len(),
{
    lemma_trim_start_of_trim_end(s);
    lemma_trim_end_idempotent(trim_start(s));
}

pub proof fn lemma_trim_end_idempotent(s: Seq<char>)
    ensures
        trim_end(trim_end(s)) == trim_end(s),
    decreases s.len(),
{
    if s.len() > 0 && is_ws(s.last()) {
        lemma_trim_end_idempotent(s.drop_last());
    }
}

/// The native launcher reads back what the bundler writes: for an
/// application name and a script name without newlines, the bundle
/// manifest makes the launcher run `app/{script}` (trailing whitespace of
/// the name aside) with the runtime in `python/`, from the bundle's
/// directory, with `PYTHONHOME` set.
pub proof fn lemma_launcher_reads_bundle_manifest(app: Seq<char>, script: Seq<char>)
    requires
        forall|j: int| 0 <= j < app.len() ==> #[trigger] app[j] != '\n',
        forall|j: int| 0 <= j < script.len() ==> #[trigger] script[j] != '\n',
    ensures
        ({
            let m = manifest_settings(lines(bundle_manifest_text(app, script)));
            &&& m.contains_key("entry"@)
            &&& m["entry"@] == "app/"@ + trim_end(script)
            &&& m.contains_key("python_home"@)
            &&& m["python_home"@] == "python"@
            &&& switch_on(m, "chdir"@)
            &&& switch_on(m, "set_pythonhome"@)
        }),
{
    reveal_strlit("# pypack bundle manifest");
    reveal_strlit("name=");
    reveal_strlit("entry=app/");
    reveal_strlit("python_home=python");
    reveal_strlit("chdir=true");
    reveal_strlit("name");
    reveal_strlit("entry");
    reveal_strlit("python_home");
    reveal_strlit("python");
    reveal_strlit("chdir");
    reveal_strlit("true");
    reveal_strlit("false");
    reveal_strlit("set_pythonhome");
    reveal_strlit("app/");
    reveal_strlit("=");
    reveal_strlit("#");
    reveal_strlit("\n");
    let ls = manifest_lines(app, script);
    assert("\n"@ =~= seq!['\n']);
    assert("=" @ =~= seq!['=']);
    assert(ls[0] =~= seq!['#', ' ', 'p', 'y', 'p', 'a', 'c', 'k', ' ', 'b', 'u', 'n', 'd', 'l', 'e', ' ', 'm', 'a', 'n', 'i', 'f', 'e', 's', 't']);
    let name_key = seq!['n', 'a', 'm', 'e'];
    let entry_key = seq!['e', 'n', 't', 'r', 'y'];
    let home_key = seq!['p', 'y', 't', 'h', 'o', 'n', '_', 'h', 'o', 'm', 'e'];
    let chdir_key = seq!['c', 'h', 'd', 'i', 'r'];
    let appdir = seq!['a', 'p', 'p', '/'];
    assert("name"@ =~= name_key);
    assert("entry"@ =~= entry_key);
    assert("python_home"@ =~= home_key);
    assert("chdir"@ =~= chdir_key);
    assert("app/"@ =~= appdir);
    assert(ls[1] =~= name_key + "="@ + app);
    assert(ls[2] =~= entry_key + "="@ + (appdir + script));
    assert(ls[3] =~= home_key + "="@ + "python"@);
    assert(ls[4] =~= chdir_key + "="@ + "true"@);
    assert forall|i: int, j: int| 0 <= i < ls.len() && 0 <= j < ls[i].len() implies #[trigger] ls[i][j]
        != '\n' by {
        if i == 1 && j >= 5 {
            assert(ls[1][j] == app[j - 5]);
        }
        if i == 2 && j >= 10 {
            assert(ls[2][j] == script[j - 10]);
        }
    }
    lemma_lines_of_terminated(ls);
    // the first line is a comment
    assert(manifest_line(ls[0]) is None) by {
        assert(trim_start(ls[0]) == ls[0]);
        assert(trim_end(ls[0]) == ls[0]);
        assert(ls[0].take(1) =~= "#"@);
    }
    lemma_setting_line(name_key, app);
    lemma_setting_line(entry_key, appdir + script);
    lemma_setting_line(home_key, "python"@);
    lemma_setting_line(chdir_key, "true"@);
    assert(trim(appdir + script) == appdir + trim_end(script)) by {
        assert(trim_start(appdir + script) == appdir + script);
        lemma_trim_end_after(appdir, script);
    }
    assert(trim("python"@) == "python"@) by {
        assert(trim_start("python"@) == "python"@);
        assert(trim_end("python"@) == "python"@);
    }
    assert(trim("true"@) == "true"@) by {
        assert(trim_start("true"@) == "true"@);
        assert(trim_end("true"@) == "true"@);
    }
    reveal_with_fuel(manifest_settings, 6);
    assert(ls.drop_last().drop_last().drop_last().drop_last().drop_last() =~= Seq::<
        Seq<char>,
    >::empty());
    let m = manifest_settings(ls);
    assert(m =~= Map::<Seq<char>, Seq<char>>::empty().insert(name_key, trim(app)).insert(
        entry_key,
        appdir + trim_end(script),
    ).insert(home_key, "python"@).insert(chdir_key, "true"@));
}

/// The launch settings that the native launcher takes from the bundle
/// manifest of an application and script named without newlines.
pub proof fn lemma_bundle_launch_settings(app: Seq<char>, script: Seq<char>, s: LaunchSettings)
    requires
        forall|j: int| 0 <= j < app.len() ==> #[trigger] app[j] != '\n',
        forall|j: int| 0 <= j < script.len() ==> #[trigger] script[j] != '\n',
        ({
            let m = manifest_settings(lines(bundle_manifest_text(app, script)));
            &&& s.entry@ == m["entry"@]
            &&& s.python_home@ == if m.contains_key("python_home"@) {
                m["python_home"@]
            } else {
                "python"@
            }
            &&& s.chdir == switch_on(m, "chdir"@)
            &&& s.set_pythonhome == switch_on(m, "set_pythonhome"@)
        }),
    ensures
        s.entry@ == "app/"@ + trim_end(script),
        s.python_home@ == "python"@,
        s.chdir,
        s.set_pythonhome,
{
    lemma_launcher_reads_bundle_manifest(app, script);
}

/// The interpreter that marks a runtime directory `dir` of a runtime for
/// `os`, as a path of the host, whose path conventions are those of `host`.
pub open spec fn interpreter_path(host: OperatingSystem, os: OperatingSystem, dir: Seq<char>) -> Seq<
    char,
> {
    match os {
        OperatingSystem::Windows => join_path(host, dir, "python.exe"@),
        _ => join_path(host, join_path(host, dir, "bin"@), "python3"@),
    }
}

/// A directory that may hold the runtime for `os` unpacked in `temp` on
/// a host with the path conventions of `host`, with its interpreter.
pub open spec fn python_dir_candidates(
    host: OperatingSystem,
    os: OperatingSystem,
    temp: Seq<char>,
) -> Seq<(Seq<char>, Seq<char>)> {
    seq![
        (join_path(host, temp, "python"@), interpreter_path(host, os, join_path(host, temp, "python"@))),
        (join_path(host, temp, "install"@), interpreter_path(host, os, join_path(host, temp, "install"@))),
        (temp, interpreter_path(host, os, temp)),
    ]
}

fn interpreter_in(host: OperatingSystem, os: OperatingSystem, dir: &str) -> (r: String)
    ensures
        r@ == interpreter_path(host, os, dir@),
{
    match os {
        OperatingSystem::Windows => join(host, dir, "python.exe"),
        _ => {
            let bin = join(host, dir, "bin");
            join(host, bin.as_str(), "python3")
        },
    }
}

/// The directories that may hold the runtime for `os` unpacked in
/// `temp_dir` — `python/`, `install/` and `temp_dir` itself, in that order
/// — each with the interpreter whose presence marks it. The paths are the
/// host's, joined by its conventions (`host`), whatever the target is.
pub fn python_dirs(host: OperatingSystem, os: OperatingSystem, temp_dir: &str) -> (r: Vec<
    (String, String),
>)
    ensures
        r@.len() == 3,
        forall|i: int|
            0 <= i < 3 ==> (#[trigger] r@[i]).0@ == python_dir_candidates(host, os, temp_dir@)[i].0
                && r@[i].1@ == python_dir_candidates(host, os, temp_dir@)[i].1,
{
    let python = join(host, temp_dir, "python");
    let python_bin = interpreter_in(host, os, python.as_str());
    let install = join(host, temp_dir, "install");
    let install_bin = interpreter_in(host, os, install.as_str());
    let here_bin = interpreter_in(host, os, temp_dir);
    vec![(python, python_bin), (install, install_bin), (temp_dir.to_owned(), here_bin)]
}

/// An entry met while searching an unpacked archive (up to three levels
/// deep) for the interpreter.
pub struct WalkEntry {
    /// The entry's file name (empty when it is not valid UTF-8).
    pub file_name: String,
    /// Whether the entry is a file (a link to a file counts as one).
    pub is_file: bool,
    /// The directory that holds the entry.
    pub parent: Option<String>,
    /// The file name of that directory.
    pub parent_name: Option<String>,
    /// The directory that holds that directory.
    pub grandparent: Option<String>,
}

/// The file name of the interpreter on `os`.
pub open spec fn is_interpreter_name(os: OperatingSystem, name: Seq<char>) -> bool {
    match os {
        OperatingSystem::Windows => name == "python.exe"@,
        _ => name == "python3"@ || name == "python"@,
    }
}

/// The runtime directory that an entry reveals: for an interpreter (a
/// file with the interpreter's name), the directory above `bin/` when it
/// lies in a `bin` directory (none if there is no such directory), else
/// its own directory; nothing for any other entry.
pub open spec fn walk_root(os: OperatingSystem, e: WalkEntry) -> Option<Seq<char>> {
    if !e.is_file || !is_interpreter_name(os, e.file_name@) {
        None
    } else {
        match e.parent {
            None => None,
            Some(p) => if e.parent_name matches Some(n) && n@ == "bin"@ {
                match e.grandparent {
                    Some(g) => Some(g@),
                    None => None,
                }
            } else {
                Some(p@)
            },
        }
    }
}

/// The runtime directory that the first revealing entry of a search gives.
pub open spec fn first_walk_root(os: OperatingSystem, entries: Seq<WalkEntry>) -> Option<Seq<char>>
    decreases entries.len(),
{
    if entries.len() == 0 {
        None
    } else {
        match walk_root(os, entries[0]) {
            Some(d) => Some(d),
            None => first_walk_root(os, entries.drop_first()),
        }
    }
}

/// How a runtime is recognised in an unpacked archive. For a Unix target
/// (Linux and macOS alike) a candidate directory `d` holds the runtime
/// when `d/bin/python3` exists, and a search takes a file named `python3`
/// or `python` in a `bin` directory as the mark of the directory above;
/// for a Windows target `d/python.exe` marks `d`, and a search takes a
/// file named `python.exe` in the same way; a directory never marks one.
/// The first candidate is `temp/python`.
pub proof fn lemma_runtime_marks(
    host: OperatingSystem,
    os: OperatingSystem,
    temp: Seq<char>,
    d: Seq<char>,
    e: WalkEntry,
)
    ensures
        python_dir_candidates(host, os, temp).len() == 3,
        python_dir_candidates(host, os, temp)[0].0 == join_path(host, temp, "python"@),
        python_dir_candidates(host, os, temp)[1].0 == join_path(host, temp, "install"@),
        python_dir_candidates(host, os, temp)[2].0 == temp,
        forall|i: int|
            0 <= i < 3 ==> #[trigger] python_dir_candidates(host, os, temp)[i].1 == interpreter_path(
                host,
                os,
                python_dir_candidates(host, os, temp)[i].0,
            ),
        os != OperatingSystem::Windows ==> interpreter_path(host, os, d) == join_path(
            host,
            join_path(host, d, "bin"@),
            "python3"@,
        ),
        os == OperatingSystem::Windows ==> interpreter_path(host, os, d) == join_path(
            host,
            d,
            "python.exe"@,
        ),
        os != OperatingSystem::Windows ==> (is_interpreter_name(os, "python3"@)
            && is_interpreter_name(os, "python"@)),
        os == OperatingSystem::Windows ==> is_interpreter_name(os, "python.exe"@),
        !e.is_file ==> walk_root(os, e) is None,
        ({
            let named = if os == OperatingSystem::Windows {
                e.file_name@ == "python.exe"@
            } else {
                e.file_name@ == "python3"@ || e.file_name@ == "python"@
            };
            let in_bin = e.parent_name is Some && e.parent_name->Some_0@ == "bin"@;
            &&& (e.is_file && named && e.parent is Some && in_bin && e.grandparent is Some)
                ==> walk_root(os, e) == Some(e.grandparent->Some_0@)
            &&& (e.is_file && named && e.parent is Some && !in_bin) ==> walk_root(os, e) == Some(
                e.parent->Some_0@,
            )
        }),
{
}

/// The error for an archive without an interpreter.
pub open spec fn no_interpreter_message(temp: Seq<char>) -> Seq<char> {
    "Couldn't find the Python binary: in "@ + temp
}

/// The runtime directory in an unpacked archive, given which candidate
/// interpreters exist (`present`, in candidate order) and the entries of
/// a search of the archive: the first candidate whose interpreter exists,
/// else what the search reveals first, else the error.
pub fn select_python_dir(
    host: OperatingSystem,
    os: OperatingSystem,
    temp_dir: &str,
    present: &Vec<bool>,
    walk: &Vec<WalkEntry>,
) -> (r: Result<String, String>)
    requires
        present.len() == 3,
    ensures
        ({
            let c = python_dir_candidates(host, os, temp_dir@);
            if present@[0] {
                r matches Ok(d) && d@ == c[0].0
            } else if present@[1] {
                r matches Ok(d) && d@ == c[1].0
            } else if present@[2] {
                r matches Ok(d) && d@ == c[2].0
            } else {
                match first_walk_root(os, walk@) {
                    Some(d) => (r matches Ok(x) && x@ == d),
                    None => (r matches Err(e) && e@ == no_interpreter_message(temp_dir@)),
                }
            }
        }),
{
    let dirs = python_dirs(host, os, temp_dir);
    let mut i: usize = 0;
    while i < 3
        invariant
            i <= 3,
            dirs@.len() == 3,
            present.len() == 3,
            forall|k: int|
                0 <= k < 3 ==> (#[trigger] dirs@[k]).0@ == python_dir_candidates(host, os, temp_dir@)[k].0,
            forall|k: int| 0 <= k < i ==> !present@[k],
        decreases 3 - i,
    {
        if present[i] {
            return Ok(dirs[i].0.clone());
        }
        i += 1;
    }
    let mut j: usize = 0;
    assert(walk@.skip(0) =~= walk@);
    while j < walk.len()
        invariant
            j <= walk.len(),
            present.len() == 3,
            !present@[0] && !present@[1] && !present@[2],
            first_walk_root(os, walk@) == first_walk_root(os, walk@.skip(j as int)),
        decreases walk.len() - j,
    {
        assert(walk@.skip(j as int).drop_first() =~= walk@.skip(j + 1));
        assert(walk@.skip(j as int)[0] == walk@[j as int]);
        let e = &walk[j];
        let interpreter = e.is_file && match os {
            OperatingSystem::Windows => str_eq(e.file_name.as_str(), "python.exe"),
            _ => str_eq(e.file_name.as_str(), "python3") || str_eq(e.file_name.as_str(), "python"),
        };
        if interpreter {
            match &e.parent {
                Some(p) => {
                    let in_bin = match &e.parent_name {
                        Some(n) => str_eq(n.as_str(), "bin"),
                        None => false,
                    };
                    if in_bin {
                        match &e.grandparent {
                            Some(g) => {
                                return Ok(g.clone());
                            },
                            None => {},
                        }
                    } else {
                        return Ok(p.clone());
                    }
                },
                None => {},
            }
        }
        j += 1;
    }
    assert(walk@.skip(walk.len() as int) =~= Seq::<WalkEntry>::empty());
    let mut e = String::from_str("Couldn't find the Python binary: in ");
    e.append(temp_dir);
    Err(e)
}

/// Finds the runtime directory for `os` in an archive unpacked in
/// `temp_dir` on a host with the path conventions of `host`, checking on
/// disk which candidate interpreters exist.
pub fn find_python_dir(
    host: OperatingSystem,
    os: OperatingSystem,
    temp_dir: &str,
    walk: &Vec<WalkEntry>,
) -> (r: Result<
    String,
    String,
>)
    ensures
        match r {
            Ok(d) => (exists|i: int| 0 <= i < 3 && d@ == python_dir_candidates(host, os, temp_dir@)[i].0)
                || first_walk_root(os, walk@) == Some(d@),
            Err(e) => e@ == no_interpreter_message(temp_dir@) && first_walk_root(os, walk@) is None,
        },
{
    let dirs = python_dirs(host, os, temp_dir);
    let mut present: Vec<bool> = Vec::new();
    present.push(path_exists(dirs[0].1.as_str()));
    present.push(path_exists(dirs[1].1.as_str()));
    present.push(path_exists(dirs[2].1.as_str()));
    select_python_dir(host, os, temp_dir, &present, walk)
}

} // verus!
