//! What the native launcher decides when it starts a bundle: it reads the
//! bundle manifest (`key=value` lines), finds the bundled interpreter and
//! its `site-packages`, composes the search paths it exports, and passes
//! the interpreter's exit status on.
use vstd::prelude::*;
use crate::analyzer::pairs_view;
use crate::files::path_exists;
use crate::platform::OperatingSystem;
use crate::text::{
    count_char,
    count_of_char,
    find_char,
    has_prefix,
    index_of_char,
    lemma_find_char_bounds,
    lines,
    split_lines,
    starts_with,
    str_eq,
    trim,
    trim_str,
};

verus! {

/// The file name of the bundle manifest next to the launcher.
pub const MANIFEST_FILE: &'static str = "pypack.manifest";

/// The setting that one manifest line makes, if any: blank lines and
/// lines starting with `#` (after trimming) make none, nor do lines
/// without `=`; otherwise the trimmed text before the first `=` is the
/// key and the trimmed text after it the value.
pub open spec fn manifest_line(line: Seq<char>) -> Option<(Seq<char>, Seq<char>)> {
    let t = trim(line);
    if t.len() == 0 || starts_with(t, "#"@) {
        None
    } else {
        let k = find_char(t, '=');
        if k >= t.len() {
            None
        } else {
            Some((trim(t.take(k as int)), trim(t.skip(k + 1 as int))))
        }
    }
}

/// The settings of manifest lines, a later line overriding an earlier
/// one with the same key.
pub open spec fn manifest_settings(ls: Seq<Seq<char>>) -> Map<Seq<char>, Seq<char>>
    decreases ls.len(),
{
    if ls.len() == 0 {
        Map::empty()
    } else {
        let m = manifest_settings(ls.drop_last());
        match manifest_line(ls.last()) {
            Some((k, v)) => m.insert(k, v),
            None => m,
        }
    }
}

/// The settings that pairs make, a later pair overriding an earlier one.
pub open spec fn pairs_settings(ps: Seq<(Seq<char>, Seq<char>)>) -> Map<Seq<char>, Seq<char>>
    decreases ps.len(),
{
    if ps.len() == 0 {
        Map::empty()
    } else {
        pairs_settings(ps.drop_last()).insert(ps.last().0, ps.last().1)
    }
}

/// The settings of a bundle manifest, in the order they were read; for a
/// key given more than once the last one counts.
pub struct Manifest {
    entries: Vec<(String, String)>,
}

impl Manifest {
    pub closed spec fn pairs(self) -> Seq<(Seq<char>, Seq<char>)> {
        pairs_view(self.entries@)
    }

    /// The manifest as a map from keys to values.
    pub closed spec fn settings(self) -> Map<Seq<char>, Seq<char>> {
        pairs_settings(self.pairs())
    }

    /// The value given for `key`.
    pub fn get(&self, key: &str) -> (r: Option<String>)
        ensures
            match r {
                Some(v) => self.settings().contains_key(key@) && self.settings()[key@] == v@,
                None => !self.settings().contains_key(key@),
            },
    {
        let ghost ps = self.pairs();
        let mut i = self.entries.len();
        assert(ps.take(i as int) =~= ps);
        while i > 0
            invariant
                i <= self.entries.len(),
                ps == self.pairs(),
                ps.len() == self.entries.len(),
                pairs_settings(ps).contains_key(key@) == pairs_settings(ps.take(i as int)).contains_key(key@),
                pairs_settings(ps).contains_key(key@) ==> pairs_settings(ps)[key@] == pairs_settings(
                    ps.take(i as int),
                )[key@],
            decreases i,
        {
            let ghost pre = ps.take(i as int);
            assert(pre.drop_last() =~= ps.take(i - 1));
            assert(pre.last() == ps[i - 1]);
            assert(ps[i - 1] == (self.entries@[i - 1].0@, self.entries@[i - 1].1@));
            if str_eq(self.entries[i - 1].0.as_str(), key) {
                return Some(self.entries[i - 1].1.clone());
            }
            i -= 1;
        }
        assert(ps.take(0) =~= Seq::<(Seq<char>, Seq<char>)>::empty());
        None
    }
}

/// Reads the settings of a bundle manifest.
pub fn parse_manifest(content: &str) -> (r: Manifest)
    ensures
        r.settings() == manifest_settings(lines(content@)),
{
    let ls = split_lines(content);
    let mut entries: Vec<(String, String)> = Vec::new();
    let mut i: usize = 0;
    assert(ls.deep_view().take(0) =~= Seq::<Seq<char>>::empty());
    assert(pairs_view(entries@) =~= Seq::<(Seq<char>, Seq<char>)>::empty());
    while i < ls.len()
        invariant
            i <= ls.len(),
            ls.deep_view() == lines(content@),
            pairs_settings(pairs_view(entries@))
                == manifest_settings(ls.deep_view().take(i as int)),
        decreases ls.len() - i,
    {
        let ghost pre = ls.deep_view().take(i as int);
        let ghost post = ls.deep_view().take(i + 1);
        assert(post.drop_last() =~= pre);
        assert(post.last() == ls@[i as int]@);
        let t = trim_str(ls[i].as_str());
        let n = t.unicode_len();
        let skip = n == 0 || has_prefix(t, "#");
        if !skip {
            let k = index_of_char(t, '=');
            proof {
                lemma_find_char_bounds(t@, '=');
            }
            if k < n {
                let before_eq = t.substring_char(0, k);
                let after_eq = t.substring_char(k + 1, n);
                assert(before_eq@ =~= t@.take(k as int));
                assert(after_eq@ =~= t@.skip(k + 1));
                let key = trim_str(before_eq);
                let value = trim_str(after_eq);
                let ghost before = pairs_view(entries@);
                entries.push((key.to_owned(), value.to_owned()));
                assert(pairs_view(entries@) =~= before.push((key@, value@)));
                assert(before.push((key@, value@)).drop_last() =~= before);
                assert(manifest_line(ls@[i as int]@) == Some((key@, value@)));
            } else {
                assert(manifest_line(ls@[i as int]@) is None);
            }
        } else {
            assert(manifest_line(ls@[i as int]@) is None);
        }
        i += 1;
    }
    assert(ls.deep_view().take(ls.len() as int) =~= ls.deep_view());
    Manifest { entries }
}

/// How the launcher runs a bundle, as its manifest says.
pub struct LaunchSettings {
    /// The entry script, relative to the launcher's directory.
    pub entry: String,
    /// The runtime's directory, relative to the launcher's directory.
    pub python_home: String,
    /// Whether to make the launcher's directory the working directory.
    pub chdir: bool,
    /// Whether to set `PYTHONHOME` to the runtime's directory.
    pub set_pythonhome: bool,
}

/// A switch that holds unless the manifest sets it to exactly `false`.
pub open spec fn switch_on(m: Map<Seq<char>, Seq<char>>, key: Seq<char>) -> bool {
    !(m.contains_key(key) && m[key] == "false"@)
}

impl LaunchSettings {
    /// The launch settings of a manifest: `entry` is required;
    /// `python_home` defaults to `python`; `chdir` and `set_pythonhome`
    /// hold unless set to `false`.
    pub fn from_manifest(manifest: &Manifest) -> (r: Result<LaunchSettings, String>)
        ensures
            !manifest.settings().contains_key("entry"@) ==> (r matches Err(e) && e@
                == "manifest'te 'entry' eksik"@),
            manifest.settings().contains_key("entry"@) ==> (r matches Ok(s) && {
                &&& s.entry@ == manifest.settings()["entry"@]
                &&& s.python_home@ == if manifest.settings().contains_key("python_home"@) {
                    manifest.settings()["python_home"@]
                } else {
                    "python"@
                }
                &&& s.chdir == switch_on(manifest.settings(), "chdir"@)
                &&& s.set_pythonhome == switch_on(manifest.settings(), "set_pythonhome"@)
            }),
    {
        let entry = match manifest.get("entry") {
            Some(e) => e,
            None => {
                return Err("manifest'te 'entry' eksik".to_owned());
            },
        };
        let python_home = match manifest.get("python_home") {
            Some(h) => h,
            None => "python".to_owned(),
        };
        let chdir = match manifest.get("chdir") {
            Some(v) => !str_eq(v.as_str(), "false"),
            None => true,
        };
        let set_pythonhome = match manifest.get("set_pythonhome") {
            Some(v) => !str_eq(v.as_str(), "false"),
            None => true,
        };
        Ok(LaunchSettings { entry, python_home, chdir, set_pythonhome })
    }
}

/// A path separator of `os`.
pub open spec fn is_separator(os: OperatingSystem, c: char) -> bool {
    c == '/' || (os == OperatingSystem::Windows && c == '\\')
}

/// `base` joined with the relative path `name` as `Path::join` does it on
/// `os`: a separator goes between them unless `base` is empty or already
/// ends with one.
pub open spec fn join_path(os: OperatingSystem, base: Seq<char>, name: Seq<char>) -> Seq<char> {
    if base.len() == 0 || is_separator(os, base.last()) {
        base + name
    } else {
        base + (if os == OperatingSystem::Windows {
            "\\"@
        } else {
            "/"@
        }) + name
    }
}

/// Joins the relative path `name` to `base`.
pub fn join(os: OperatingSystem, base: &str, name: &str) -> (r: String)
    ensures
        r@ == join_path(os, base@, name@),
{
    let n = base.unicode_len();
    let mut s = base.to_owned();
    if n > 0 {
        let c = base.get_char(n - 1);
        let sep = c == '/' || (os == OperatingSystem::Windows && c == '\\');
        if !sep {
            if os == OperatingSystem::Windows {
                s.append("\\");
            } else {
                s.append("/");
            }
        }
    }
    s.append(name);
    s
}

/// Where the interpreter of a runtime at `home` may be, in the order the
/// launcher tries them.
pub open spec fn python_bin_candidates(os: OperatingSystem, home: Seq<char>) -> Seq<Seq<char>> {
    match os {
        OperatingSystem::Windows => seq![
            join_path(os, home, "python.exe"@),
            join_path(os, join_path(os, home, "bin"@), "python.exe"@),
        ],
        _ => seq![
            join_path(os, join_path(os, home, "bin"@), "python3"@),
            join_path(os, join_path(os, home, "bin"@), "python"@),
        ],
    }
}

/// The places where a runtime's interpreter may be.
pub fn python_bin_paths(os: OperatingSystem, home: &str) -> (r: Vec<String>)
    ensures
        r.deep_view() == python_bin_candidates(os, home@),
        r.len() == 2,
{
    let r = match os {
        OperatingSystem::Windows => {
            let a = join(os, home, "python.exe");
            let bin = join(os, home, "bin");
            let b = join(os, bin.as_str(), "python.exe");
            vec![a, b]
        },
        _ => {
            let bin = join(os, home, "bin");
            let a = join(os, bin.as_str(), "python3");
            let b = join(os, bin.as_str(), "python");
            vec![a, b]
        },
    };
    assert(r.deep_view() =~= python_bin_candidates(os, home@));
    r
}

/// The error for a runtime without an interpreter.
pub open spec fn no_python_message(home: Seq<char>) -> Seq<char> {
    "Python runtime bulunamadı: "@ + home + " altında python binary yok"@
}

/// The first candidate whose flag in `present` is set.
pub fn select_python_bin(os: OperatingSystem, home: &str, present: &Vec<bool>) -> (r: Result<
    String,
    String,
>)
    requires
        present.len() == 2,
    ensures
        present@[0] ==> (r matches Ok(p) && p@ == python_bin_candidates(os, home@)[0]),
        !present@[0] && present@[1] ==> (r matches Ok(p) && p@ == python_bin_candidates(
            os,
            home@,
        )[1]),
        !present@[0] && !present@[1] ==> (r matches Err(e) && e@ == no_python_message(home@)),
{
    let candidates = python_bin_paths(os, home);
    assert(candidates.deep_view()[0] == candidates@[0]@);
    assert(candidates.deep_view()[1] == candidates@[1]@);
    if present[0] {
        Ok(candidates[0].clone())
    } else if present[1] {
        Ok(candidates[1].clone())
    } else {
        let mut e = String::from_str("Python runtime bulunamadı: ");
        e.append(home);
        e.append(" altında python binary yok");
        Err(e)
    }
}

/// Finds the interpreter of the runtime at `home`: the first candidate
/// that exists on disk, or the error naming `home` when none does.
pub fn find_python_bin(os: OperatingSystem, home: &str) -> (r: Result<String, String>)
    ensures
        match r {
            Ok(p) => python_bin_candidates(os, home@).contains(p@),
            Err(e) => e@ == no_python_message(home@),
        },
{
    let candidates = python_bin_paths(os, home);
    let mut present: Vec<bool> = Vec::new();
    present.push(path_exists(candidates[0].as_str()));
    present.push(path_exists(candidates[1].as_str()));
    select_python_bin(os, home, &present)
}

/// The first name in `names` that starts with `python3`.
pub open spec fn first_python3(names: Seq<Seq<char>>) -> Option<Seq<char>>
    decreases names.len(),
{
    if names.len() == 0 {
        None
    } else if starts_with(names[0], "python3"@) {
        Some(names[0])
    } else {
        first_python3(names.drop_first())
    }
}

/// The runtime's `site-packages` directory: `Lib/site-packages` on
/// Windows; elsewhere `lib/<entry>/site-packages` for the first entry of
/// `lib/` whose name starts with `python3` (`lib_entries`, in directory
/// order; `None` when the directory cannot be read).
pub open spec fn site_packages(
    os: OperatingSystem,
    home: Seq<char>,
    lib_entries: Option<Seq<Seq<char>>>,
) -> Option<Seq<char>> {
    match os {
        OperatingSystem::Windows => Some(
            join_path(os, join_path(os, home, "Lib"@), "site-packages"@),
        ),
        _ => match lib_entries {
            None => None,
            Some(names) => match first_python3(names) {
                Some(n) => Some(
                    join_path(os, join_path(os, join_path(os, home, "lib"@), n), "site-packages"@),
                ),
                None => None,
            },
        },
    }
}

/// The `site-packages` directory of the runtime at `home`, given the
/// names in its `lib` directory.
pub fn site_packages_dir(os: OperatingSystem, home: &str, lib_entries: Option<&Vec<String>>) -> (r:
    Option<String>)
    ensures
        match r {
            Some(p) => site_packages(
                os,
                home@,
                match lib_entries {
                    Some(v) => Some(v.deep_view()),
                    None => None,
                },
            ) == Some(p@),
            None => site_packages(
                os,
                home@,
                match lib_entries {
                    Some(v) => Some(v.deep_view()),
                    None => None,
                },
            ) is None,
        },
{
    if os == OperatingSystem::Windows {
        let lib = join(os, home, "Lib");
        return Some(join(os, lib.as_str(), "site-packages"));
    }
    match lib_entries {
        None => None,
        Some(names) => {
            let ghost nv = names.deep_view();
            let mut i: usize = 0;
            assert(nv.skip(0) =~= nv);
            while i < names.len()
                invariant
                    i <= names.len(),
                    nv == names.deep_view(),
                    os != OperatingSystem::Windows,
                    lib_entries == Some(names),
                    first_python3(nv) == first_python3(nv.skip(i as int)),
                decreases names.len() - i,
            {
                assert(nv.skip(i as int).drop_first() =~= nv.skip(i + 1));
                assert(nv.skip(i as int)[0] == names@[i as int]@);
                if has_prefix(names[i].as_str(), "python3") {
                    let lib = join(os, home, "lib");
                    let dir = join(os, lib.as_str(), names[i].as_str());
                    return Some(join(os, dir.as_str(), "site-packages"));
                }
                i += 1;
            }
            assert(nv.skip(names.len() as int) =~= Seq::<Seq<char>>::empty());
            None
        },
    }
}

/// Where the launcher looks for the interpreter: on every Unix (Linux and
/// macOS alike) `bin/python3` under the runtime, then `bin/python`; on
/// Windows `python.exe` at the runtime's top, then `bin/python.exe`.
pub proof fn lemma_interpreter_candidates(os: OperatingSystem, home: Seq<char>)
    ensures
        python_bin_candidates(os, home).len() == 2,
        os != OperatingSystem::Windows ==> python_bin_candidates(os, home)[0] == join_path(
            os,
            join_path(os, home, "bin"@),
            "python3"@,
        ) && python_bin_candidates(os, home)[1] == join_path(
            os,
            join_path(os, home, "bin"@),
            "python"@,
        ),
        os == OperatingSystem::Windows ==> python_bin_candidates(os, home)[0] == join_path(
            os,
            home,
            "python.exe"@,
        ) && python_bin_candidates(os, home)[1] == join_path(
            os,
            join_path(os, home, "bin"@),
            "python.exe"@,
        ),
{
}

proof fn lemma_first_python3(names: Seq<Seq<char>>, i: int)
    requires
        0 <= i < names.len(),
        starts_with(names[i], "python3"@),
        forall|j: int| 0 <= j < i ==> !starts_with(#[trigger] names[j], "python3"@),
    ensures
        first_python3(names) == Some(names[i]),
    decreases i,
{
    if i > 0 {
        let rest = names.drop_first();
        assert forall|j: int| 0 <= j < i - 1 implies !starts_with(#[trigger] rest[j], "python3"@) by {
            assert(rest[j] == names[j + 1]);
        }
        assert(!starts_with(names[0], "python3"@));
        lemma_first_python3(rest, i - 1);
    }
}

proof fn lemma_no_python3(names: Seq<Seq<char>>)
    requires
        forall|j: int| 0 <= j < names.len() ==> !starts_with(#[trigger] names[j], "python3"@),
    ensures
        first_python3(names) is None,
    decreases names.len(),
{
    if names.len() > 0 {
        let rest = names.drop_first();
        assert forall|j: int| 0 <= j < rest.len() implies !starts_with(#[trigger] rest[j], "python3"@) by {
            assert(rest[j] == names[j + 1]);
        }
        assert(!starts_with(names[0], "python3"@));
        lemma_no_python3(rest);
    }
}

/// The runtime's `site-packages`: on Windows `Lib/site-packages`; on every
/// Unix (Linux and macOS alike) `lib/<entry>/site-packages` for the first
/// entry of the runtime's `lib` directory whose name starts with
/// `python3`, none when no entry does or the directory cannot be read.
pub proof fn lemma_site_packages(
    os: OperatingSystem,
    home: Seq<char>,
    lib_entries: Option<Seq<Seq<char>>>,
)
    ensures
        os == OperatingSystem::Windows ==> site_packages(os, home, lib_entries) == Some(
            join_path(os, join_path(os, home, "Lib"@), "site-packages"@),
        ),
        os != OperatingSystem::Windows && lib_entries is None ==> site_packages(
            os,
            home,
            lib_entries,
        ) is None,
        os != OperatingSystem::Windows ==> (lib_entries matches Some(names) ==> forall|i: int|
            0 <= i < names.len() && starts_with(#[trigger] names[i], "python3"@) && (forall|j: int|
                0 <= j < i ==> !starts_with(#[trigger] names[j], "python3"@)) ==> site_packages(
                os,
                home,
                lib_entries,
            ) == Some(
                join_path(os, join_path(os, join_path(os, home, "lib"@), names[i]), "site-packages"@),
            )),
        os != OperatingSystem::Windows ==> (lib_entries matches Some(names) ==> ((forall|j: int|
            0 <= j < names.len() ==> !starts_with(#[trigger] names[j], "python3"@))
            ==> site_packages(os, home, lib_entries) is None)),
{
    if os != OperatingSystem::Windows {
        if let Some(names) = lib_entries {
            assert forall|i: int|
                0 <= i < names.len() && starts_with(#[trigger] names[i], "python3"@) && (forall|
                    j: int,
                | 0 <= j < i ==> !starts_with(#[trigger] names[j], "python3"@)) implies site_packages(
                os,
                home,
                lib_entries,
            ) == Some(
                join_path(os, join_path(os, join_path(os, home, "lib"@), names[i]), "site-packages"@),
            ) by {
                lemma_first_python3(names, i);
            }
            if forall|j: int| 0 <= j < names.len() ==> !starts_with(#[trigger] names[j], "python3"@) {
                lemma_no_python3(names);
            }
        }
    }
}

/// The value of a dynamic library search variable (`LD_LIBRARY_PATH`,
/// `DYLD_LIBRARY_PATH`, `DYLD_FRAMEWORK_PATH`) with `dir` put first: the
/// `:`-joined list of `dir` and the pieces of the earlier value, if that
/// was set and not empty. `None` when `dir` holds `:`, which such a list
/// cannot hold (the launcher then leaves the variable as it was).
pub open spec fn library_path(dir: Seq<char>, existing: Option<Seq<char>>) -> Option<Seq<char>> {
    if count_char(dir, ':') > 0 {
        None
    } else {
        match existing {
            Some(e) => if e.len() > 0 {
                Some(dir + ":"@ + e)
            } else {
                Some(dir)
            },
            None => Some(dir),
        }
    }
}

/// The new value of a library search variable that gets `dir` first.
pub fn library_path_value(dir: &str, existing: Option<&str>) -> (r: Option<String>)
    ensures
        match r {
            Some(v) => library_path(
                dir@,
                match existing {
                    Some(e) => Some(e@),
                    None => None,
                },
            ) == Some(v@),
            None => library_path(
                dir@,
                match existing {
                    Some(e) => Some(e@),
                    None => None,
                },
            ) is None,
        },
{
    if count_of_char(dir, ':') > 0 {
        return None;
    }
    let mut v = dir.to_owned();
    match existing {
        Some(e) => {
            if e.unicode_len() > 0 {
                v.append(":");
                v.append(e);
            }
        },
        None => {},
    }
    Some(v)
}

/// `PYTHONPATH` as `std::env::join_paths` forms it from `parts` on `os`:
/// joined with `:` (`None` if a part holds `:`) off Windows; on Windows
/// joined with `;`, a part that holds `;` put in double quotes (`None` if
/// a part holds a double quote).
pub open spec fn search_path(os: OperatingSystem, parts: Seq<Seq<char>>) -> Option<Seq<char>>
    decreases parts.len(),
{
    if parts.len() == 0 {
        Some(seq![])
    } else {
        let p = parts.last();
        let piece = if os == OperatingSystem::Windows {
            if count_char(p, '"') > 0 {
                None
            } else if count_char(p, ';') > 0 {
                Some("\""@ + p + "\""@)
            } else {
                Some(p)
            }
        } else if count_char(p, ':') > 0 {
            None
        } else {
            Some(p)
        };
        let sep = if os == OperatingSystem::Windows {
            ";"@
        } else {
            ":"@
        };
        match (search_path(os, parts.drop_last()), piece) {
            (Some(front), Some(q)) => if parts.len() == 1 {
                Some(q)
            } else {
                Some(front + sep + q)
            },
            _ => None,
        }
    }
}

/// Joins search path parts as `std::env::join_paths` does on `os`.
pub fn join_search_path(os: OperatingSystem, parts: &Vec<String>) -> (r: Option<String>)
    ensures
        match r {
            Some(v) => search_path(os, parts.deep_view()) == Some(v@),
            None => search_path(os, parts.deep_view()) is None,
        },
{
    let mut out = String::new();
    let mut i: usize = 0;
    assert(parts.deep_view().take(0) =~= Seq::<Seq<char>>::empty());
    while i < parts.len()
        invariant
            i <= parts.len(),
            search_path(os, parts.deep_view().take(i as int)) == Some(out@),
        decreases parts.len() - i,
    {
        let ghost pre = parts.deep_view().take(i as int);
        let ghost post = parts.deep_view().take(i + 1);
        assert(post.drop_last() =~= pre);
        assert(post.last() == parts@[i as int]@);
        let p = parts[i].as_str();
        if i > 0 {
            if os == OperatingSystem::Windows {
                out.append(";");
            } else {
                out.append(":");
            }
        }
        if os == OperatingSystem::Windows {
            if count_of_char(p, '"') > 0 {
                proof {
                    lemma_none_stays(os, parts.deep_view(), i + 1);
                }
                return None;
            } else if count_of_char(p, ';') > 0 {
                out.append("\"");
                out.append(p);
                out.append("\"");
            } else {
                out.append(p);
            }
        } else {
            if count_of_char(p, ':') > 0 {
                proof {
                    lemma_none_stays(os, parts.deep_view(), i + 1);
                }
                return None;
            }
            out.append(p);
        }
        proof {
            if i == 0 {
                assert(pre.len() == 0);
            }
        }
        i += 1;
    }
    assert(parts.deep_view().take(parts.len() as int) =~= parts.deep_view());
    Some(out)
}

/// The parts of the launched interpreter's `PYTHONPATH`: the bundle's
/// `lib` directory, the runtime's `site-packages` if it has one, and the
/// earlier value if that was set and not empty.
pub open spec fn python_path_parts(
    lib_dir: Seq<char>,
    site_packages: Option<Seq<char>>,
    existing: Option<Seq<char>>,
) -> Seq<Seq<char>> {
    let with_site = match site_packages {
        Some(p) => seq![lib_dir, p],
        None => seq![lib_dir],
    };
    match existing {
        Some(e) => if e.len() > 0 {
            with_site.push(e)
        } else {
            with_site
        },
        None => with_site,
    }
}

/// The `PYTHONPATH` that the launcher exports, or `None` when its parts
/// cannot be joined (the launcher then leaves the variable as it was).
pub fn launch_python_path(
    os: OperatingSystem,
    lib_dir: &str,
    site_packages: Option<&str>,
    existing: Option<&str>,
) -> (r: Option<String>)
    ensures
        ({
            let parts = python_path_parts(
                lib_dir@,
                match site_packages {
                    Some(p) => Some(p@),
                    None => None,
                },
                match existing {
                    Some(e) => Some(e@),
                    None => None,
                },
            );
            match r {
                Some(v) => search_path(os, parts) == Some(v@),
                None => search_path(os, parts) is None,
            }
        }),
{
    let mut parts: Vec<String> = Vec::new();
    parts.push(lib_dir.to_owned());
    match site_packages {
        Some(p) => parts.push(p.to_owned()),
        None => {},
    }
    match existing {
        Some(e) => {
            if e.unicode_len() > 0 {
                parts.push(e.to_owned());
            }
        },
        None => {},
    }
    let ghost expected = python_path_parts(
        lib_dir@,
        match site_packages {
            Some(p) => Some(p@),
            None => None,
        },
        match existing {
            Some(e) => Some(e@),
            None => None,
        },
    );
    assert(parts.deep_view() =~= expected);
    join_search_path(os, &parts)
}

proof fn lemma_search_path_prefix(os: OperatingSystem, parts: Seq<Seq<char>>, v: Seq<char>)
    requires
        parts.len() >= 1,
        search_path(os, parts) == Some(v),
        os == OperatingSystem::Windows ==> count_char(parts[0], ';') == 0,
    ensures
        starts_with(v, parts[0]),
    decreases parts.len(),
{
    if parts.len() == 1 {
        assert(parts.drop_last() =~= Seq::<Seq<char>>::empty());
        assert(parts.last() == parts[0]);
        assert(v.take(parts[0].len() as int) =~= parts[0]);
    } else {
        let front = search_path(os, parts.drop_last()).unwrap();
        assert(parts.drop_last()[0] == parts[0]);
        lemma_search_path_prefix(os, parts.drop_last(), front);
        assert(v.take(parts[0].len() as int) =~= front.take(parts[0].len() as int));
    }
}

/// The bundle's `lib` directory leads the `PYTHONPATH` that the launcher
/// exports (on Windows, when the directory's name holds no `;`, which
/// would put it in quotes).
pub proof fn lemma_python_path_leads_with_lib(
    os: OperatingSystem,
    lib_dir: Seq<char>,
    site_packages: Option<Seq<char>>,
    existing: Option<Seq<char>>,
    value: Seq<char>,
)
    requires
        search_path(os, python_path_parts(lib_dir, site_packages, existing)) == Some(value),
        os == OperatingSystem::Windows ==> count_char(lib_dir, ';') == 0,
    ensures
        starts_with(value, lib_dir),
{
    let parts = python_path_parts(lib_dir, site_packages, existing);
    assert(parts[0] == lib_dir);
    lemma_search_path_prefix(os, parts, value);
}

/// Once a prefix of the parts cannot be joined, neither can the whole.
pub proof fn lemma_none_stays(os: OperatingSystem, parts: Seq<Seq<char>>, k: int)
    requires
        0 <= k <= parts.len(),
        search_path(os, parts.take(k)) is None,
    ensures
        search_path(os, parts) is None,
    decreases parts.len() - k,
{
    if k < parts.len() {
        assert(parts.take(k + 1).drop_last() =~= parts.take(k));
        lemma_none_stays(os, parts, k + 1);
    } else {
        assert(parts.take(k) =~= parts);
    }
}

/// The exit code that passes on the interpreter's ending: its exit code;
/// after death by a signal, 128 plus the signal's number (the shell's
/// convention); 1 otherwise.
pub fn exit_code(code: Option<i32>, signal: Option<i32>) -> (r: i32)
    requires
        signal matches Some(s) ==> s <= i32::MAX - 128,
    ensures
        code matches Some(c) ==> r == c,
        code is None ==> (signal matches Some(s) ==> r == 128 + s),
        code is None && signal is None ==> r == 1,
{
    match code {
        Some(c) => c,
        None => match signal {
            Some(s) => 128 + s,
            None => 1,
        },
    }
}

} // verus!
