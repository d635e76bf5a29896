//! The result of analysing a script's imports, built from the JSON report
//! that the analysis program prints, and the requirements list made from it.
use vstd::prelude::*;
use crate::files::path_exists;
use crate::json::{JsonValue, decode_json, json_decode};
use crate::order::{sort_dedup, strictly_sorted};
use crate::text::{
    lines,
    split_lines,
    starts_with,
    str_eq,
    terminate_strings,
    lemma_lines_of_terminated,
    terminated,
    trim,
    trim_start,
    trim_start_str,
    trim_str,
};

verus! {

/// What the analysis of a script found.
pub struct AnalysisResult {
    /// Every module that the script imports, each once.
    pub user_imports: Vec<String>,
    /// The files of the imported modules that exist.
    pub module_paths: Vec<String>,
    /// The packages to install with pip, sorted and each once.
    pub external_packages: Vec<String>,
    /// The Python version that ran the analysis.
    pub python_version: String,
    /// The Python interpreter that ran the analysis.
    pub python_executable: String,
}

impl AnalysisResult {
    /// The imports are a set (no module twice) and the external packages
    /// are sorted without repetitions.
    pub open spec fn well_formed(self) -> bool {
        &&& no_duplicates(self.user_imports.deep_view())
        &&& strictly_sorted(self.external_packages.deep_view())
    }
}

/// No string occurs twice.
pub open spec fn no_duplicates(s: Seq<Seq<char>>) -> bool {
    forall|i: int, j: int| 0 <= i < j < s.len() ==> #[trigger] s[i] != #[trigger] s[j]
}

/// A line of the analysis output that holds the JSON report: its first
/// character after leading whitespace is `{`.
pub open spec fn is_report_line(l: Seq<char>) -> bool {
    starts_with(trim_start(l), "{"@)
}

/// The last report line among `ls`, trimmed.
pub open spec fn last_report_line(ls: Seq<Seq<char>>) -> Option<Seq<char>>
    decreases ls.len(),
{
    if ls.len() == 0 {
        None
    } else if is_report_line(ls.last()) {
        Some(trim(ls.last()))
    } else {
        last_report_line(ls.drop_last())
    }
}

/// Picks the JSON report out of the analysis program's output: the last
/// line that starts (after whitespace) with `{`, trimmed. An earlier line
/// may also start with `{`; the report is always printed last.
pub fn select_report_line(output: &str) -> (r: Result<String, String>)
    ensures
        match last_report_line(lines(output@)) {
            Some(l) => (r matches Ok(s) && s@ == l),
            None => (r matches Err(e) && e@ == "Python analiz çıktısında JSON bulunamadı"@),
        },
{
    let ls = split_lines(output);
    let mut k = ls.len();
    assert(ls.deep_view().take(k as int) =~= ls.deep_view());
    while k > 0
        invariant
            k <= ls.len(),
            ls.deep_view() == lines(output@),
            last_report_line(lines(output@)) == last_report_line(ls.deep_view().take(k as int)),
        decreases k,
    {
        let l = ls[k - 1].as_str();
        let ghost pre = ls.deep_view().take(k as int);
        assert(pre.last() == l@);
        assert(pre.drop_last() =~= ls.deep_view().take(k - 1));
        let t = trim_start_str(l);
        if t.unicode_len() > 0 && t.get_char(0) == '{' {
            proof {
                reveal_strlit("{");
                assert(t@.take(1) =~= "{"@);
            }
            return Ok(trim_str(l).to_owned());
        }
        proof {
            reveal_strlit("{");
            if starts_with(t@, "{"@) {
                assert(t@.take(1)[0] == '{');
            }
        }
        k -= 1;
    }
    Err("Python analiz çıktısında JSON bulunamadı".to_owned())
}

/// The string elements of `items`, in order.
pub open spec fn string_items(items: Seq<JsonValue>) -> Seq<Seq<char>>
    decreases items.len(),
{
    if items.len() == 0 {
        seq![]
    } else {
        let rest = string_items(items.drop_last());
        match items.last() {
            JsonValue::Str(s) => rest.push(s@),
            _ => rest,
        }
    }
}

/// The members of `members` whose value is a string, as (key, text) pairs.
pub open spec fn string_members(members: Seq<(String, JsonValue)>) -> Seq<(Seq<char>, Seq<char>)>
    decreases members.len(),
{
    if members.len() == 0 {
        seq![]
    } else {
        let rest = string_members(members.drop_last());
        match members.last().1 {
            JsonValue::Str(s) => rest.push((members.last().0@, s@)),
            _ => rest,
        }
    }
}

/// The keys of `members`, in order.
pub open spec fn member_keys(members: Seq<(String, JsonValue)>) -> Seq<Seq<char>> {
    members.map_values(|m: (String, JsonValue)| m.0@)
}

/// The string elements of the report's `all_imports` array.
pub open spec fn report_imports(report: JsonValue) -> Seq<Seq<char>> {
    match report.spec_get("all_imports"@) {
        Some(JsonValue::Array(a)) => string_items(a@),
        _ => seq![],
    }
}

/// The (module, file) pairs of the report's `modules` object whose file
/// is a string.
pub open spec fn report_modules(report: JsonValue) -> Seq<(Seq<char>, Seq<char>)> {
    match report.spec_get("modules"@) {
        Some(JsonValue::Object(m)) => string_members(m@),
        _ => seq![],
    }
}

/// The keys of the report's `external` object.
pub open spec fn report_external(report: JsonValue) -> Seq<Seq<char>> {
    match report.spec_get("external"@) {
        Some(JsonValue::Object(m)) => member_keys(m@),
        _ => seq![],
    }
}

/// The files of `modules` whose flag in `present` is set, in order.
pub open spec fn present_files(modules: Seq<(Seq<char>, Seq<char>)>, present: Seq<bool>) -> Seq<
    Seq<char>,
>
    decreases modules.len(),
{
    if modules.len() == 0 {
        seq![]
    } else {
        let rest = present_files(modules.drop_last(), present.drop_last());
        if present.last() {
            rest.push(modules.last().1)
        } else {
            rest
        }
    }
}

/// The modules that a report says the script imports: the `all_imports`
/// strings and the modules whose file it names.
pub open spec fn imported(report: JsonValue, s: Seq<char>) -> bool {
    report_imports(report).contains(s) || exists|k: int|
        0 <= k < report_modules(report).len() && (#[trigger] report_modules(report)[k]).0 == s
}

/// Adds `s` to `set` unless it is there already.
fn insert_unique(set: &mut Vec<String>, s: &String)
    requires
        no_duplicates(old(set).deep_view()),
    ensures
        no_duplicates(final(set).deep_view()),
        forall|x: Seq<char>|
            final(set).deep_view().contains(x) <==> (old(set).deep_view().contains(x) || x == s@),
{
    let mut i: usize = 0;
    while i < set.len()
        invariant
            i <= set.len(),
            set.deep_view() == old(set).deep_view(),
            no_duplicates(old(set).deep_view()),
            forall|j: int| 0 <= j < i ==> set.deep_view()[j] != s@,
        decreases set.len() - i,
    {
        assert(set.deep_view()[i as int] == set@[i as int]@);
        if str_eq(set[i].as_str(), s.as_str()) {
            assert(set.deep_view()[i as int] == s@);
            return;
        }
        i += 1;
    }
    let ghost before = set.deep_view();
    set.push(s.clone());
    assert(set.deep_view() =~= before.push(s@));
    assert forall|x: Seq<char>| set.deep_view().contains(x) <==> (before.contains(x) || x == s@) by {
        if x == s@ {
            assert(set.deep_view()[before.len() as int] == x);
        }
        if set.deep_view().contains(x) && x != s@ {
            let k = choose|k: int| 0 <= k < set.deep_view().len() && set.deep_view()[k] == x;
            assert(before[k] == x);
        }
        if before.contains(x) {
            let k = choose|k: int| 0 <= k < before.len() && before[k] == x;
            assert(set.deep_view()[k] == x);
        }
    }
}

/// `r` is the analysis that `report` gives, for an interpreter of version
/// `version` at `executable`, when the report's module files that exist
/// are those flagged in `present`.
pub open spec fn analysis_of(
    r: AnalysisResult,
    report: JsonValue,
    version: Seq<char>,
    executable: Seq<char>,
    present: Seq<bool>,
) -> bool {
    &&& r.well_formed()
    &&& forall|s: Seq<char>| r.user_imports.deep_view().contains(s) <==> imported(report, s)
    &&& r.module_paths.deep_view() == present_files(report_modules(report), present)
    &&& forall|s: Seq<char>|
        r.external_packages.deep_view().contains(s) <==> report_external(report).contains(s)
    &&& r.python_version@ == version
    &&& r.python_executable@ == executable
}

/// Builds the analysis result from the JSON report, given for each module
/// file of the report whether it exists (`present`, in report order).
/// The external packages come sorted, each once.
pub fn build_analysis(
    report: &JsonValue,
    python_version: String,
    python_executable: String,
    present: &Vec<bool>,
) -> (r: AnalysisResult)
    requires
        present.len() == report_modules(*report).len(),
    ensures
        analysis_of(r, *report, python_version@, python_executable@, present@),
{
    let mut user_imports: Vec<String> = Vec::new();
    let mut module_paths: Vec<String> = Vec::new();
    let mut external: Vec<String> = Vec::new();
    let ghost imports = report_imports(*report);
    let ghost modules = report_modules(*report);
    match report.get("all_imports") {
        Some(v) => match v.as_array() {
            Some(items) => {
                let mut i: usize = 0;
                while i < items.len()
                    invariant
                        i <= items.len(),
                        imports == string_items(items@),
                        no_duplicates(user_imports.deep_view()),
                        forall|s: Seq<char>|
                            user_imports.deep_view().contains(s) <==> string_items(
                                items@.take(i as int),
                            ).contains(s),
                    decreases items.len() - i,
                {
                    assert(items@.take(i + 1).drop_last() =~= items@.take(i as int));
                    assert(items@.take(i + 1).last() == items@[i as int]);
                    match &items[i] {
                        JsonValue::Str(s) => {
                            insert_unique(&mut user_imports, s);
                            assert forall|x: Seq<char>|
                                user_imports.deep_view().contains(x) <==> string_items(
                                    items@.take(i + 1),
                                ).contains(x) by {
                                let pre = string_items(items@.take(i as int));
                                assert(string_items(items@.take(i + 1)) == pre.push(s@));
                                if x == s@ {
                                    assert(pre.push(s@)[pre.len() as int] == x);
                                }
                                if pre.push(s@).contains(x) && x != s@ {
                                    let k = choose|k: int|
                                        0 <= k < pre.len() + 1 && pre.push(s@)[k] == x;
                                    assert(pre[k] == x);
                                }
                                if pre.contains(x) {
                                    let k = choose|k: int| 0 <= k < pre.len() && pre[k] == x;
                                    assert(pre.push(s@)[k] == x);
                                }
                            }
                        },
                        _ => {},
                    }
                    i += 1;
                }
                assert(items@.take(items.len() as int) =~= items@);
            },
            None => {},
        },
        None => {},
    }
    assert(forall|s: Seq<char>| user_imports.deep_view().contains(s) <==> imports.contains(s));
    let candidates = module_files(report);
    let mut j: usize = 0;
    assert(candidates@.take(0) =~= Seq::<(String, String)>::empty());
    assert(present@.take(0) =~= Seq::<bool>::empty());
    while j < candidates.len()
        invariant
            j <= candidates.len(),
            pairs_view(candidates@) == modules,
            present.len() == modules.len(),
            module_paths.deep_view() == present_files(
                pairs_view(candidates@.take(j as int)),
                present@.take(j as int),
            ),
            no_duplicates(user_imports.deep_view()),
            forall|s: Seq<char>|
                user_imports.deep_view().contains(s) <==> (imports.contains(s) || exists|m: int|
                    0 <= m < j && (#[trigger] modules[m]).0 == s),
        decreases candidates.len() - j,
    {
        let ghost pre = pairs_view(candidates@.take(j as int));
        let ghost post = pairs_view(candidates@.take(j + 1));
        assert(post.drop_last() =~= pre);
        assert(post.last() == modules[j as int]);
        assert(present@.take(j + 1).drop_last() =~= present@.take(j as int));
        assert(present@.take(j + 1).last() == present@[j as int]);
        let name = &candidates[j].0;
        let path = &candidates[j].1;
        assert(modules[j as int] == (name@, path@));
        if present[j] {
            let ghost before = module_paths.deep_view();
            module_paths.push(path.clone());
            assert(module_paths.deep_view() =~= before.push(path@));
        }
        let ghost old_imports = user_imports.deep_view();
        insert_unique(&mut user_imports, name);
        let ghost jj = j as int;
        j += 1;
        assert forall|s: Seq<char>| user_imports.deep_view().contains(s) <==> (imports.contains(s)
            || exists|m: int| 0 <= m < j && (#[trigger] modules[m]).0 == s) by {
            assert(old_imports.contains(s) <==> (imports.contains(s) || exists|m: int|
                0 <= m < jj && (#[trigger] modules[m]).0 == s));
            if s == name@ {
                assert(modules[jj].0 == s);
            }
            if exists|m: int| 0 <= m < j && (#[trigger] modules[m]).0 == s {
                let m = choose|m: int| 0 <= m < j && (#[trigger] modules[m]).0 == s;
                if m < jj {
                    assert(old_imports.contains(s));
                } else {
                    assert(s == name@);
                }
            }
        }
    }
    assert(candidates@.take(candidates.len() as int) =~= candidates@);
    assert(present@.take(present.len() as int) =~= present@);
    assert forall|s: Seq<char>| user_imports.deep_view().contains(s) <==> imported(*report, s) by {
        if exists|m: int| 0 <= m < modules.len() && (#[trigger] modules[m]).0 == s {
            let m = choose|m: int| 0 <= m < modules.len() && (#[trigger] modules[m]).0 == s;
            assert(report_modules(*report)[m].0 == s);
        }
        if exists|k: int|
            0 <= k < report_modules(*report).len() && (#[trigger] report_modules(*report)[k]).0
                == s {
            let k = choose|k: int|
                0 <= k < report_modules(*report).len() && (#[trigger] report_modules(
                    *report,
                )[k]).0 == s;
            assert(modules[k].0 == s);
        }
    }
    let keys = external_keys(report);
    AnalysisResult {
        user_imports,
        module_paths,
        external_packages: sort_dedup(&keys),
        python_version,
        python_executable,
    }
}

/// Builds the analysis result from the JSON report, checking on disk
/// which module files exist.
pub fn analysis_from_report(
    report: &JsonValue,
    python_version: String,
    python_executable: String,
) -> (r: AnalysisResult)
    ensures
        exists|present: Seq<bool>|
            present.len() == report_modules(*report).len() && analysis_of(
                r,
                *report,
                python_version@,
                python_executable@,
                present,
            ),
{
    let candidates = module_files(report);
    let mut present: Vec<bool> = Vec::new();
    let mut i: usize = 0;
    while i < candidates.len()
        invariant
            i <= candidates.len(),
            present.len() == i,
        decreases candidates.len() - i,
    {
        present.push(path_exists(candidates[i].1.as_str()));
        i += 1;
    }
    assert(pairs_view(candidates@).len() == candidates@.len());
    build_analysis(report, python_version, python_executable, &present)
}

/// Builds the analysis result from the analysis program's standard
/// output: picks the report line (`select_report_line`), decodes it, and
/// builds the result from the report, checking on disk which module files
/// exist. A report that does not decode gives `JSON parse hatası: ` and
/// the decoder's message.
pub fn analysis_from_output(
    stdout: &str,
    python_version: String,
    python_executable: String,
) -> (r: Result<AnalysisResult, String>)
    ensures
        match last_report_line(lines(stdout@)) {
            None => (r matches Err(e) && e@ == "Python analiz çıktısında JSON bulunamadı"@),
            Some(line) => match json_decode(line) {
                None => (r matches Err(e) && starts_with(e@, "JSON parse hatası: "@)),
                Some(report) => (r matches Ok(a) && exists|present: Seq<bool>|
                    present.len() == report_modules(report).len() && analysis_of(
                        a,
                        report,
                        python_version@,
                        python_executable@,
                        present,
                    )),
            },
        },
{
    let line = match select_report_line(stdout) {
        Ok(l) => l,
        Err(e) => {
            return Err(e);
        },
    };
    let text = line.as_str();
    match decode_json(text) {
        Ok(report) => {
            let a = analysis_from_report(&report, python_version, python_executable);
            let r: Result<AnalysisResult, String> = Ok(a);
            assert(r->Ok_0 == a);
            assert(json_decode(line@)->Some_0 == report);
            r
        },
        Err(m) => {
            let mut e = String::from_str("JSON parse hatası: ");
            let ghost head = e@;
            e.append(m.as_str());
            assert(e@.take(head.len() as int) =~= head);
            Err(e)
        },
    }
}

/// The number of set flags.
pub open spec fn count_set(flags: Seq<bool>) -> nat
    decreases flags.len(),
{
    if flags.len() == 0 {
        0
    } else {
        count_set(flags.drop_last()) + if flags.last() {
            1nat
        } else {
            0nat
        }
    }
}

proof fn lemma_present_files(modules: Seq<(Seq<char>, Seq<char>)>, present: Seq<bool>)
    requires
        present.len() == modules.len(),
    ensures
        present_files(modules, present).len() == count_set(present),
        forall|k: int|
            0 <= k < modules.len() && present[k] ==> present_files(modules, present).contains(
                #[trigger] modules[k].1,
            ),
    decreases modules.len(),
{
    if modules.len() > 0 {
        let m = modules.drop_last();
        let p = present.drop_last();
        lemma_present_files(m, p);
        let rest = present_files(m, p);
        assert forall|k: int|
            0 <= k < modules.len() && present[k] implies present_files(modules, present).contains(
                #[trigger] modules[k].1,
            ) by {
            if k < modules.len() - 1 {
                assert(m[k] == modules[k]);
                assert(p[k] == present[k]);
                let j = choose|j: int| 0 <= j < rest.len() && rest[j] == modules[k].1;
                if present.last() {
                    assert(rest.push(modules.last().1)[j] == modules[k].1);
                }
            } else {
                assert(rest.push(modules.last().1)[rest.len() as int] == modules[k].1);
            }
        }
    }
}

/// The analysis lists every module file that exists and nothing more: each
/// module of the report whose file exists has that file among
/// `module_paths`, and there are as many paths as existing files.
pub proof fn lemma_module_paths_are_existing_files(
    r: AnalysisResult,
    report: JsonValue,
    version: Seq<char>,
    executable: Seq<char>,
    present: Seq<bool>,
)
    requires
        present.len() == report_modules(report).len(),
        analysis_of(r, report, version, executable, present),
    ensures
        r.module_paths.len() == count_set(present),
        forall|k: int|
            0 <= k < present.len() && present[k] ==> r.module_paths.deep_view().contains(
                #[trigger] report_modules(report)[k].1,
            ),
{
    lemma_present_files(report_modules(report), present);
    assert(r.module_paths.deep_view().len() == r.module_paths.len());
}

/// The requirements file for the analysis: one external package per line.
pub fn generate_requirements(analysis: &AnalysisResult) -> (r: String)
    ensures
        r@ == terminated(analysis.external_packages.deep_view(), "\n"@),
{
    terminate_strings(&analysis.external_packages, "\n")
}

/// Reading the requirements file line by line gives back the external
/// packages, each on its own line and in order, when no package name
/// holds a newline.
pub proof fn lemma_requirements_list_packages(analysis: AnalysisResult)
    requires
        forall|i: int, j: int|
            0 <= i < analysis.external_packages.len() && 0 <= j
                < analysis.external_packages@[i]@.len() ==> #[trigger] analysis.external_packages@[i]@[j]
                != '\n',
    ensures
        lines(terminated(analysis.external_packages.deep_view(), "\n"@))
            == analysis.external_packages.deep_view(),
{
    let ps = analysis.external_packages.deep_view();
    assert forall|i: int, j: int| 0 <= i < ps.len() && 0 <= j < ps[i].len() implies #[trigger] ps[i][j]
        != '\n' by {
        assert(ps[i] == analysis.external_packages@[i]@);
    }
    lemma_lines_of_terminated(ps);
}

/// The (key, text) pairs as character sequences.
pub open spec fn pairs_view(v: Seq<(String, String)>) -> Seq<(Seq<char>, Seq<char>)> {
    v.map_values(|p: (String, String)| (p.0@, p.1@))
}

/// The report's modules whose file is a string, with their files.
fn module_files(report: &JsonValue) -> (r: Vec<(String, String)>)
    ensures
        pairs_view(r@) == report_modules(*report),
{
    let mut out: Vec<(String, String)> = Vec::new();
    match report.get("modules") {
        Some(v) => match v.as_object() {
            Some(members) => {
                let mut i: usize = 0;
                assert(pairs_view(out@) =~= string_members(members@.take(0)));
                while i < members.len()
                    invariant
                        i <= members.len(),
                        pairs_view(out@) == string_members(members@.take(i as int)),
                    decreases members.len() - i,
                {
                    assert(members@.take(i + 1).drop_last() =~= members@.take(i as int));
                    assert(members@.take(i + 1).last() == members@[i as int]);
                    match &members[i].1 {
                        JsonValue::Str(path) => {
                            let ghost before = pairs_view(out@);
                            out.push((members[i].0.clone(), path.clone()));
                            assert(pairs_view(out@) =~= before.push((members@[i as int].0@, path@)));
                        },
                        _ => {},
                    }
                    i += 1;
                }
                assert(members@.take(members.len() as int) =~= members@);
            },
            None => {
                assert(pairs_view(out@) =~= Seq::<(Seq<char>, Seq<char>)>::empty());
            },
        },
        None => {
            assert(pairs_view(out@) =~= Seq::<(Seq<char>, Seq<char>)>::empty());
        },
    }
    out
}

/// The keys of the report's `external` object.
fn external_keys(report: &JsonValue) -> (r: Vec<String>)
    ensures
        r.deep_view() == report_external(*report),
{
    let mut out: Vec<String> = Vec::new();
    match report.get("external") {
        Some(v) => match v.as_object() {
            Some(members) => {
                let mut i: usize = 0;
                assert(out.deep_view() =~= member_keys(members@.take(0)));
                while i < members.len()
                    invariant
                        i <= members.len(),
                        out.deep_view() == member_keys(members@.take(i as int)),
                    decreases members.len() - i,
                {
                    let ghost before = out.deep_view();
                    out.push(members[i].0.clone());
                    assert(out.deep_view() =~= before.push(members@[i as int].0@));
                    assert(member_keys(members@.take(i + 1)) =~= member_keys(
                        members@.take(i as int),
                    ).push(members@[i as int].0@));
                    i += 1;
                }
                assert(members@.take(members.len() as int) =~= members@);
            },
            None => {
                assert(out.deep_view() =~= Seq::<Seq<char>>::empty());
            },
        },
        None => {
            assert(out.deep_view() =~= Seq::<Seq<char>>::empty());
        },
    }
    out
}

} // verus!
