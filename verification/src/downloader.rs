//! Choosing the Python build to download from a release's metadata, and
//! the `pip download` request for a target's dependencies.
use vstd::prelude::*;
use crate::json::{JsonValue, decode_json, get_str, json_decode, str_member};
use crate::order::{sort_strings, sorted};
use crate::platform::{Architecture, OperatingSystem, Target};
use crate::text::{
    ends_with,
    find_char,
    has_prefix,
    has_suffix,
    index_of_char,
    join,
    join_strings,
    lemma_find_char_bounds,
    slice_to_string,
    starts_with,
    str_eq,
};

verus! {

/// The python-build-standalone release that runtimes are taken from.
pub const RELEASE_TAG: &'static str = "20240107";

/// The repository that publishes the standalone Python builds.
pub const GITHUB_REPO: &'static str = "indygreg/python-build-standalone";

/// The GitHub API address of the release with tag `tag`.
pub fn release_api_url(tag: &str) -> (r: String)
    ensures
        r@ == "https://api.github.com/repos/"@ + GITHUB_REPO@ + "/releases/tags/"@ + tag@,
{
    let mut s = "https://api.github.com/repos/".to_owned();
    s.append(GITHUB_REPO);
    s.append("/releases/tags/");
    s.append(tag);
    s
}

/// The file name under which a release's metadata is cached: `{tag}.json`.
pub fn release_cache_file_name(tag: &str) -> (r: String)
    ensures
        r@ == tag@ + ".json"@,
{
    let mut s = tag.to_owned();
    s.append(".json");
    s
}

/// The error for a release request that the API answered with `status`
/// (the status line, such as `403 Forbidden`).
pub fn release_request_error(status: &str, tag: &str) -> (r: String)
    ensures
        r@ == "GitHub API error: HTTP "@ + status@ + " — tag: "@ + tag@
            + "\n(API rate limit might be exceeded; clean ~/.cache/pypack/releases/ and retry few minutes later.)"@,
{
    let mut s = "GitHub API error: HTTP ".to_owned();
    s.append(status);
    s.append(" — tag: ");
    s.append(tag);
    s.append(
        "\n(API rate limit might be exceeded; clean ~/.cache/pypack/releases/ and retry few minutes later.)",
    );
    s
}

/// The release metadata kept in the cache, given the cached file's text
/// (`None` when it could not be read): the decoded document, or `None`
/// when there is none to use and the release is fetched again.
pub fn release_from_cache(content: Option<&str>) -> (r: Option<JsonValue>)
    ensures
        match content {
            None => r is None,
            Some(text) => match json_decode(text@) {
                Some(v) => r == Some(v),
                None => r is None,
            },
        },
{
    match content {
        None => None,
        Some(text) => match decode_json(text) {
            Ok(v) => Some(v),
            Err(_) => None,
        },
    }
}

/// The error for an API answer that is no JSON document (the words the
/// HTTP client uses for a body it cannot decode).
pub open spec fn undecodable_release_message() -> Seq<char> {
    "GitHub API response couldn't be parsed: error decoding response body"@
}

/// The release metadata in the API's answer, given its body as text
/// (`None` when the body is not UTF-8): the decoded document, or the error
/// for a body that is no JSON document.
pub fn release_from_response(body: Option<&str>) -> (r: Result<JsonValue, String>)
    ensures
        match body {
            Some(text) => match json_decode(text@) {
                Some(v) => r == Ok::<JsonValue, String>(v),
                None => (r matches Err(e) && e@ == undecodable_release_message()),
            },
            None => (r matches Err(e) && e@ == undecodable_release_message()),
        },
{
    let decoded = match body {
        Some(text) => match decode_json(text) {
            Ok(v) => Some(v),
            Err(_) => None,
        },
        None => None,
    };
    match decoded {
        Some(v) => Ok(v),
        None => Err(
            String::from_str("GitHub API response couldn't be parsed: error decoding response body"),
        ),
    }
}

/// `s` with every trailing `-` removed.
pub open spec fn trim_end_dashes(s: Seq<char>) -> Seq<char>
    decreases s.len(),
{
    if s.len() > 0 && s.last() == '-' {
        trim_end_dashes(s.drop_last())
    } else {
        s
    }
}

/// The start that every asset name of the wanted build has:
/// `cpython-{version}+{tag}-{triplet}-`.
pub open spec fn asset_prefix(version: Seq<char>, tag: Seq<char>, t: Target) -> Seq<char> {
    "cpython-"@ + version + "+"@ + tag + "-"@ + t.spec_triplet() + "-"@
}

/// The start of every asset name of a Python version in a release.
pub open spec fn version_prefix(version: Seq<char>, tag: Seq<char>) -> Seq<char> {
    "cpython-"@ + version + "+"@ + tag
}

/// What stands between the prefix and `install_only.tar.gz` (or, failing
/// that, `install_only.zip`) at the end of `rest`.
pub open spec fn install_variant(rest: Seq<char>) -> Option<Seq<char>> {
    if ends_with(rest, "install_only.tar.gz"@) {
        Some(rest.take(rest.len() - "install_only.tar.gz"@.len()))
    } else if ends_with(rest, "install_only.zip"@) {
        Some(rest.take(rest.len() - "install_only.zip"@.len()))
    } else {
        None
    }
}

/// An asset name is the full installation of the wanted build: it starts
/// with the prefix and ends with an `install_only` archive, with nothing,
/// `shared` or `SHARED` (trailing dashes aside) between; Windows builds
/// are published under either spelling.
pub open spec fn acceptable_asset_name(name: Seq<char>, prefix: Seq<char>) -> bool {
    starts_with(name, prefix) && match install_variant(name.skip(prefix.len() as int)) {
        Some(v) => {
            let w = trim_end_dashes(v);
            w.len() == 0 || w == "shared"@ || w == "SHARED"@
        },
        None => false,
    }
}

/// The asset has a string name that `acceptable_asset_name` accepts.
pub open spec fn asset_selected(asset: JsonValue, prefix: Seq<char>) -> bool {
    match str_member(asset, "name"@) {
        Some(n) => acceptable_asset_name(n, prefix),
        None => false,
    }
}

/// `i` is the first selected asset of `assets`.
pub open spec fn first_selected_at(assets: Seq<JsonValue>, prefix: Seq<char>, i: int) -> bool {
    &&& 0 <= i < assets.len()
    &&& asset_selected(assets[i], prefix)
    &&& forall|j: int| 0 <= j < i ==> !asset_selected(#[trigger] assets[j], prefix)
}

/// Some asset of `assets` is selected.
pub open spec fn any_selected(assets: Seq<JsonValue>, prefix: Seq<char>) -> bool {
    exists|i: int| 0 <= i < assets.len() && asset_selected(#[trigger] assets[i], prefix)
}

/// An asset name that the not-found message lists: an `install_only`
/// archive of the wanted Python version.
pub open spec fn listed_name(name: Seq<char>, vp: Seq<char>) -> bool {
    starts_with(name, vp) && (ends_with(name, "-install_only.tar.gz"@) || ends_with(
        name,
        "-install_only.zip"@,
    ))
}

/// The names that the not-found message lists, in release order.
pub open spec fn listed_names(assets: Seq<JsonValue>, vp: Seq<char>) -> Seq<Seq<char>>
    decreases assets.len(),
{
    if assets.len() == 0 {
        seq![]
    } else {
        let rest = listed_names(assets.drop_last(), vp);
        match str_member(assets.last(), "name"@) {
            Some(n) => if listed_name(n, vp) {
                rest.push(n)
            } else {
                rest
            },
            None => rest,
        }
    }
}

/// The error for a release without the wanted build, given the sorted
/// names of the version's other builds.
pub open spec fn asset_not_found_message(
    version: Seq<char>,
    tag: Seq<char>,
    t: Target,
    available: Seq<Seq<char>>,
) -> Seq<char> {
    if available.len() == 0 {
        "Python "@ + version + " does not exist on this release (tag: "@ + tag
            + ").\nFor version list: https://github.com/"@ + GITHUB_REPO@ + "/releases/tag/"@
            + tag
    } else {
        "Couldn't find any asset for "@ + t.spec_to_string()
            + " target. Available assets on this Python version:\n  "@ + join(
            available,
            "\n  "@,
        )
    }
}

/// The archive that `find_asset` takes is a full installation of the
/// requested Python version for the requested target: its name starts
/// with `cpython-{version}+{tag}-{triplet}-` and ends with
/// `install_only.tar.gz` or `install_only.zip`.
pub proof fn lemma_selected_asset_is_for_target(
    assets: Seq<JsonValue>,
    version: Seq<char>,
    tag: Seq<char>,
    t: Target,
    i: int,
)
    requires
        first_selected_at(assets, asset_prefix(version, tag, t), i),
    ensures
        str_member(assets[i], "name"@) matches Some(n) && starts_with(
            n,
            asset_prefix(version, tag, t),
        ) && (ends_with(n, "install_only.tar.gz"@) || ends_with(n, "install_only.zip"@)),
{
    let prefix = asset_prefix(version, tag, t);
    let n = str_member(assets[i], "name"@).unwrap();
    let rest = n.skip(prefix.len() as int);
    assert(acceptable_asset_name(n, prefix));
    assert(ends_with(rest, "install_only.tar.gz"@) || ends_with(rest, "install_only.zip"@));
    let tgz = "install_only.tar.gz"@;
    let zip = "install_only.zip"@;
    if ends_with(rest, tgz) {
        assert(rest.skip(rest.len() - tgz.len()) =~= n.skip(n.len() - tgz.len()));
    } else {
        assert(rest.skip(rest.len() - zip.len()) =~= n.skip(n.len() - zip.len()));
    }
}

/// Does the asset name `name` denote the full installation that `prefix`
/// starts?
pub fn is_acceptable_asset_name(name: &str, prefix: &str) -> (r: bool)
    ensures
        r == acceptable_asset_name(name@, prefix@),
{
    if !has_prefix(name, prefix) {
        return false;
    }
    let n = name.unicode_len();
    let p = prefix.unicode_len();
    let rest = name.substring_char(p, n);
    assert(rest@ =~= name@.skip(p as int));
    let rn = rest.unicode_len();
    let cut = if has_suffix(rest, "install_only.tar.gz") {
        rn - "install_only.tar.gz".unicode_len()
    } else if has_suffix(rest, "install_only.zip") {
        rn - "install_only.zip".unicode_len()
    } else {
        return false;
    };
    let variant = rest.substring_char(0, cut);
    assert(variant@ =~= rest@.take(cut as int));
    let mut k = cut;
    assert(variant@.take(cut as int) =~= variant@);
    while k > 0 && variant.get_char(k - 1) == '-'
        invariant
            k <= cut,
            cut == variant@.len(),
            trim_end_dashes(variant@) == trim_end_dashes(variant@.take(k as int)),
        decreases k,
    {
        assert(variant@.take(k as int).drop_last() =~= variant@.take(k - 1));
        k -= 1;
    }
    assert(trim_end_dashes(variant@) == variant@.take(k as int));
    let w = variant.substring_char(0, k);
    assert(w@ =~= variant@.take(k as int));
    k == 0 || str_eq(w, "shared") || str_eq(w, "SHARED")
}

/// Does `name` belong in the list of a version's builds?
pub fn is_listed_name(name: &str, vp: &str) -> (r: bool)
    ensures
        r == listed_name(name@, vp@),
{
    has_prefix(name, vp) && (has_suffix(name, "-install_only.tar.gz") || has_suffix(
        name,
        "-install_only.zip",
    ))
}

/// Finds, among a release's assets, the full-installation archive of
/// `python_version` for `target`, and returns its download URL and name.
///
/// The assets are the array `assets` of `release`; the first one whose
/// name is accepted is taken. Without such an asset the error lists, in
/// sorted order, the version's `install_only` archives for other targets,
/// or says that the release lacks the version.
pub fn find_asset(release: &JsonValue, target: &Target, python_version: &str, release_tag: &str) -> (r:
    Result<(String, String), String>)
    ensures
        match release.spec_get("assets"@) {
            Some(JsonValue::Array(list)) => {
                let assets = list@;
                let prefix = asset_prefix(python_version@, release_tag@, *target);
                if any_selected(assets, prefix) {
                    let i = choose|i: int| first_selected_at(assets, prefix, i);
                    match str_member(assets[i], "browser_download_url"@) {
                        Some(url) => (r matches Ok((u, n)) && u@ == url && str_member(
                            assets[i],
                            "name"@,
                        ) == Some(n@)),
                        None => (r matches Err(e) && e@ == "Couldn't read asset download URL"@),
                    }
                } else {
                    (r matches Err(e) && exists|available: Seq<Seq<char>>|
                        {
                            &&& sorted(available)
                            &&& available.to_multiset() == listed_names(
                                assets,
                                version_prefix(python_version@, release_tag@),
                            ).to_multiset()
                            &&& e@ == asset_not_found_message(
                                python_version@,
                                release_tag@,
                                *target,
                                available,
                            )
                        })
                }
            },
            _ => (r matches Err(e) && e@ == "Couldn't read release asset list"@),
        },
{
    let mut prefix = String::from_str("cpython-");
    prefix.append(python_version);
    prefix.append("+");
    prefix.append(release_tag);
    prefix.append("-");
    let triplet = target.triplet();
    prefix.append(triplet.as_str());
    prefix.append("-");
    let assets = match release.get("assets") {
        Some(v) => match v.as_array() {
            Some(a) => a,
            None => {
                return Err("Couldn't read release asset list".to_owned());
            },
        },
        None => {
            return Err("Couldn't read release asset list".to_owned());
        },
    };
    let ghost pv = prefix@;
    assert(pv == asset_prefix(python_version@, release_tag@, *target));
    let mut i: usize = 0;
    while i < assets.len()
        invariant
            i <= assets.len(),
            pv == prefix@,
            pv == asset_prefix(python_version@, release_tag@, *target),
            release.spec_get("assets"@) == Some(JsonValue::Array(*assets)),
            forall|j: int| 0 <= j < i ==> !asset_selected(#[trigger] assets@[j], pv),
        decreases assets.len() - i,
    {
        let asset = &assets[i];
        match get_str(asset, "name") {
            Some(name) => {
                if is_acceptable_asset_name(name.as_str(), prefix.as_str()) {
                    assert(first_selected_at(assets@, pv, i as int));
                    assert(forall|k: int|
                        first_selected_at(assets@, pv, k) ==> k == i as int);
                    return match get_str(asset, "browser_download_url") {
                        Some(url) => Ok((url.clone(), name.clone())),
                        None => Err("Couldn't read asset download URL".to_owned()),
                    };
                }
            },
            None => {},
        }
        i += 1;
    }
    assert(!any_selected(assets@, pv));
    let mut vp = String::from_str("cpython-");
    vp.append(python_version);
    vp.append("+");
    vp.append(release_tag);
    let ghost vpv = vp@;
    let mut names: Vec<String> = Vec::new();
    let mut j: usize = 0;
    while j < assets.len()
        invariant
            j <= assets.len(),
            vpv == vp@,
            vpv == version_prefix(python_version@, release_tag@),
            !any_selected(assets@, asset_prefix(python_version@, release_tag@, *target)),
            release.spec_get("assets"@) == Some(JsonValue::Array(*assets)),
            names.deep_view() == listed_names(assets@.take(j as int), vpv),
        decreases assets.len() - j,
    {
        let ghost pre = assets@.take(j as int);
        assert(assets@.take(j + 1).drop_last() =~= pre);
        assert(assets@.take(j + 1).last() == assets@[j as int]);
        match get_str(&assets[j], "name") {
            Some(name) => {
                if is_listed_name(name.as_str(), vp.as_str()) {
                    let ghost before = names.deep_view();
                    names.push(name.clone());
                    assert(names.deep_view() =~= before.push(name@));
                }
            },
            None => {},
        }
        j += 1;
    }
    assert(assets@.take(assets.len() as int) =~= assets@);
    let available = sort_strings(&names);
    if available.len() == 0 {
        let mut e = String::from_str("Python ");
        e.append(python_version);
        e.append(" does not exist on this release (tag: ");
        e.append(release_tag);
        e.append(").\nFor version list: https://github.com/");
        e.append(GITHUB_REPO);
        e.append("/releases/tag/");
        e.append(release_tag);
        Err(e)
    } else {
        let mut e = String::from_str("Couldn't find any asset for ");
        let t = target.to_string();
        e.append(t.as_str());
        e.append(" target. Available assets on this Python version:\n  ");
        let list = join_strings(&available, "\n  ");
        e.append(list.as_str());
        Err(e)
    }
}

/// The platform tag that `pip download --platform` takes for a target.
pub open spec fn pip_platform_tag(t: Target) -> Seq<char> {
    match (t.os, t.arch) {
        (OperatingSystem::Linux, Architecture::X86_64) => "manylinux2014_x86_64"@,
        (OperatingSystem::Linux, Architecture::Aarch64) => "manylinux2014_aarch64"@,
        (OperatingSystem::Macos, Architecture::X86_64) => "macosx_10_9_x86_64"@,
        (OperatingSystem::Macos, Architecture::Aarch64) => "macosx_11_0_arm64"@,
        (OperatingSystem::Windows, Architecture::X86_64) => "win_amd64"@,
        (OperatingSystem::Windows, Architecture::Aarch64) => "win_arm64"@,
    }
}

/// The `pip download --platform` tag for a target's wheels.
pub fn pip_platform(target: &Target) -> (r: &'static str)
    ensures
        r@ == pip_platform_tag(*target),
{
    match (target.os, target.arch) {
        (OperatingSystem::Linux, Architecture::X86_64) => "manylinux2014_x86_64",
        (OperatingSystem::Linux, Architecture::Aarch64) => "manylinux2014_aarch64",
        (OperatingSystem::Macos, Architecture::X86_64) => "macosx_10_9_x86_64",
        (OperatingSystem::Macos, Architecture::Aarch64) => "macosx_11_0_arm64",
        (OperatingSystem::Windows, Architecture::X86_64) => "win_amd64",
        (OperatingSystem::Windows, Architecture::Aarch64) => "win_arm64",
    }
}

/// The first two dot-separated parts of a version, joined by a dot
/// (`3.11.7` gives `3.11`): `split('.').take(2).join(".")`.
pub open spec fn major_minor(v: Seq<char>) -> Seq<char> {
    let k1 = find_char(v, '.');
    if k1 >= v.len() {
        v
    } else {
        let rest = v.skip(k1 + 1 as int);
        let k2 = find_char(rest, '.');
        if k2 >= rest.len() {
            v
        } else {
            v.take(k1 + 1 + k2 as int)
        }
    }
}

/// The `major.minor` part of a Python version, as pip takes it.
pub fn python_major_minor(version: &str) -> (r: String)
    ensures
        r@ == major_minor(version@),
{
    let n = version.unicode_len();
    let k1 = index_of_char(version, '.');
    proof {
        lemma_find_char_bounds(version@, '.');
    }
    if k1 >= n {
        return version.to_owned();
    }
    let rest = version.substring_char(k1 + 1, n);
    assert(rest@ =~= version@.skip(k1 + 1));
    let k2 = index_of_char(rest, '.');
    proof {
        lemma_find_char_bounds(rest@, '.');
    }
    if k2 >= rest.unicode_len() {
        return version.to_owned();
    }
    slice_to_string(version, 0, k1 + 1 + k2)
}

/// The arguments of `python -m pip download ...` for `packages`, or `None`
/// when there is nothing to download. `dest` is the output directory as a
/// string (`.` stands in for one that is not valid UTF-8).
pub open spec fn pip_download_arguments(
    dest: Option<Seq<char>>,
    t: Target,
    version: Seq<char>,
    packages: Seq<Seq<char>>,
) -> Option<Seq<Seq<char>>> {
    if packages.len() == 0 {
        None
    } else {
        Some(
            seq![
                "-m"@,
                "pip"@,
                "download"@,
                "--dest"@,
                match dest {
                    Some(d) => d,
                    None => "."@,
                },
                "--platform"@,
                pip_platform_tag(t),
                "--only-binary=:all:"@,
                "--python-version"@,
                major_minor(version),
            ] + packages,
        )
    }
}

/// The command-line arguments that download `packages` as wheels for
/// `target` and `python_version` into `dest`; `None` when `packages` is
/// empty, where nothing is run.
pub fn pip_download_args(
    dest: Option<&str>,
    target: &Target,
    python_version: &str,
    packages: &Vec<String>,
) -> (r: Option<Vec<String>>)
    ensures
        match r {
            Some(a) => pip_download_arguments(
                match dest {
                    Some(d) => Some(d@),
                    None => None,
                },
                *target,
                python_version@,
                packages.deep_view(),
            ) == Some(a.deep_view()),
            None => packages.len() == 0,
        },
{
    if packages.len() == 0 {
        return None;
    }
    let mut args: Vec<String> = Vec::new();
    args.push("-m".to_owned());
    args.push("pip".to_owned());
    args.push("download".to_owned());
    args.push("--dest".to_owned());
    match dest {
        Some(d) => args.push(d.to_owned()),
        None => args.push(".".to_owned()),
    }
    args.push("--platform".to_owned());
    args.push(pip_platform(target).to_owned());
    args.push("--only-binary=:all:".to_owned());
    args.push("--python-version".to_owned());
    args.push(python_major_minor(python_version));
    let ghost head = args.deep_view();
    let mut i: usize = 0;
    while i < packages.len()
        invariant
            i <= packages.len(),
            args.deep_view() == head + packages.deep_view().take(i as int),
        decreases packages.len() - i,
    {
        let ghost before = args.deep_view();
        args.push(packages[i].clone());
        assert(packages.deep_view().take(i + 1) =~= packages.deep_view().take(i as int).push(
            packages@[i as int]@,
        ));
        assert(args.deep_view() =~= before.push(packages@[i as int]@));
        i += 1;
    }
    assert(packages.deep_view().take(packages.len() as int) =~= packages.deep_view());
    let ghost expected = pip_download_arguments(
        match dest {
            Some(d) => Some(d@),
            None => None,
        },
        *target,
        python_version@,
        packages.deep_view(),
    );
    assert(expected == Some(args.deep_view()));
    Some(args)
}

/// The archive formats that Python runtimes come in.
#[derive(Debug, Clone, Copy, PartialEq, Eq, Structural)]
pub enum ArchiveFormat {
    Zip,
    TarGz,
}

/// The archive format that a file extension names, or the error for an
/// extension that names none (`zip` and `gz` are known).
pub fn archive_format(extension: &str) -> (r: Result<ArchiveFormat, String>)
    ensures
        extension@ == "zip"@ ==> r == Ok::<ArchiveFormat, String>(ArchiveFormat::Zip),
        extension@ != "zip"@ && extension@ == "gz"@ ==> r == Ok::<ArchiveFormat, String>(
            ArchiveFormat::TarGz,
        ),
        extension@ != "zip"@ && extension@ != "gz"@ ==> (r matches Err(e) && e@
            == "Unsupported archive format: "@ + extension@),
{
    if str_eq(extension, "zip") {
        Ok(ArchiveFormat::Zip)
    } else if str_eq(extension, "gz") {
        Ok(ArchiveFormat::TarGz)
    } else {
        let mut e = String::from_str("Unsupported archive format: ");
        e.append(extension);
        Err(e)
    }
}

} // verus!
