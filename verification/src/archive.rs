//! Unpacking ZIP archives (wheels, and runtimes published as `.zip`): the
//! `zip` crate reads the archive's entries from its bytes, and the library
//! decides which directories and files to write where.
use vstd::prelude::*;
use crate::platform::OperatingSystem;
use crate::runtime::{join, join_path};
use crate::text::{ends_with, has_suffix};

verus! {

/// An entry of a ZIP archive.
pub struct ZipEntry {
    /// The entry's name as the archive stores it (a relative path).
    pub name: String,
    /// Whether the entry is a directory.
    pub is_dir: bool,
    /// The entry's decompressed contents (empty for a directory).
    pub data: Vec<u8>,
}

impl ZipEntry {
    pub open spec fn spec_view(self) -> (Seq<char>, bool, Seq<u8>) {
        (self.name@, self.is_dir, self.data@)
    }
}

/// The views of a list of entries.
pub open spec fn entries_view(entries: Seq<ZipEntry>) -> Seq<(Seq<char>, bool, Seq<u8>)> {
    entries.map_values(|e: ZipEntry| e.spec_view())
}

/// The entries, in archive order, that the `zip` crate reads from the
/// archive `bytes`, or `None` where it refuses them.
pub uninterp spec fn zip_contents(bytes: Seq<u8>) -> Option<Seq<(Seq<char>, bool, Seq<u8>)>>;

/// `zip::ZipArchive::new` over `bytes`, then for each index `by_index`,
/// `name`, `is_dir` and `read_to_end`: the archive's entries, in order.
/// The result is `zip_contents(bytes)`; the error's text is the `zip`
/// crate's (or the reader's) message, which is not stated.
#[verifier::external_body]
fn zip_entries(bytes: &[u8]) -> (r: Result<Vec<ZipEntry>, String>)
    ensures
        r matches Ok(v) ==> zip_contents(bytes@) == Some(entries_view(v@)),
        r is Err ==> zip_contents(bytes@) is None,
{
    let mut archive = zip::ZipArchive::new(std::io::Cursor::new(bytes)).map_err(|e| e.to_string())?;
    let mut entries = Vec::new();
    for i in 0..archive.len() {
        let mut file = archive.by_index(i).map_err(|e| e.to_string())?;
        let mut data = Vec::new();
        std::io::Read::read_to_end(&mut file, &mut data).map_err(|e| e.to_string())?;
        entries.push(ZipEntry { name: file.name().to_string(), is_dir: file.is_dir(), data });
    }
    Ok(entries)
}

/// What unpacking writes for one entry into `dir` on a host with the path
/// conventions of `host`: the entry's path under `dir`, with no contents
/// for a directory (which is created) and the entry's contents for a file
/// (whose parent directories are created first).
pub open spec fn unpack_step(
    host: OperatingSystem,
    dir: Seq<char>,
    e: (Seq<char>, bool, Seq<u8>),
) -> (Seq<char>, Option<Seq<u8>>) {
    (join_path(host, dir, e.0), if e.1 {
        None
    } else {
        Some(e.2)
    })
}

/// Unpacking makes a directory exactly for a directory entry; every other
/// entry is written as a file at `dir` joined with its name, with its own
/// bytes, empty ones included.
pub proof fn lemma_unpack_step(
    host: OperatingSystem,
    dir: Seq<char>,
    name: Seq<char>,
    is_dir: bool,
    data: Seq<u8>,
)
    ensures
        unpack_step(host, dir, (name, is_dir, data)).0 == join_path(host, dir, name),
        is_dir ==> unpack_step(host, dir, (name, is_dir, data)).1 is None,
        !is_dir ==> unpack_step(host, dir, (name, is_dir, data)).1 == Some(data),
        !is_dir && data.len() == 0 ==> unpack_step(host, dir, (name, is_dir, data)).1 == Some(
            Seq::<u8>::empty(),
        ),
{
}

/// The views of planned writes.
pub open spec fn writes_view(w: Seq<(String, Option<Vec<u8>>)>) -> Seq<(Seq<char>, Option<Seq<u8>>)> {
    w.map_values(
        |x: (String, Option<Vec<u8>>)|
            (
                x.0@,
                match x.1 {
                    Some(d) => Some(d@),
                    None => None,
                },
            ),
    )
}

/// The writes that unpack `entries` into `dir`, one per entry, in order.
pub fn unpack_plan(host: OperatingSystem, dir: &str, entries: Vec<ZipEntry>) -> (r: Vec<
    (String, Option<Vec<u8>>),
>)
    ensures
        r.len() == entries.len(),
        forall|i: int|
            0 <= i < r.len() ==> #[trigger] writes_view(r@)[i] == unpack_step(
                host,
                dir@,
                entries@[i].spec_view(),
            ),
{
    let ghost original = entries@;
    let mut entries = entries;
    let mut out: Vec<(String, Option<Vec<u8>>)> = Vec::new();
    let n = entries.len();
    let mut i: usize = 0;
    while i < n
        invariant
            n == original.len(),
            i <= n,
            out.len() == i,
            entries@ == original.skip(i as int),
            forall|k: int|
                0 <= k < i ==> #[trigger] writes_view(out@)[k] == unpack_step(
                    host,
                    dir@,
                    original[k].spec_view(),
                ),
        decreases n - i,
    {
        let e = entries.remove(0);
        assert(e == original[i as int]);
        assert(entries@ =~= original.skip(i + 1));
        let path = join(host, dir, e.name.as_str());
        let data = if e.is_dir {
            None
        } else {
            Some(e.data)
        };
        let ghost before = out@;
        out.push((path, data));
        assert(writes_view(out@) =~= writes_view(before).push(writes_view(out@)[i as int]));
        assert(writes_view(out@)[i as int] == unpack_step(host, dir@, original[i as int].spec_view()));
        i += 1;
    }
    out
}

/// Unpacks the ZIP archive `bytes` into `dir`: the writes for its entries,
/// in archive order, or the `zip` crate's message where it refuses the
/// archive.
pub fn unpack_zip(host: OperatingSystem, dir: &str, bytes: &[u8]) -> (r: Result<
    Vec<(String, Option<Vec<u8>>)>,
    String,
>)
    ensures
        match zip_contents(bytes@) {
            Some(es) => (r matches Ok(w) && w.len() == es.len() && forall|i: int|
                0 <= i < w.len() ==> #[trigger] writes_view(w@)[i] == unpack_step(host, dir@, es[i])),
            None => r is Err,
        },
{
    match zip_entries(bytes) {
        Ok(entries) => {
            let ghost es = entries_view(entries@);
            let w = unpack_plan(host, dir, entries);
            assert(forall|i: int| 0 <= i < es.len() ==> es[i] == #[trigger] entries@[i].spec_view());
            Ok(w)
        },
        Err(e) => Err(e),
    }
}

/// A file name that `Path::extension` gives `whl`: it ends with `.whl`
/// after at least one other character.
pub open spec fn is_wheel_name(name: Seq<char>) -> bool {
    ends_with(name, ".whl"@) && name.len() > 4
}

/// The names among `names` that are wheels, in order.
pub open spec fn wheels(names: Seq<Seq<char>>) -> Seq<Seq<char>>
    decreases names.len(),
{
    if names.len() == 0 {
        seq![]
    } else {
        let rest = wheels(names.drop_last());
        if is_wheel_name(names.last()) {
            rest.push(names.last())
        } else {
            rest
        }
    }
}

/// The wheel files among the names of a directory's entries, in order.
pub fn wheel_names(names: &Vec<String>) -> (r: Vec<String>)
    ensures
        r.deep_view() == wheels(names.deep_view()),
{
    let mut out: Vec<String> = Vec::new();
    let mut i: usize = 0;
    assert(names.deep_view().take(0) =~= Seq::<Seq<char>>::empty());
    while i < names.len()
        invariant
            i <= names.len(),
            out.deep_view() == wheels(names.deep_view().take(i as int)),
        decreases names.len() - i,
    {
        let ghost pre = names.deep_view().take(i as int);
        let ghost post = names.deep_view().take(i + 1);
        assert(post.drop_last() =~= pre);
        assert(post.last() == names@[i as int]@);
        let name = names[i].as_str();
        if has_suffix(name, ".whl") && name.unicode_len() > 4 {
            let ghost before = out.deep_view();
            out.push(names[i].clone());
            assert(out.deep_view() =~= before.push(name@));
        }
        i += 1;
    }
    assert(names.deep_view().take(names.len() as int) =~= names.deep_view());
    out
}

} // verus!
