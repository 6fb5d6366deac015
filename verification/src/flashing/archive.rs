use vstd::prelude::*;
use crate::flashing::decompressor::{Decompressor, xz_decoded};
use crate::paths::{CompView, components, path_components};
use crate::text::chars_of;

verus! {

broadcast use vstd::string::group_string_axioms;

/// One entry of an archive: its path inside the archive, whether it is a
/// directory, and its bytes (empty for a directory).
#[derive(Debug, Clone)]
pub struct ArchiveEntry {
    pub path: String,
    pub is_dir: bool,
    pub data: Vec<u8>,
}

impl View for ArchiveEntry {
    type V = (Seq<char>, bool, Seq<u8>);

    open spec fn view(&self) -> (Seq<char>, bool, Seq<u8>) {
        (self.path@, self.is_dir, self.data@)
    }
}

pub open spec fn entries_view(v: Seq<ArchiveEntry>) -> Seq<(Seq<char>, bool, Seq<u8>)> {
    Seq::new(v.len(), |i: int| v[i]@)
}

/// Why an archive could not be read.
#[derive(Debug, Clone, Copy, PartialEq, Eq)]
pub enum ArchiveError {
    /// The data is not a readable archive (or not a valid compressed one).
    Unreadable,
}

/// What `tar::Archive::entries` gives at `index` over `data`: `Some(None)`
/// past the last entry, `Some(Some(entry))` for an entry that reads (its
/// path, whether its header says directory, its bytes), `None` on an error.
pub uninterp spec fn tar_entry_at(data: Seq<u8>, index: usize) -> Option<Option<(Seq<char>, bool, Seq<u8>)>>;

/// How many entries `zip::ZipArchive::new` finds in `data`, or `None` when it
/// is not a readable zip archive.
pub uninterp spec fn zip_count(data: Seq<u8>) -> Option<usize>;

/// What `zip::ZipArchive::by_index` gives at `index` over `data`: the entry's
/// enclosed name (`None` for a name that would leave the target directory),
/// whether it is a directory, and its bytes; `None` on an error.
pub uninterp spec fn zip_entry_at(data: Seq<u8>, index: usize) -> Option<(Option<Seq<char>>, bool, Seq<u8>)>;

pub open spec fn tar_entry_view(r: Option<Option<(String, bool, Vec<u8>)>>) -> Option<Option<(Seq<char>, bool, Seq<u8>)>> {
    match r {
        Some(Some((p, d, b))) => Some(Some((p@, d, b@))),
        Some(None) => Some(None),
        None => None,
    }
}

pub open spec fn zip_entry_view(r: Option<(Option<String>, bool, Vec<u8>)>) -> Option<(Option<Seq<char>>, bool, Seq<u8>)> {
    match r {
        Some((Some(p), d, b)) => Some((Some(p@), d, b@)),
        Some((None, d, b)) => Some((None, d, b@)),
        None => None,
    }
}

/// `tar::Archive::new` over the data, `entries`, `nth(index)`, then the
/// entry's `path` (lossily as text), its header's `entry_type().is_dir()` and
/// `read_to_end`. The result is a function of the data and the index alone
/// and is named.
#[verifier::external_body]
fn tar_entry(data: &[u8], index: usize) -> (r: Option<Option<(String, bool, Vec<u8>)>>)
    ensures
        tar_entry_view(r) == tar_entry_at(data@, index),
{
    let mut archive = tar::Archive::new(data);
    let mut entries = archive.entries().ok()?;
    let mut entry = match entries.nth(index) {
        Some(e) => e.ok()?,
        None => return Some(None),
    };
    let path = entry.path().ok()?.to_string_lossy().into_owned();
    let is_dir = entry.header().entry_type().is_dir();
    let mut bytes = Vec::new();
    std::io::Read::read_to_end(&mut entry, &mut bytes).ok()?;
    Some(Some((path, is_dir, bytes)))
}

/// `zip::ZipArchive::new` over the data, then `len`. The result is a function
/// of the data alone and is named.
#[verifier::external_body]
fn zip_len(data: &[u8]) -> (r: Option<usize>)
    ensures
        r == zip_count(data@),
{
    match zip::ZipArchive::new(std::io::Cursor::new(data)) {
        Ok(archive) => Some(archive.len()),
        Err(_) => None,
    }
}

/// `zip::ZipArchive::new` over the data, `by_index(index)`, then the entry's
/// `enclosed_name` (as text), `is_dir` and `read_to_end`. The result is a
/// function of the data and the index alone and is named.
#[verifier::external_body]
fn zip_entry(data: &[u8], index: usize) -> (r: Option<(Option<String>, bool, Vec<u8>)>)
    ensures
        zip_entry_view(r) == zip_entry_at(data@, index),
{
    let mut archive = zip::ZipArchive::new(std::io::Cursor::new(data)).ok()?;
    let mut file = archive.by_index(index).ok()?;
    let name = match file.enclosed_name() {
        Some(p) => Some(p.to_string_lossy().into_owned()),
        None => None,
    };
    let is_dir = file.is_dir();
    let mut bytes = Vec::new();
    std::io::Read::read_to_end(&mut file, &mut bytes).ok()?;
    Some((name, is_dir, bytes))
}

/// `es` is the whole listing of a tar archive: entry `j` reads as `es[j]`
/// and the archive ends after the last.
pub open spec fn tar_listing(data: Seq<u8>, es: Seq<(Seq<char>, bool, Seq<u8>)>) -> bool {
    &&& forall|j: int| 0 <= j < es.len() ==> #[trigger] tar_entry_at(data, j as usize) == Some(Some(es[j]))
    &&& tar_entry_at(data, es.len() as usize) == Some(None::<(Seq<char>, bool, Seq<u8>)>)
}

/// The entries of a zip archive, when it opens and every entry reads.
pub open spec fn zip_entries(data: Seq<u8>) -> Option<Seq<(Option<Seq<char>>, bool, Seq<u8>)>> {
    match zip_count(data) {
        None => None,
        Some(n) => if forall|j: int| 0 <= j < n ==> #[trigger] zip_entry_at(data, j as usize) is Some {
            Some(Seq::new(n as nat, |j: int| zip_entry_at(data, j as usize)->0))
        } else {
            None
        },
    }
}

/// The entries whose names stay inside the target directory, by those names.
pub open spec fn enclosed(es: Seq<(Option<Seq<char>>, bool, Seq<u8>)>) -> Seq<(Seq<char>, bool, Seq<u8>)>
    decreases es.len(),
{
    if es.len() == 0 {
        seq![]
    } else {
        let e = es.last();
        match e.0 {
            Some(n) => enclosed(es.drop_last()).push((n, e.1, e.2)),
            None => enclosed(es.drop_last()),
        }
    }
}

/// A path that stays inside the directory it is joined to: not empty, and
/// with no root or `..` component.
pub open spec fn contained(path: Seq<char>) -> bool {
    &&& components(path).len() > 0
    &&& forall|i: int|
        0 <= i < components(path).len() ==> !(#[trigger] components(path)[i] is Root) && !(components(path)[i] is Parent)
}

/// The entries with contained paths, in order.
pub open spec fn contained_entries(es: Seq<(Seq<char>, bool, Seq<u8>)>) -> Seq<(Seq<char>, bool, Seq<u8>)>
    decreases es.len(),
{
    if es.len() == 0 {
        seq![]
    } else if contained(es.last().0) {
        contained_entries(es.drop_last()).push(es.last())
    } else {
        contained_entries(es.drop_last())
    }
}

/// Whether a path stays inside the directory it is joined to.
pub fn is_contained(path: &str) -> (r: bool)
    ensures
        r == contained(path@),
{
    let chars = chars_of(path);
    let comps = path_components(&chars);
    let ghost cv = components(path@);
    if comps.len() == 0 {
        return false;
    }
    for i in 0..comps.len()
        invariant
            crate::paths::comp_views(comps@) == cv,
            cv == components(path@),
            forall|j: int| 0 <= j < i ==> !(#[trigger] cv[j] is Root) && !(cv[j] is Parent),
    {
        assert(cv[i as int] == comps@[i as int]@);
        match &comps[i] {
            crate::paths::Comp::Root => {
                return false;
            },
            crate::paths::Comp::Parent => {
                return false;
            },
            _ => {},
        }
    }
    true
}

fn entry_of(t: (String, bool, Vec<u8>)) -> (r: ArchiveEntry)
    ensures
        r@ == (t.0@, t.1, t.2@),
{
    let (path, is_dir, data) = t;
    ArchiveEntry { path, is_dir, data }
}

/// Every entry of a tar archive, in order. An archive is read to its end or
/// refused; one that claims more entries than it has bytes is refused too.
pub fn tar_files(data: &[u8]) -> (r: Result<Vec<ArchiveEntry>, ArchiveError>)
    ensures
        match r {
            Ok(v) => v.len() <= data.len() && tar_listing(data@, entries_view(v@)),
            Err(e) => e == ArchiveError::Unreadable && forall|es: Seq<(Seq<char>, bool, Seq<u8>)>|
                es.len() <= data.len() ==> !#[trigger] tar_listing(data@, es),
        },
{
    let n = data.len();
    let mut v: Vec<ArchiveEntry> = Vec::new();
    let mut i: usize = 0;
    loop
        invariant
            n == data.len(),
            i <= n,
            v.len() == i,
            forall|j: int| 0 <= j < i ==> #[trigger] tar_entry_at(data@, j as usize) == Some(Some(entries_view(v@)[j])),
        decreases n - i,
    {
        match tar_entry(data, i) {
            None => {
                assert forall|es: Seq<(Seq<char>, bool, Seq<u8>)>| es.len() <= data.len() implies !#[trigger] tar_listing(
                    data@,
                    es,
                ) by {
                    if tar_listing(data@, es) {
                        if es.len() < i {
                            assert(tar_entry_at(data@, es.len() as usize) == Some(Some(entries_view(v@)[es.len() as int])));
                        } else if es.len() > i {
                            assert(tar_entry_at(data@, (i as int) as usize) == Some(Some(es[i as int])));
                        }
                    }
                }
                return Err(ArchiveError::Unreadable);
            },
            Some(None) => {
                proof {
                    let ev = entries_view(v@);
                    assert forall|j: int| 0 <= j < ev.len() implies #[trigger] tar_entry_at(data@, j as usize) == Some(Some(ev[j])) by {
                        assert(tar_entry_at(data@, j as usize) == Some(Some(entries_view(v@)[j])));
                    }
                }
                return Ok(v);
            },
            Some(Some(t)) => {
                let ghost before = entries_view(v@);
                v.push(entry_of(t));
                assert(entries_view(v@) =~= before.push(v@[i as int]@));
                if i == n {
                    assert forall|es: Seq<(Seq<char>, bool, Seq<u8>)>| es.len() <= data.len() implies !#[trigger] tar_listing(
                        data@,
                        es,
                    ) by {
                        if tar_listing(data@, es) {
                            assert(tar_entry_at(data@, es.len() as usize) == Some(Some(entries_view(v@)[es.len() as int])));
                        }
                    }
                    return Err(ArchiveError::Unreadable);
                }
                i = i + 1;
            },
        }
    }
}

/// The entries of a zip archive whose names stay inside the target
/// directory, by those names, in order; an archive that does not open, or
/// one of whose entries does not read, is refused.
pub fn zip_files(data: &[u8]) -> (r: Result<Vec<ArchiveEntry>, ArchiveError>)
    ensures
        match r {
            Ok(v) => zip_entries(data@) matches Some(es) && entries_view(v@) == enclosed(es),
            Err(e) => e == ArchiveError::Unreadable && zip_entries(data@) is None,
        },
{
    let n = match zip_len(data) {
        Some(n) => n,
        None => {
            return Err(ArchiveError::Unreadable);
        },
    };
    let ghost all = Seq::new(n as nat, |j: int| zip_entry_at(data@, j as usize)->0);
    let mut v: Vec<ArchiveEntry> = Vec::new();
    for i in 0..n
        invariant
            zip_count(data@) == Some(n),
            all == Seq::new(n as nat, |j: int| zip_entry_at(data@, j as usize)->0),
            forall|j: int| 0 <= j < i ==> #[trigger] zip_entry_at(data@, j as usize) is Some,
            entries_view(v@) == enclosed(all.take(i as int)),
    {
        let ghost before = entries_view(v@);
        let e = zip_entry(data, i);
        assert(all.take(i + 1).drop_last() =~= all.take(i as int));
        match e {
            None => {
                assert(!(forall|j: int| 0 <= j < n ==> #[trigger] zip_entry_at(data@, j as usize) is Some)) by {
                    assert(zip_entry_at(data@, (i as int) as usize) is None);
                }
                return Err(ArchiveError::Unreadable);
            },
            Some((name, is_dir, bytes)) => {
                assert(all.take(i + 1).last() == all[i as int]);
                assert(all[i as int] == zip_entry_at(data@, (i as int) as usize)->0);
                match name {
                    Some(p) => {
                        v.push(ArchiveEntry { path: p, is_dir, data: bytes });
                        assert(entries_view(v@) =~= before.push(v@[v.len() - 1]@));
                    },
                    None => {},
                }
            },
        }
    }
    assert(all.take(n as int) =~= all);
    Ok(v)
}

/// The entries of a `.tar.xz` archive with contained paths, in order; the
/// others are left out (as unpacking would leave them out).
pub fn tar_xz_files(data: &[u8]) -> (r: Result<Vec<ArchiveEntry>, ArchiveError>)
    ensures
        match r {
            Ok(v) => xz_decoded(data@) matches Some(t) && exists|es: Seq<(Seq<char>, bool, Seq<u8>)>|
                es.len() <= t.len() && tar_listing(t, es) && entries_view(v@) == #[trigger] contained_entries(es),
            Err(e) => e == ArchiveError::Unreadable && (xz_decoded(data@) matches Some(t) ==> forall|
                es: Seq<(Seq<char>, bool, Seq<u8>)>,
            | es.len() <= t.len() ==> !#[trigger] tar_listing(t, es)),
        },
{
    let tarball = match Decompressor::decompress_xz_bytes(data) {
        Ok(t) => t,
        Err(_) => {
            return Err(ArchiveError::Unreadable);
        },
    };
    let all = match tar_files(tarball.as_slice()) {
        Ok(all) => all,
        Err(e) => {
            return Err(e);
        },
    };
    let ghost es = entries_view(all@);
    assert(es.len() <= tarball@.len() && tar_listing(tarball@, es));
    let mut v: Vec<ArchiveEntry> = Vec::new();
    let mut all = all;
    let mut rest: Vec<ArchiveEntry> = Vec::new();
    let ghost src = all@;
    // Entries are moved out from the end, so the kept ones are gathered in
    // reverse and turned around at the end.
    while all.len() > 0
        invariant
            all@ == src.take(all.len() as int),
            all.len() <= src.len(),
            es == entries_view(src),
            entries_view(rest@) == contained_entries(entries_view(src).skip(all.len() as int)).reverse(),
        decreases all.len(),
    {
        let k = all.len();
        let e = all.pop().unwrap();
        let ghost tail = entries_view(src).skip(k - 1);
        assert(e@ == tail[0]);
        assert(tail.drop_first() =~= entries_view(src).skip(k as int));
        proof {
            lemma_contained_first(tail);
        }
        if is_contained(e.path.as_str()) {
            let ghost r0 = entries_view(rest@);
            rest.push(e);
            assert(entries_view(rest@) =~= r0.push(tail[0]));
        }
        assert(all@ =~= src.take(all.len() as int));
    }
    assert(entries_view(src).skip(0) =~= entries_view(src));
    while rest.len() > 0
        invariant
            entries_view(v@) + entries_view(rest@).reverse() == contained_entries(es),
        decreases rest.len(),
    {
        let ghost r0 = entries_view(rest@);
        let ghost v0 = entries_view(v@);
        let e = rest.pop().unwrap();
        v.push(e);
        assert(r0.reverse() =~= seq![r0.last()] + entries_view(rest@).reverse());
        assert(entries_view(v@) =~= v0.push(r0.last()));
    }
    assert(entries_view(rest@).reverse() =~= Seq::<(Seq<char>, bool, Seq<u8>)>::empty());
    assert(entries_view(v@) =~= contained_entries(es));
    assert(xz_decoded(data@) == Some(tarball@));
    assert(es.len() <= tarball@.len() && tar_listing(tarball@, es) && entries_view(v@) == contained_entries(es));
    Ok(v)
}

/// Keeping contained entries, seen from the front: the first entry is kept
/// (if contained) before those of the rest.
proof fn lemma_contained_first(es: Seq<(Seq<char>, bool, Seq<u8>)>)
    requires
        es.len() > 0,
    ensures
        contained_entries(es) == (if contained(es[0].0) {
            seq![es[0]] + contained_entries(es.drop_first())
        } else {
            contained_entries(es.drop_first())
        }),
    decreases es.len(),
{
    if es.len() > 1 {
        lemma_contained_first(es.drop_last());
        assert(es.drop_last().drop_first() =~= es.drop_first().drop_last());
        assert(es.drop_first().last() == es.last());
        if contained(es[0].0) {
            assert((seq![es[0]] + contained_entries(es.drop_first().drop_last())).push(es.last()) =~= seq![es[0]]
                + contained_entries(es.drop_first().drop_last()).push(es.last()));
        }
    } else {
        assert(es.drop_first() =~= Seq::<(Seq<char>, bool, Seq<u8>)>::empty());
        assert(es.drop_last() =~= Seq::<(Seq<char>, bool, Seq<u8>)>::empty());
    }
}

} // verus!
