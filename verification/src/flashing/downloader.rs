use vstd::prelude::*;
use crate::hardware::command::owned;
use crate::models::device::str_eq;
use crate::paths::{CompView, Comp, components, comp_views, join_path, join_spec, path_components};
use crate::text::{chars_of, decimal, decimal_spec, lines, lines_spec, seqs_of, string_of, words, words_spec};

verus! {

broadcast use vstd::string::group_string_axioms;

/// Downloads images into one directory.
#[derive(Debug, Clone)]
pub struct ImageDownloader {
    pub download_dir: String,
}

/// Why a download was refused.
#[derive(Debug, Clone, PartialEq, Eq)]
pub enum DownloadError {
    /// The server-supplied file name is not a single plain path component.
    UnsafeFilename(String),
    /// The download was cancelled.
    Cancelled,
}

/// The plain name a file name stands for, when it is a single normal path
/// component (no separators around other parts, no `.`, `..` or root).
pub open spec fn plain_component(filename: Seq<char>) -> Option<Seq<char>> {
    let c = components(filename);
    if c.len() == 1 && c[0] is Normal && c[0]->Normal_0.len() > 0 {
        Some(c[0]->Normal_0)
    } else {
        None
    }
}

/// A file name without its leading `*`s (as `sha256sum` marks binary mode).
pub open spec fn strip_stars(s: Seq<char>) -> Seq<char>
    decreases s.len(),
{
    if s.len() > 0 && s[0] == '*' {
        strip_stars(s.drop_first())
    } else {
        s
    }
}

/// The (file name, hash) rows of a `SHA256SUMS` text: every line with at
/// least two words gives its second word, without leading `*`s, and its first.
pub open spec fn checksum_rows(ls: Seq<Seq<char>>) -> Seq<(Seq<char>, Seq<char>)>
    decreases ls.len(),
{
    if ls.len() == 0 {
        seq![]
    } else {
        let w = words_spec(ls.last());
        let rest = checksum_rows(ls.drop_last());
        if w.len() >= 2 {
            rest.push((strip_stars(w[1]), w[0]))
        } else {
            rest
        }
    }
}

/// The hash that the last row naming `name` gives (a later line overrides an
/// earlier one).
pub open spec fn last_checksum(rows: Seq<(Seq<char>, Seq<char>)>, name: Seq<char>) -> Option<Seq<char>>
    decreases rows.len(),
{
    if rows.len() == 0 {
        None
    } else if rows.last().0 == name {
        Some(rows.last().1)
    } else {
        last_checksum(rows.drop_last(), name)
    }
}

pub open spec fn rows_view(v: Seq<(String, String)>) -> Seq<(Seq<char>, Seq<char>)> {
    Seq::new(v.len(), |i: int| (v[i].0@, v[i].1@))
}

/// A file name without its leading `*`s.
pub fn strip_stars_exec(s: &Vec<char>) -> (r: Vec<char>)
    ensures
        r@ == strip_stars(s@),
{
    let mut i: usize = 0;
    assert(s@.skip(0) =~= s@);
    while i < s.len() && s[i] == '*'
        invariant
            i <= s.len(),
            strip_stars(s@) == strip_stars(s@.skip(i as int)),
        decreases s.len() - i,
    {
        assert(s@.skip(i as int)[0] == s@[i as int]);
        assert(s@.skip(i as int).drop_first() =~= s@.skip(i + 1));
        i = i + 1;
    }
    let r = crate::text::slice_of(s, i, s.len());
    assert(r@ =~= s@.skip(i as int));
    r
}

impl ImageDownloader {
    pub fn new(download_dir: &str) -> (r: Self)
        ensures
            r.download_dir@ == download_dir@,
    {
        ImageDownloader { download_dir: owned(download_dir) }
    }

    /// The path a server-supplied file name is stored under: inside the
    /// download directory, and only for a single plain path component, so
    /// that no name can reach outside it (`../x`, `/etc/x`, `a/b`).
    pub fn safe_dest(&self, filename: &str) -> (r: Result<String, DownloadError>)
        ensures
            match r {
                Ok(p) => plain_component(filename@) matches Some(n) && p@ == join_spec(self.download_dir@, n),
                Err(DownloadError::UnsafeFilename(f)) => plain_component(filename@) is None && f@ == filename@,
                Err(DownloadError::Cancelled) => false,
            },
    {
        let v = chars_of(filename);
        let comps = path_components(&v);
        if comps.len() == 1 {
            assert(comp_views(comps@)[0] == comps@[0].view());
            match &comps[0] {
                Comp::Normal(n) => {
                    if n.len() > 0 {
                        let name = string_of(n);
                        return Ok(join_path(self.download_dir.as_str(), name.as_str()));
                    }
                },
                _ => {},
            }
        }
        Err(DownloadError::UnsafeFilename(owned(filename)))
    }

    /// The partial file an interrupted download of `filename` leaves.
    pub fn part_path(&self, filename: &str) -> (r: String)
        ensures
            r@ == join_spec(self.download_dir@, filename@ + ".part"@),
    {
        let mut f = owned(filename);
        f.append(".part");
        join_path(self.download_dir.as_str(), f.as_str())
    }

    /// Whether a cached copy is kept instead of downloading again: it exists
    /// and, with an expected checksum, matches it, or, without one, is not
    /// empty.
    pub fn keep_cached(exists: bool, expected_sha256: Option<&str>, matches: bool, size: u64) -> (r: bool)
        ensures
            r == (exists && if expected_sha256 is Some {
                matches
            } else {
                size > 0
            }),
    {
        exists && match expected_sha256 {
            Some(_) => matches,
            None => size > 0,
        }
    }

    /// Before each chunk of an in-flight download is written: go on, or, once
    /// the cancellation flag is set, stop with `Cancelled` (the partial file
    /// is kept for a later resume). Only downloads are cancellable; flashing
    /// is never interrupted mid-write.
    pub fn next_chunk(cancelled: bool) -> (r: Result<(), DownloadError>)
        ensures
            cancelled ==> r == Err::<(), DownloadError>(DownloadError::Cancelled),
            !cancelled ==> r is Ok,
    {
        if cancelled {
            Err(DownloadError::Cancelled)
        } else {
            Ok(())
        }
    }

    /// The `Range` header that resumes a download after `resume_from` bytes.
    pub fn range_header(resume_from: u64) -> (r: Option<String>)
        ensures
            resume_from == 0 ==> r is None,
            resume_from > 0 ==> (r matches Some(h) && h@ == "bytes="@ + decimal_spec(resume_from as nat) + "-"@),
    {
        if resume_from == 0 {
            return None;
        }
        let mut h = owned("bytes=");
        let d = string_of(&decimal(resume_from));
        h.append(d.as_str());
        h.append("-");
        Some(h)
    }

    /// Whether the server resumed the download: a range was asked for and it
    /// answered 206 (Partial Content); otherwise the file starts over.
    pub fn resuming(resume_from: u64, status: u16) -> (r: bool)
        ensures
            r == (resume_from > 0 && status == 206),
    {
        resume_from > 0 && status == 206
    }

    /// The full size of a download: the remaining length the server gives
    /// (none counts as 0) plus the bytes already held.
    pub fn total_size(content_length: Option<u64>, start: u64) -> (r: u64)
        requires
            match content_length {
                Some(n) => n + start <= u64::MAX,
                None => true,
            },
        ensures
            r == match content_length {
                Some(n) => n + start,
                None => start as int,
            },
    {
        match content_length {
            Some(n) => n + start,
            None => start,
        }
    }

    /// The (file name, hash) rows of a `SHA256SUMS` text (`hash  filename`
    /// lines; a `*` before the name is dropped).
    pub fn parse_checksums(text: &str) -> (r: Vec<(String, String)>)
        ensures
            rows_view(r@) == checksum_rows(lines_spec(text@)),
    {
        let v = chars_of(text);
        let ls = lines(&v);
        let ghost all = lines_spec(text@);
        let mut r: Vec<(String, String)> = Vec::new();
        for i in 0..ls.len()
            invariant
                all == lines_spec(text@),
                all.len() == ls.len(),
                forall|j: int| 0 <= j < ls.len() ==> (#[trigger] ls@[j])@ == all[j],
                rows_view(r@) == checksum_rows(all.take(i as int)),
        {
            assert(all.take(i + 1).drop_last() =~= all.take(i as int));
            assert(all.take(i + 1).last() == all[i as int]);
            let w = words(&ls[i]);
            let ghost before = rows_view(r@);
            if w.len() >= 2 {
                let name = string_of(&strip_stars_exec(&w[1]));
                let hash = string_of(&w[0]);
                r.push((name, hash));
                assert(rows_view(r@) =~= before.push((strip_stars(w@[1]@), w@[0]@)));
            }
        }
        assert(all.take(ls.len() as int) =~= all);
        r
    }

    /// The hash listed for `name` (the last line naming it wins).
    pub fn checksum_for(rows: &Vec<(String, String)>, name: &str) -> (r: Option<String>)
        ensures
            match r {
                Some(h) => last_checksum(rows_view(rows@), name@) == Some(h@),
                None => last_checksum(rows_view(rows@), name@) is None,
            },
    {
        let ghost rv = rows_view(rows@);
        let mut i: usize = rows.len();
        assert(rv.take(i as int) =~= rv);
        while i > 0
            invariant
                i <= rows.len(),
                rv == rows_view(rows@),
                last_checksum(rv, name@) == last_checksum(rv.take(i as int), name@),
            decreases i,
        {
            assert(rv.take(i as int).drop_last() =~= rv.take(i - 1));
            assert(rv.take(i as int).last() == rv[i - 1]);
            if str_eq(rows[i - 1].0.as_str(), name) {
                return Some(owned(rows[i - 1].1.as_str()));
            }
            i = i - 1;
        }
        None
    }
}

} // verus!

verus! {

/// A download never lands outside the download directory: a file name that
/// is accepted stands for a single plain name (not empty, no `/`, neither
/// `.` nor `..`), which is joined under the directory.
pub proof fn lemma_safe_dest_confined(filename: Seq<char>)
    ensures
        plain_component(filename) matches Some(n) ==> crate::models::sync::plain_name(n),
{
    crate::models::sync::lemma_components_shape(filename);
    let c = components(filename);
    if c.len() == 1 && c[0] is Normal {
        assert(match c[0] {
            CompView::Normal(m) => crate::models::sync::plain_name(m),
            CompView::Cur => true,
            CompView::Root => true,
            CompView::Parent => true,
        });
    }
}

} // verus!
