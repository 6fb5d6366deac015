use vstd::prelude::*;
use crate::hardware::command::owned;
use crate::text::{chars_of, slice_of, string_of};

verus! {

broadcast use vstd::string::group_string_axioms;

/// Decompresses `.xz` and `.gz` images: how files are recognised and named,
/// and the decoding itself (by `xz2` and `flate2`).
#[derive(Debug, Clone, Copy)]
pub struct Decompressor;

/// How a file is compressed, by its extension.
#[derive(Debug, Clone, Copy, PartialEq, Eq)]
pub enum Compression {
    Xz,
    Gz,
    Plain,
}

/// The index of the last `.` of a file name, or -1.
pub open spec fn last_dot(name: Seq<char>) -> int
    decreases name.len(),
{
    if name.len() == 0 {
        -1
    } else if name.last() == '.' {
        name.len() - 1
    } else {
        last_dot(name.drop_last())
    }
}

/// A file name without its extension: up to its last `.`, unless that is its
/// first character (`.bashrc` has no extension).
pub open spec fn stem_spec(name: Seq<char>) -> Seq<char> {
    if last_dot(name) > 0 {
        name.take(last_dot(name))
    } else {
        name
    }
}

/// The extension of a file name, if it has one.
pub open spec fn extension_spec(name: Seq<char>) -> Option<Seq<char>> {
    if last_dot(name) > 0 {
        Some(name.skip(last_dot(name) + 1))
    } else {
        None
    }
}

proof fn lemma_last_dot(name: Seq<char>)
    ensures
        -1 <= last_dot(name) < name.len(),
        last_dot(name) >= 0 ==> name[last_dot(name)] == '.',
        forall|j: int| last_dot(name) < j < name.len() ==> name[j] != '.',
    decreases name.len(),
{
    if name.len() > 0 {
        lemma_last_dot(name.drop_last());
        assert forall|j: int| last_dot(name) < j < name.len() implies name[j] != '.' by {
            if j < name.len() - 1 {
                assert(name[j] == name.drop_last()[j]);
            }
        }
    }
}

/// A name with an extension has a `.` after its first character and the
/// extension after it.
pub proof fn lemma_extension(name: Seq<char>)
    ensures
        extension_spec(name) matches Some(e) ==> e.len() + 2 <= name.len() && name.skip(name.len() - e.len()) == e,
{
    lemma_last_dot(name);
}

fn last_dot_exec(v: &Vec<char>) -> (r: Option<usize>)
    ensures
        match r {
            Some(k) => last_dot(v@) == k && k < v.len(),
            None => last_dot(v@) == -1,
        },
{
    let mut i: usize = v.len();
    assert(v@.take(i as int) =~= v@);
    while i > 0
        invariant
            i <= v.len(),
            last_dot(v@) == last_dot(v@.take(i as int)),
        decreases i,
    {
        assert(v@.take(i as int).drop_last() =~= v@.take(i - 1));
        assert(v@.take(i as int).last() == v@[i - 1]);
        if v[i - 1] == '.' {
            return Some(i - 1);
        }
        i = i - 1;
    }
    None
}

impl Decompressor {
    /// The compression of a file, by the extension of its name: `xz`, `gz`,
    /// or anything else for an uncompressed file.
    pub fn format_of(name: &str) -> (r: Compression)
        ensures
            r == (match extension_spec(name@) {
                Some(e) => if e == "xz"@ {
                    Compression::Xz
                } else if e == "gz"@ {
                    Compression::Gz
                } else {
                    Compression::Plain
                },
                None => Compression::Plain,
            }),
    {
        let v = chars_of(name);
        match last_dot_exec(&v) {
            Some(k) => {
                if k > 0 {
                    let e = slice_of(&v, k + 1, v.len());
                    assert(e@ =~= v@.skip(k + 1));
                    let es = string_of(&e);
                    if crate::models::device::str_eq(es.as_str(), "xz") {
                        Compression::Xz
                    } else if crate::models::device::str_eq(es.as_str(), "gz") {
                        Compression::Gz
                    } else {
                        Compression::Plain
                    }
                } else {
                    Compression::Plain
                }
            },
            None => Compression::Plain,
        }
    }

    /// The name of the decompressed file: the name without its extension.
    pub fn output_name(name: &str) -> (r: String)
        ensures
            r@ == stem_spec(name@),
    {
        let v = chars_of(name);
        match last_dot_exec(&v) {
            Some(k) => {
                if k > 0 {
                    let s = slice_of(&v, 0, k);
                    assert(s@ =~= v@.take(k as int));
                    string_of(&s)
                } else {
                    owned(name)
                }
            },
            None => owned(name),
        }
    }

    /// Progress of a decompression as a percentage: the bytes written, in
    /// hundredths of `factor` times the compressed size, at most 100.
    pub fn progress_percent(written: u64, input_size: u64, factor: u64) -> (r: u64)
        requires
            input_size * factor > 0,
            input_size * factor <= u64::MAX,
            written * 100 <= u64::MAX,
        ensures
            r == if (written * 100) / (input_size * factor) < 100 {
                (written * 100) / (input_size * factor)
            } else {
                100
            },
    {
        let p = (written * 100) / (input_size * factor);
        if p < 100 {
            p
        } else {
            100
        }
    }
}


/// Why compressed data could not be decoded.
#[derive(Debug, Clone, Copy, PartialEq, Eq)]
pub enum DecompressError {
    /// The data is not a valid stream of its format (corrupt or truncated).
    Corrupt,
}

/// What `xz2::write::XzDecoder` (one xz stream) decodes `data` to, written
/// in whole and finished: `None` when it is not exactly one valid xz stream.
pub uninterp spec fn xz_decoded(data: Seq<u8>) -> Option<Seq<u8>>;

/// What `flate2::read::GzDecoder` (one gzip member) reads from `data` to its
/// end: `None` when the member is corrupt or truncated.
pub uninterp spec fn gz_decoded(data: Seq<u8>) -> Option<Seq<u8>>;

pub open spec fn opt_bytes(v: Option<Vec<u8>>) -> Option<Seq<u8>> {
    match v {
        Some(b) => Some(b@),
        None => None,
    }
}

/// `xz2::write::XzDecoder::new` over an empty `Vec`, `write_all` of the
/// data, then `finish`: the decoded bytes, or `None` on an error. Its result
/// is a function of the data alone and is named.
#[verifier::external_body]
fn xz_decode(data: &[u8]) -> (r: Option<Vec<u8>>)
    ensures
        opt_bytes(r) == xz_decoded(data@),
{
    let mut decoder = xz2::write::XzDecoder::new(Vec::new());
    match std::io::Write::write_all(&mut decoder, data) {
        Ok(()) => decoder.finish().ok(),
        Err(_) => None,
    }
}

/// `flate2::read::GzDecoder::new` over the data, then `read_to_end`: the
/// decoded bytes, or `None` on an error. Its result is a function of the
/// data alone and is named.
#[verifier::external_body]
fn gz_decode(data: &[u8]) -> (r: Option<Vec<u8>>)
    ensures
        opt_bytes(r) == gz_decoded(data@),
{
    let mut out = Vec::new();
    match std::io::Read::read_to_end(&mut flate2::read::GzDecoder::new(data), &mut out) {
        Ok(_) => Some(out),
        Err(_) => None,
    }
}

impl Decompressor {
    /// The bytes an xz image decodes to, or `Corrupt`.
    pub fn decompress_xz_bytes(data: &[u8]) -> (r: Result<Vec<u8>, DecompressError>)
        ensures
            match r {
                Ok(v) => xz_decoded(data@) == Some(v@),
                Err(e) => xz_decoded(data@) is None && e == DecompressError::Corrupt,
            },
    {
        match xz_decode(data) {
            Some(v) => Ok(v),
            None => Err(DecompressError::Corrupt),
        }
    }

    /// The bytes a gzip image decodes to, or `Corrupt`.
    pub fn decompress_gz_bytes(data: &[u8]) -> (r: Result<Vec<u8>, DecompressError>)
        ensures
            match r {
                Ok(v) => gz_decoded(data@) == Some(v@),
                Err(e) => gz_decoded(data@) is None && e == DecompressError::Corrupt,
            },
    {
        match gz_decode(data) {
            Some(v) => Ok(v),
            None => Err(DecompressError::Corrupt),
        }
    }
}

/// An `xz2::write::XzDecoder` writing into a `Vec<u8>`, held opaque: Verus
/// refuses the declaration of the decoder type, whose parameter is bound by
/// `std::io::Write`.
#[verifier::external_body]
pub struct XzStreamDecoder {
    inner: xz2::write::XzDecoder<Vec<u8>>,
}

/// The compressed bytes written so far to a decoder.
pub uninterp spec fn xz_fed(d: XzStreamDecoder) -> Seq<u8>;

/// The decoded bytes a decoder has written so far to its `Vec`, in order
/// (whether or not they were taken out of it since).
pub uninterp spec fn xz_written(d: XzStreamDecoder) -> Seq<u8>;

/// `xz2::write::XzDecoder::new` over an empty `Vec`: nothing fed, nothing
/// decoded.
#[verifier::external_body]
fn xz_stream_new() -> (r: XzStreamDecoder)
    ensures
        xz_fed(r) == Seq::<u8>::empty(),
        xz_written(r) == Seq::<u8>::empty(),
{
    XzStreamDecoder { inner: xz2::write::XzDecoder::new(Vec::new()) }
}

/// `write_all` of a chunk, `flush` (which hands every byte decoded so far to
/// the `Vec`), then the `Vec`'s contents taken out, on an error too. The
/// decoders this library makes start empty and are always emptied this way,
/// so what comes out is exactly what the chunk added to the decoded bytes.
/// On an error nothing is stated.
#[verifier::external_body]
fn xz_stream_feed(d: &mut XzStreamDecoder, chunk: &[u8]) -> (r: Option<Vec<u8>>)
    ensures
        r matches Some(v) ==> xz_fed(*final(d)) == xz_fed(*old(d)) + chunk@ && xz_written(*final(d)) == xz_written(
            *old(d),
        ) + v@,
{
    let written = std::io::Write::write_all(&mut d.inner, chunk);
    let flushed = std::io::Write::flush(&mut d.inner);
    let out = std::mem::take(d.inner.get_mut());
    match (written, flushed) {
        (Ok(()), Ok(())) => Some(out),
        _ => None,
    }
}

/// `finish`: the stream must end exactly there. The `Vec` it gives back
/// holds the last decoded bytes, and with those the decoded bytes are what
/// the whole input decodes to. On an error nothing is stated.
#[verifier::external_body]
fn xz_stream_finish(d: XzStreamDecoder) -> (r: Option<Vec<u8>>)
    ensures
        r matches Some(v) ==> xz_decoded(xz_fed(d)) == Some(xz_written(d) + v@),
{
    let mut inner = d.inner;
    inner.finish().ok()
}

/// An xz image decoded chunk by chunk, so that a large image need not be
/// held whole: each chunk fed gives the bytes decoded from it, and the end
/// gives the last ones.
pub struct XzImageDecoder {
    decoder: XzStreamDecoder,
}

impl XzImageDecoder {
    /// The compressed bytes fed so far.
    pub closed spec fn fed(&self) -> Seq<u8> {
        xz_fed(self.decoder)
    }

    /// The decoded bytes produced so far: those handed out, and any dropped
    /// with a failed chunk.
    pub closed spec fn decoded(&self) -> Seq<u8> {
        xz_written(self.decoder)
    }

    pub fn new() -> (r: Self)
        ensures
            r.fed() == Seq::<u8>::empty(),
            r.decoded() == Seq::<u8>::empty(),
    {
        XzImageDecoder { decoder: xz_stream_new() }
    }

    /// Feed the next chunk of the image; the bytes it decodes to come back.
    pub fn feed(&mut self, chunk: &[u8]) -> (r: Result<Vec<u8>, DecompressError>)
        ensures
            r matches Ok(v) ==> final(self).fed() == old(self).fed() + chunk@ && final(self).decoded() == old(
                self,
            ).decoded() + v@,
            r matches Err(e) ==> e == DecompressError::Corrupt,
    {
        match xz_stream_feed(&mut self.decoder, chunk) {
            Some(v) => Ok(v),
            None => Err(DecompressError::Corrupt),
        }
    }

    /// End the image: the last decoded bytes. With everything handed out
    /// before, they make up what the whole image decodes to.
    pub fn finish(self) -> (r: Result<Vec<u8>, DecompressError>)
        ensures
            r matches Ok(v) ==> xz_decoded(self.fed()) == Some(self.decoded() + v@),
            r matches Err(e) ==> e == DecompressError::Corrupt,
    {
        match xz_stream_finish(self.decoder) {
            Some(v) => Ok(v),
            None => Err(DecompressError::Corrupt),
        }
    }
}

} // verus!
