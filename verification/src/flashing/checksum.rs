use vstd::prelude::*;
use sha2::Digest;
use crate::text::{push_char, to_lowercase, lowercase_spec, all_ascii, ascii_lower_char, is_ascii_char};

verus! {

broadcast use vstd::string::group_string_axioms;

/// The SHA-256 digest of `data`, as `sha2::Sha256` computes it.
pub uninterp spec fn sha256_spec(data: Seq<u8>) -> Seq<u8>;


/// The lowercase hexadecimal digit for a value below 16.
pub open spec fn hex_digit_spec(d: u8) -> char {
    if d < 10 {
        (48 + d) as char
    } else {
        (87 + d) as char
    }
}

/// Lowercase hexadecimal encoding, two digits per byte, high nibble first.
pub open spec fn hex_spec(data: Seq<u8>) -> Seq<char>
    decreases data.len(),
{
    if data.len() == 0 {
        seq![]
    } else {
        hex_spec(data.drop_last()) + seq![
            hex_digit_spec(data.last() / 16),
            hex_digit_spec(data.last() % 16),
        ]
    }
}


/// A hexadecimal digit is an ASCII character that lowercasing leaves alone.
proof fn lemma_hex_digit_lowercase(d: u8)
    requires
        d < 16,
    ensures
        is_ascii_char(hex_digit_spec(d)),
        ascii_lower_char(hex_digit_spec(d)) == hex_digit_spec(d),
{
}

/// A hexadecimal encoding is ASCII and already lowercase, two characters per
/// byte.
pub proof fn lemma_hex_is_lowercase(data: Seq<u8>)
    ensures
        hex_spec(data).len() == 2 * data.len(),
        all_ascii(hex_spec(data)),
        Seq::new(hex_spec(data).len(), |i: int| ascii_lower_char(hex_spec(data)[i])) == hex_spec(data),
    decreases data.len(),
{
    if data.len() > 0 {
        let prev = hex_spec(data.drop_last());
        lemma_hex_is_lowercase(data.drop_last());
        lemma_hex_digit_lowercase(data.last() / 16);
        lemma_hex_digit_lowercase(data.last() % 16);
        let h = hex_spec(data);
        assert forall|i: int| 0 <= i < h.len() implies is_ascii_char(#[trigger] h[i]) && ascii_lower_char(h[i]) == h[i] by {
            if i < prev.len() {
                assert(h[i] == prev[i]);
                assert(ascii_lower_char(prev[i]) == Seq::new(prev.len(), |k: int| ascii_lower_char(prev[k]))[i]);
            }
        }
        assert(Seq::new(h.len(), |i: int| ascii_lower_char(h[i])) =~= h);
    }
}

/// `sha2::Sha256::digest`: the SHA-256 digest of the bytes, 32 bytes long.
#[verifier::external_body]
fn sha256_digest(data: &[u8]) -> (r: Vec<u8>)
    ensures
        r@ == sha256_spec(data@),
        r@.len() == 32,
{
    sha2::Sha256::digest(data).to_vec()
}


/// A `sha2::Sha256` hasher, held opaque: the type is an alias of a generic
/// core wrapper whose declaration Verus refuses.
#[verifier::external_body]
pub struct Sha256Hasher {
    inner: sha2::Sha256,
}

/// The bytes fed so far to a hasher, in order.
pub uninterp spec fn sha256_fed(h: Sha256Hasher) -> Seq<u8>;

/// `Digest::new`: a hasher fed nothing yet.
#[verifier::external_body]
fn sha256_new() -> (r: Sha256Hasher)
    ensures
        sha256_fed(r) == Seq::<u8>::empty(),
{
    Sha256Hasher { inner: sha2::Sha256::new() }
}

/// `Digest::update`: feeds the next bytes to the hasher.
#[verifier::external_body]
fn sha256_update(h: &mut Sha256Hasher, chunk: &[u8])
    ensures
        sha256_fed(*final(h)) == sha256_fed(*old(h)) + chunk@,
{
    h.inner.update(chunk);
}

/// `Digest::finalize`: the digest of everything fed, the one that
/// `Sha256::digest` (new, one update, finalize) gives for those bytes at
/// once; 32 bytes long.
#[verifier::external_body]
fn sha256_finalize(h: Sha256Hasher) -> (r: Vec<u8>)
    ensures
        r@ == sha256_spec(sha256_fed(h)),
        r@.len() == 32,
{
    h.inner.finalize().to_vec()
}

/// A SHA-256 computed over bytes fed in pieces, such as a file read in
/// chunks.
pub struct Sha256Stream {
    hasher: Sha256Hasher,
}

impl Sha256Stream {
    /// The bytes fed so far.
    pub closed spec fn fed(&self) -> Seq<u8> {
        sha256_fed(self.hasher)
    }

    /// A stream fed nothing yet.
    pub fn new() -> (r: Self)
        ensures
            r.fed() == Seq::<u8>::empty(),
    {
        Sha256Stream { hasher: sha256_new() }
    }

    /// Feeds the next bytes.
    pub fn feed(&mut self, chunk: &[u8])
        ensures
            final(self).fed() == old(self).fed() + chunk@,
    {
        sha256_update(&mut self.hasher, chunk);
    }

    /// The lowercase hexadecimal SHA-256 of all the bytes fed.
    pub fn finish_hex(self) -> (r: String)
        ensures
            r@ == hex_spec(sha256_spec(self.fed())),
            r@.len() == 64,
    {
        let ghost fed = self.fed();
        let digest = sha256_finalize(self.hasher);
        proof {
            lemma_hex_is_lowercase(sha256_spec(fed));
        }
        hex_encode(digest.as_slice())
    }
}

fn hex_digit(d: u8) -> (c: char)
    requires
        d < 16,
    ensures
        c == hex_digit_spec(d),
{
    if d < 10 {
        (48 + d) as char
    } else {
        (87 + d) as char
    }
}

/// Lowercase hexadecimal encoding of bytes (`hex::encode`).
pub fn hex_encode(data: &[u8]) -> (r: String)
    ensures
        r@ == hex_spec(data@),
{
    let mut r = String::new();
    for i in 0..data.len()
        invariant
            r@ == hex_spec(data@.take(i as int)),
    {
        let b = data[i];
        assert(data@.take(i + 1).drop_last() =~= data@.take(i as int));
        assert(data@.take(i + 1).last() == b);
        push_char(&mut r, hex_digit(b / 16));
        push_char(&mut r, hex_digit(b % 16));
        assert(r@ =~= hex_spec(data@.take(i + 1)));
    }
    assert(data@.take(data.len() as int) =~= data@);
    r
}

/// The names a verification result reports on.
pub open spec fn result_names(r: Seq<(String, bool)>) -> Set<Seq<char>> {
    Set::new(|n: Seq<char>| exists|i: int| 0 <= i < r.len() && (#[trigger] r[i]).0@ == n)
}

/// The names a list of expected checksums holds.
pub open spec fn checksum_names(c: Seq<(String, String)>) -> Set<Seq<char>> {
    Set::new(|n: Seq<char>| exists|j: int| 0 <= j < c.len() && (#[trigger] c[j]).0@ == n)
}

/// Verifies file checksums.
pub struct ChecksumVerifier;

impl ChecksumVerifier {
    /// Lowercase hexadecimal SHA-256 of the bytes.
    pub fn sha256(data: &[u8]) -> (r: String)
        ensures
            r@ == hex_spec(sha256_spec(data@)),
            r@.len() == 64,
    {
        let digest = sha256_digest(data);
        proof {
            lemma_hex_is_lowercase(sha256_spec(data@));
        }
        hex_encode(digest.as_slice())
    }

    /// Whether the bytes hash to the expected SHA-256, compared without regard
    /// to letter case: the lowercase hex digest against the lowercased
    /// expected hash.
    pub fn verify(data: &[u8], expected_hash: &str) -> (r: bool)
        ensures
            r == (hex_spec(sha256_spec(data@)) == lowercase_spec(expected_hash@)),
    {
        let calculated = Self::sha256(data);
        let a = to_lowercase(calculated.as_str());
        let b = to_lowercase(expected_hash);
        proof {
            lemma_hex_is_lowercase(sha256_spec(data@));
        }
        a == b
    }

    /// Whether all the bytes fed to the stream hash to the expected SHA-256,
    /// compared without regard to letter case: the answer `verify` gives for
    /// those bytes at once.
    pub fn verify_stream(stream: Sha256Stream, expected_hash: &str) -> (r: bool)
        ensures
            r == (hex_spec(sha256_spec(stream.fed())) == lowercase_spec(expected_hash@)),
    {
        let ghost fed = stream.fed();
        let calculated = stream.finish_hex();
        let a = to_lowercase(calculated.as_str());
        let b = to_lowercase(expected_hash);
        proof {
            lemma_hex_is_lowercase(sha256_spec(fed));
        }
        a == b
    }

    /// Verify a set of files against their expected hashes. `contents[i]` holds
    /// the bytes of the file named `checksums[i].0`, or `None` when it is missing;
    /// a missing file counts as a mismatch.
    pub fn verify_all(checksums: &Vec<(String, String)>, contents: &Vec<Option<Vec<u8>>>) -> (r: Vec<(String, bool)>)
        requires
            contents.len() == checksums.len(),
        ensures
            r.len() == checksums.len(),
            forall|i: int|
                0 <= i < r.len() ==> (#[trigger] r[i]).0@ == checksums[i].0@ && r[i].1 == match contents[i] {
                    None => false,
                    Some(bytes) => hex_spec(sha256_spec(bytes@)) == lowercase_spec(checksums[i].1@),
                },
            result_names(r@) == checksum_names(checksums@),
    {
        let mut r: Vec<(String, bool)> = Vec::new();
        for i in 0..checksums.len()
            invariant
                contents.len() == checksums.len(),
                r.len() == i,
                forall|j: int|
                    0 <= j < i ==> (#[trigger] r[j]).0@ == checksums[j].0@ && r[j].1 == match contents[j] {
                        None => false,
                        Some(bytes) => hex_spec(sha256_spec(bytes@)) == lowercase_spec(checksums[j].1@),
                    },
        {
            let name = checksums[i].0.clone();
            let ok = match &contents[i] {
                None => false,
                Some(bytes) => Self::verify(bytes.as_slice(), checksums[i].1.as_str()),
            };
            r.push((name, ok));
        }
        assert forall|n: Seq<char>| #[trigger] result_names(r@).contains(n) == checksum_names(checksums@).contains(n) by {
            if result_names(r@).contains(n) {
                let i = choose|i: int| 0 <= i < r@.len() && (#[trigger] r@[i]).0@ == n;
                assert(checksums@[i].0@ == n);
            }
            if checksum_names(checksums@).contains(n) {
                let j = choose|j: int| 0 <= j < checksums@.len() && (#[trigger] checksums@[j]).0@ == n;
                assert(r@[j].0@ == n);
            }
        }
        assert(result_names(r@) =~= checksum_names(checksums@));
        r
    }
}

} // verus!
