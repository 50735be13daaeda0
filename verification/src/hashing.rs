//! The content hasher: a file's identifier is the URL-safe, unpadded
//! base-64 rendering of the SHA-256 digest of its full byte content, and of
//! nothing else — no path and no timestamp enters the digest. The digest
//! state is fed chunk by chunk, so a driver can stream a file of any size
//! through constant memory.

use vstd::prelude::*;
use sha2::Digest;

verus! {

/// The SHA-256 digest of a byte sequence. A function of the bytes alone.
pub uninterp spec fn sha256_of(data: Seq<u8>) -> Seq<u8>;

/// The URL-safe, unpadded base-64 rendering of a byte sequence. A function
/// of the bytes alone.
pub uninterp spec fn b64url_of(data: Seq<u8>) -> Seq<char>;

/// The content-addressed identifier of a file with these bytes.
pub open spec fn id_of(content: Seq<u8>) -> Seq<char> {
    b64url_of(sha256_of(content))
}

/// A character of the URL-safe base-64 alphabet.
pub open spec fn is_b64url_char(c: char) -> bool {
    ('A' <= c <= 'Z') || ('a' <= c <= 'z') || ('0' <= c <= '9') || c == '-' || c == '_'
}

#[verifier::external_type_specification]
#[verifier::external_body]
pub struct ExSha256(sha2::Sha256);

/// An incremental SHA-256 digest over the bytes fed so far.
pub struct ContentHasher {
    inner: sha2::Sha256,
    fed: Ghost<Seq<u8>>,
}

impl ContentHasher {
    /// The bytes this hasher has been fed, in order.
    pub closed spec fn bytes_fed(&self) -> Seq<u8> {
        self.fed@
    }

    /// Relies on sha2::Sha256::new: a fresh digest state over no input.
    #[verifier::external_body]
    pub fn new() -> (r: ContentHasher)
        ensures
            r.bytes_fed() == Seq::<u8>::empty(),
    {
        ContentHasher { inner: sha2::Sha256::new(), fed: Ghost(Seq::empty()) }
    }

    /// Relies on sha2::Sha256::update: feeding bytes incrementally digests
    /// their concatenation.
    #[verifier::external_body]
    pub fn update(&mut self, chunk: &[u8])
        ensures
            final(self).bytes_fed() == old(self).bytes_fed() + chunk@,
    {
        self.inner.update(chunk);
    }

    /// Relies on sha2::Sha256::finalize: the 32-byte SHA-256 digest of
    /// everything fed, a function of those bytes alone.
    #[verifier::external_body]
    pub fn finish(self) -> (r: Vec<u8>)
        ensures
            r@ == sha256_of(self.bytes_fed()),
            r@.len() == 32,
    {
        self.inner.finalize().to_vec()
    }
}

/// Relies on base64's URL_SAFE_NO_PAD engine: encodes to the URL-safe
/// alphabet with no padding, four output characters for every three input
/// bytes plus a shortened final group; a function of the bytes alone.
#[verifier::external_body]
fn b64url_encode(data: &Vec<u8>) -> (r: String)
    ensures
        r@ == b64url_of(data@),
        r@.len() == 4 * (data@.len() / 3) + (if data@.len() % 3 == 0 {
            0int
        } else {
            data@.len() % 3 + 1int
        }),
        forall|i: int| 0 <= i < r@.len() ==> is_b64url_char(#[trigger] r@[i]),
{
    base64::Engine::encode(&base64::engine::general_purpose::URL_SAFE_NO_PAD, data)
}

/// Closes a streamed digest into the content-addressed identifier of the
/// bytes that were fed.
pub fn finish_id(hasher: ContentHasher) -> (r: String)
    ensures
        r@ == id_of(hasher.bytes_fed()),
        r@.len() == 43,
{
    let digest = hasher.finish();
    b64url_encode(&digest)
}

/// The content-addressed identifier of a byte buffer held in memory.
pub fn hash_bytes(data: &[u8]) -> (r: String)
    ensures
        r@ == id_of(data@),
        r@.len() == 43,
{
    let mut hasher = ContentHasher::new();
    hasher.update(data);
    proof {
        assert(hasher.bytes_fed() =~= data@);
    }
    finish_id(hasher)
}

/// The identifier is a function of content alone: equal bytes, equal id.
/// Renames, moves and new timestamps leave it unchanged; only a change of
/// content can change it.
pub proof fn lemma_id_content_addressed(c1: Seq<u8>, c2: Seq<u8>)
    requires
        c1 == c2,
    ensures
        id_of(c1) == id_of(c2),
{
}

} // verus!
