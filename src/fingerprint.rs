//! Streaming SHA-256 fingerprints of file contents.

use vstd::prelude::*;

verus! {

/// A 32-byte SHA-256 digest of a file's full content.
pub type Fingerprint = [u8; 32];

/// sha2's SHA-256 hashing state, opaque here.
#[verifier::external_type_specification]
#[verifier::external_body]
pub struct ExSha256(sha2::Sha256);

/// The message that a SHA-256 state has absorbed so far.
pub uninterp spec fn sha256_absorbed(h: sha2::Sha256) -> Seq<u8>;

/// The SHA-256 digest of a message.
pub uninterp spec fn sha256_digest(message: Seq<u8>) -> Seq<u8>;

/// Relies on sha2's `Sha256::default`: a fresh state with nothing absorbed.
#[verifier::external_body]
fn sha256_new() -> (r: sha2::Sha256)
    ensures
        sha256_absorbed(r) == Seq::<u8>::empty(),
{
    <sha2::Sha256 as Default>::default()
}

/// Relies on sha2's `Input::input` for `Sha256`: the bytes are appended to the
/// message absorbed so far.
#[verifier::external_body]
fn sha256_input(h: &mut sha2::Sha256, data: &[u8])
    ensures
        sha256_absorbed(*final(h)) == sha256_absorbed(*old(h)) + data@,
{
    sha2::Digest::input(h, data)
}

/// Relies on sha2's `Digest::result` for `Sha256`: the digest of the whole
/// message absorbed.
#[verifier::external_body]
fn sha256_result(h: sha2::Sha256) -> (r: Fingerprint)
    ensures
        r@ == sha256_digest(sha256_absorbed(h)),
{
    sha2::Digest::result(h).into()
}

/// The chunks laid end to end.
pub open spec fn concat(chunks: Seq<Seq<u8>>) -> Seq<u8>
    decreases chunks.len(),
{
    if chunks.len() == 0 {
        Seq::empty()
    } else {
        chunks[0] + concat(chunks.skip(1))
    }
}

/// `data` cut into consecutive chunks of `size` bytes; the last may be shorter.
pub open spec fn chunks_of(data: Seq<u8>, size: nat) -> Seq<Seq<u8>>
    decreases data.len(),
{
    if size == 0 || data.len() == 0 {
        Seq::empty()
    } else if data.len() <= size {
        seq![data]
    } else {
        seq![data.take(size as int)] + chunks_of(data.skip(size as int), size)
    }
}

proof fn lemma_concat_chunks_of(data: Seq<u8>, size: nat)
    requires
        size > 0,
    ensures
        concat(chunks_of(data, size)) == data,
    decreases data.len(),
{
    if data.len() == 0 {
    } else if data.len() <= size {
        let cs = chunks_of(data, size);
        assert(cs[0] == data);
        assert(cs.skip(1) =~= Seq::<Seq<u8>>::empty());
        assert(concat(cs.skip(1)) == Seq::<u8>::empty());
        assert(data + Seq::<u8>::empty() =~= data);
    } else {
        let rest = data.skip(size as int);
        lemma_concat_chunks_of(rest, size);
        let cs = chunks_of(data, size);
        assert(cs.skip(1) =~= chunks_of(rest, size));
        assert(data.take(size as int) + rest =~= data);
    }
}

/// Reading content in chunks of any positive size feeds the hasher exactly
/// that content, so the fingerprint is the digest of the content whatever the
/// chunk size.
pub proof fn lemma_fingerprint_independent_of_chunk_size(data: Seq<u8>, a: nat, b: nat)
    requires
        a > 0,
        b > 0,
    ensures
        concat(chunks_of(data, a)) == data,
        sha256_digest(concat(chunks_of(data, a))) == sha256_digest(concat(chunks_of(data, b))),
{
    lemma_concat_chunks_of(data, a);
    lemma_concat_chunks_of(data, b);
}

/// An incremental hasher fed with a file's content one chunk at a time.
pub struct ContentHasher {
    state: sha2::Sha256,
}

impl ContentHasher {
    /// The bytes fed so far, in order.
    pub closed spec fn absorbed(&self) -> Seq<u8> {
        sha256_absorbed(self.state)
    }

    pub fn new() -> (r: ContentHasher)
        ensures
            r.absorbed() == Seq::<u8>::empty(),
    {
        ContentHasher { state: sha256_new() }
    }

    /// Feeds the next chunk of content.
    pub fn absorb(&mut self, chunk: &[u8])
        ensures
            final(self).absorbed() == old(self).absorbed() + chunk@,
    {
        sha256_input(&mut self.state, chunk);
    }

    /// The fingerprint of everything fed.
    pub fn finish(self) -> (r: Fingerprint)
        ensures
            r@ == sha256_digest(self.absorbed()),
    {
        sha256_result(self.state)
    }
}

} // verus!
