//! Hashing and randomness, supplied by the `sha2` and `rand` crates.

use vstd::prelude::*;

verus! {

/// SHA-256 of a byte sequence, as computed by the `sha2` crate.
pub uninterp spec fn sha256_digest(data: Seq<u8>) -> Seq<u8>;

/// Calls `sha2::Sha256::digest` on `data`. Trusted: the 32 returned bytes are
/// `sha256_digest(data@)`, a function of the input bytes alone.
#[verifier::external_body]
pub(crate) fn sha256(data: &[u8]) -> (digest: [u8; 32])
    ensures
        digest@ == sha256_digest(data@),
{
    <sha2::Sha256 as sha2::Digest>::digest(data).into()
}

/// Calls `rand::random::<[u8; 16]>()`. Nothing is promised of the bytes.
#[verifier::external_body]
pub(crate) fn random_16() -> (bytes: [u8; 16]) {
    rand::random::<[u8; 16]>()
}

/// Calls `rand::random::<[u8; 32]>()`. Nothing is promised of the bytes.
#[verifier::external_body]
pub(crate) fn random_32() -> (bytes: [u8; 32]) {
    rand::random::<[u8; 32]>()
}

/// Holds the `sha2` crate's incremental hasher. `sha2::Sha256` is an alias
/// of a generic wrapper that Verus does not take as a declared outside type
/// ("expected generics to match"), so the hasher sits in this opaque struct,
/// which only the trusted methods of `Sha256Stream` touch.
#[verifier::external_body]
struct Sha256State {
    inner: sha2::Sha256,
}

/// SHA-256 computed over data handed in piece by piece.
pub struct Sha256Stream {
    state: Sha256State,
    absorbed: Ghost<Seq<u8>>,
}

impl Sha256Stream {
    /// The bytes handed in so far, in order.
    pub closed spec fn absorbed(&self) -> Seq<u8> {
        self.absorbed@
    }

    /// A stream that has absorbed nothing.
    pub fn new() -> (h: Self)
        ensures
            h.absorbed() == Seq::<u8>::empty(),
    {
        stream_new()
    }

    /// Absorbs `chunk` after what came before.
    pub fn update(&mut self, chunk: &[u8])
        ensures
            final(self).absorbed() == old(self).absorbed() + chunk@,
    {
        stream_update(self, chunk)
    }

    /// The SHA-256 of every byte absorbed.
    pub fn finalize(self) -> (digest: [u8; 32])
        ensures
            digest@ == sha256_digest(self.absorbed()),
    {
        stream_finalize(self)
    }
}

/// Calls `<sha2::Sha256 as Digest>::new`. Trusted: nothing is absorbed yet.
#[verifier::external_body]
fn stream_new() -> (h: Sha256Stream)
    ensures
        h.absorbed() == Seq::<u8>::empty(),
{
    Sha256Stream {
        state: Sha256State { inner: <sha2::Sha256 as sha2::Digest>::new() },
        absorbed: Ghost(Seq::empty()),
    }
}

/// Calls `Digest::update` with `chunk`. Trusted: the hasher's input is
/// what it had, followed by `chunk`.
#[verifier::external_body]
fn stream_update(h: &mut Sha256Stream, chunk: &[u8])
    ensures
        final(h).absorbed() == old(h).absorbed() + chunk@,
{
    sha2::Digest::update(&mut h.state.inner, chunk);
}

/// Calls `Digest::finalize`. Trusted: the digest is SHA-256 of the whole
/// input, `sha256_digest` of the bytes absorbed (the same function that
/// `Sha256::digest` computes in one call).
#[verifier::external_body]
fn stream_finalize(h: Sha256Stream) -> (digest: [u8; 32])
    ensures
        digest@ == sha256_digest(h.absorbed()),
{
    sha2::Digest::finalize(h.state.inner).into()
}

} // verus!
