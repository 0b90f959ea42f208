//! Content digests.
//!
//! The MD5 function itself is that of the `md5` crate. Its result is not
//! computed here but named: `md5_digest` is the digest of a message, and all
//! that is claimed of the hasher is that it gives the digest of the bytes it
//! was fed, in the order in which it was fed them.

use crate::MD5Hash;
use md5::Digest;
use vstd::prelude::*;

verus! {

/// The hasher `md5::Md5`, of which nothing is known here but what the
/// functions below say.
#[verifier::external_type_specification]
#[verifier::external_body]
pub struct ExMd5(md5::Md5);

/// The MD5 digest of `message`: what `md5::Digest::result` gives for a
/// hasher that was fed `message`. Taken on trust, and not defined here.
pub uninterp spec fn md5_digest(message: Seq<u8>) -> Seq<u8>;

/// The bytes that `hasher` has been fed since it was made, in order.
pub uninterp spec fn md5_fed(hasher: md5::Md5) -> Seq<u8>;

/// Calls `md5::Digest::new` for `md5::Md5`. Taken on trust: the new hasher
/// has been fed nothing.
#[verifier::external_body]
fn md5_new() -> (hasher: md5::Md5)
    ensures
        md5_fed(hasher) == Seq::<u8>::empty(),
{
    md5::Md5::new()
}

/// Calls `md5::Digest::input` for `md5::Md5`. Taken on trust: the hasher
/// has then been fed `data` after all that it had been fed before, however
/// the bytes were cut into pieces.
#[verifier::external_body]
fn md5_input(hasher: &mut md5::Md5, data: &[u8])
    ensures
        md5_fed(*final(hasher)) == md5_fed(*old(hasher)) + data@,
{
    hasher.input(data)
}

/// Calls `md5::Digest::result` for `md5::Md5`. Taken on trust: the 16 bytes
/// that come back depend on nothing but the bytes that the hasher was fed,
/// and are named `md5_digest` of them.
#[verifier::external_body]
fn md5_result(hasher: md5::Md5) -> (digest: MD5Hash)
    ensures
        digest@ == md5_digest(md5_fed(hasher)),
{
    hasher.result().into()
}

/// An MD5 computation in progress, which takes the content piece by piece.
pub struct Md5Stream {
    hasher: md5::Md5,
}

impl Md5Stream {
    /// The bytes taken so far.
    pub closed spec fn taken(&self) -> Seq<u8> {
        md5_fed(self.hasher)
    }

    /// Starts a computation: nothing is taken yet.
    pub fn new() -> (stream: Self)
        ensures
            stream.taken() == Seq::<u8>::empty(),
    {
        Md5Stream { hasher: md5_new() }
    }

    /// Takes the next piece of the content.
    pub fn update(&mut self, data: &[u8])
        ensures
            final(self).taken() == old(self).taken() + data@,
    {
        md5_input(&mut self.hasher, data);
    }

    /// Ends the computation: the digest of all that was taken.
    pub fn finish(self) -> (digest: MD5Hash)
        ensures
            digest@ == md5_digest(self.taken()),
    {
        md5_result(self.hasher)
    }
}

/// The MD5 digest of `content`.
pub fn compute_md5(content: &[u8]) -> (digest: MD5Hash)
    ensures
        digest@ == md5_digest(content@),
{
    let mut stream = Md5Stream::new();
    stream.update(content);
    assert(Seq::<u8>::empty() + content@ =~= content@);
    stream.finish()
}

/// Whether two digests are the same, byte for byte.
pub fn same_digest(a: &MD5Hash, b: &MD5Hash) -> (same: bool)
    ensures
        same == (a@ == b@),
{
    let mut i: usize = 0;
    while i < 16
        invariant
            i <= 16,
            forall|j: int| 0 <= j < i ==> a@[j] == b@[j],
        decreases 16 - i,
    {
        if a[i] != b[i] {
            return false;
        }
        i += 1;
    }
    assert(a@ =~= b@);
    true
}

} // verus!
