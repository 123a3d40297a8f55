//! Verifying a downloaded file against its expected hash.

use vstd::prelude::*;
use vstd::utf8::encode_utf8;
use crate::outside::{
    hex_encode, lower_hex, md5_consume, md5_digest, md5_fed, md5_finish_hex, md5_start,
    sha256_digest, sha256_fed, sha256_finish, sha256_start, sha256_update,
};
use crate::types::download_error::DownloadError;

verus! {

/// A hash computation in progress, of the kind the expected hash calls for.
pub enum Hasher {
    Md5(md5::Context),
    Sha256(ring::digest::Context),
}

/// The length in bytes of a hash written as `text` (as `str::len` gives it).
pub open spec fn byte_len(text: Seq<char>) -> usize {
    encode_utf8(text).len() as usize
}

impl Hasher {
    /// The bytes hashed so far.
    pub open spec fn fed(&self) -> Seq<u8> {
        match self {
            Hasher::Md5(c) => md5_fed(*c),
            Hasher::Sha256(c) => sha256_fed(*c),
        }
    }

    /// The digest of the bytes hashed so far, in lowercase hexadecimal.
    pub open spec fn hex_digest(&self) -> Seq<char> {
        match self {
            Hasher::Md5(_) => lower_hex(md5_digest(self.fed())),
            Hasher::Sha256(_) => lower_hex(sha256_digest(self.fed())),
        }
    }

    /// A hasher for checking against `expected`: MD5 for a hash of 32 bytes,
    /// SHA-256 for one of 64 bytes; any other length is `UnknownHash`.
    pub fn for_expected(expected: &String) -> (r: Result<Hasher, DownloadError>)
        ensures
            byte_len(expected@) == 32 ==> (r matches Ok(h) && h is Md5 && h.fed() == Seq::<
                u8,
            >::empty()),
            byte_len(expected@) == 64 ==> (r matches Ok(h) && h is Sha256 && h.fed() == Seq::<
                u8,
            >::empty()),
            byte_len(expected@) != 32 && byte_len(expected@) != 64 ==> r == Err::<
                Hasher,
                DownloadError,
            >(DownloadError::UnknownHash),
    {
        let n: usize = expected.as_str().len();
        if n == 32 {
            Ok(Hasher::Md5(md5_start()))
        } else if n == 64 {
            Ok(Hasher::Sha256(sha256_start()))
        } else {
            Err(DownloadError::UnknownHash)
        }
    }

    /// Hashes `data` after the bytes hashed so far.
    pub fn update(&mut self, data: &[u8])
        ensures
            final(self).fed() == old(self).fed() + data@,
            *final(self) is Md5 <==> *old(self) is Md5,
    {
        match self {
            Hasher::Md5(c) => md5_consume(c, data),
            Hasher::Sha256(c) => sha256_update(c, data),
        }
    }

    /// The digest of the bytes hashed, in lowercase hexadecimal.
    pub fn finish_hex(self) -> (r: String)
        ensures
            r@ == self.hex_digest(),
    {
        match self {
            Hasher::Md5(c) => md5_finish_hex(c),
            Hasher::Sha256(c) => {
                let digest = sha256_finish(c);
                hex_encode(digest.as_slice())
            },
        }
    }

    /// Whether the bytes hashed match `expected`: `HashMismatch` unless the
    /// digest in lowercase hexadecimal equals it.
    pub fn check(self, expected: &String) -> (r: Result<(), DownloadError>)
        ensures
            r is Ok <==> self.hex_digest() == expected@,
            r is Err ==> r == Err::<(), DownloadError>(DownloadError::HashMismatch),
    {
        let actual = self.finish_hex();
        if actual != *expected {
            Err(DownloadError::HashMismatch)
        } else {
            Ok(())
        }
    }
}

} // verus!
