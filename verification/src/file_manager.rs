//! Integrity of downloaded files: SHA-256 digests in lowercase hexadecimal,
//! and their comparison with the digest that a server declares.

use vstd::prelude::*;
use vstd::slice::slice_subrange;
use crate::digest::{
    hex_digit, hex_encode, hex_lower, sha256, sha256_finalize, sha256_new, sha256_update, absorbed,
    Sha256State,
};
use crate::text::{ascii_folded, ascii_lower, eq_ignore_ascii_case};

verus! {

/// The number of bytes that are hashed at a time.
pub const HASH_BLOCK_SIZE: usize = 8192;

/// The digest of a file's contents as text: the SHA-256 hash in lowercase
/// hexadecimal.
pub open spec fn digest_hex(contents: Seq<u8>) -> Seq<char> {
    hex_lower(sha256(contents))
}

/// Whether a digest is the expected one, whatever the case of the letters
/// in either.
pub open spec fn digest_matches(actual: Seq<char>, expected: Seq<char>) -> bool {
    ascii_folded(actual) == ascii_folded(expected)
}

/// A digest in the making, for contents that arrive block by block.
///
/// Its view is everything it has been given so far.
pub struct FileHasher {
    state: Sha256State,
}

impl View for FileHasher {
    type V = Seq<u8>;

    closed spec fn view(&self) -> Seq<u8> {
        absorbed(self.state)
    }
}

impl FileHasher {
    /// A hasher that has been given nothing yet.
    pub fn new() -> (hasher: FileHasher)
        ensures
            hasher@ == Seq::<u8>::empty(),
    {
        FileHasher { state: sha256_new() }
    }

    /// Adds a block to the end of the contents.
    pub fn update(&mut self, block: &[u8])
        ensures
            final(self)@ == old(self)@ + block@,
    {
        sha256_update(&mut self.state, block);
    }

    /// Takes the outcome of one read into `buffer`: its first `bytes_read`
    /// bytes are added to the contents.  The answer says whether to read
    /// again; a read of no bytes is the end of the file.
    pub fn on_read(&mut self, buffer: &[u8], bytes_read: usize) -> (more: bool)
        requires
            bytes_read <= buffer@.len(),
        ensures
            final(self)@ == old(self)@ + buffer@.take(bytes_read as int),
            more == (bytes_read > 0),
    {
        if bytes_read == 0 {
            assert(self@ + buffer@.take(0) =~= self@);
            false
        } else {
            self.update(slice_subrange(buffer, 0, bytes_read));
            true
        }
    }

    /// The digest of the contents.
    pub fn finish(self) -> (digest: String)
        ensures
            digest@ == digest_hex(self@),
            digest@.len() == 64,
    {
        let hash = sha256_finalize(self.state);
        hex_encode(hash.as_slice())
    }
}

/// Digests of files and their verification.
pub struct FileManager;

impl FileManager {
    /// The digest of a file's contents.  The contents are hashed
    /// `HASH_BLOCK_SIZE` bytes at a time.
    pub fn calculate_file_hash(contents: &[u8]) -> (digest: String)
        ensures
            digest@ == digest_hex(contents@),
            digest@.len() == 64,
    {
        let mut hasher = FileHasher::new();
        let mut offset: usize = 0;
        while offset < contents.len()
            invariant
                offset <= contents@.len(),
                hasher@ == contents@.take(offset as int),
            decreases contents@.len() - offset,
        {
            let end: usize = if contents.len() - offset > HASH_BLOCK_SIZE {
                offset + HASH_BLOCK_SIZE
            } else {
                contents.len()
            };
            hasher.update(slice_subrange(contents, offset, end));
            assert(contents@.take(offset as int) + contents@.subrange(offset as int, end as int)
                =~= contents@.take(end as int));
            offset = end;
        }
        assert(contents@.take(offset as int) =~= contents@);
        hasher.finish()
    }

    /// Whether a file's contents have the expected digest.  The expected
    /// digest may be written with capital or small letters.
    pub fn verify_file_integrity(contents: &[u8], expected_hash: &str) -> (intact: bool)
        ensures
            intact == digest_matches(digest_hex(contents@), expected_hash@),
    {
        let actual_hash = Self::calculate_file_hash(contents);
        Self::hash_matches(actual_hash.as_str(), expected_hash)
    }

    /// Whether a digest that was computed is the expected one, whatever the
    /// case of the letters in either.
    pub fn hash_matches(actual_hash: &str, expected_hash: &str) -> (same: bool)
        ensures
            same == digest_matches(actual_hash@, expected_hash@),
    {
        eq_ignore_ascii_case(actual_hash, expected_hash)
    }

    /// A raw digest as text, in lowercase hexadecimal.
    pub fn digest_to_hex(digest: &[u8]) -> (text: String)
        ensures
            text@ == hex_lower(digest@),
    {
        hex_encode(digest)
    }
}

/// A hexadecimal digit is no capital letter, and tells its value.
pub proof fn lemma_hex_digit(nibble: int)
    requires
        0 <= nibble < 16,
    ensures
        ascii_lower(hex_digit(nibble)) == hex_digit(nibble),
        forall|other: int|
            0 <= other < 16 && hex_digit(other) == hex_digit(nibble) ==> other == nibble,
{
}

/// Lowercasing leaves a hexadecimal encoding as it is.
pub proof fn lemma_hex_is_lowercase(bytes: Seq<u8>)
    ensures
        ascii_folded(hex_lower(bytes)) == hex_lower(bytes),
{
    assert forall|i: int| 0 <= i < hex_lower(bytes).len() implies ascii_lower(
        #[trigger] hex_lower(bytes)[i],
    ) == hex_lower(bytes)[i] by {
        lemma_hex_digit(bytes[i / 2] as int / 16);
        lemma_hex_digit(bytes[i / 2] as int % 16);
    }
    assert(ascii_folded(hex_lower(bytes)) =~= hex_lower(bytes));
}

/// Two byte strings with the same hexadecimal encoding are the same.
pub proof fn lemma_hex_is_injective(first: Seq<u8>, second: Seq<u8>)
    requires
        hex_lower(first) == hex_lower(second),
    ensures
        first == second,
{
    assert(hex_lower(first).len() == 2 * first.len());
    assert(hex_lower(second).len() == 2 * second.len());
    assert forall|i: int| 0 <= i < first.len() implies first[i] == second[i] by {
        let high = hex_lower(first)[2 * i];
        let low = hex_lower(first)[2 * i + 1];
        assert(high == hex_lower(second)[2 * i]);
        assert(low == hex_lower(second)[2 * i + 1]);
        assert((2 * i) / 2 == i && (2 * i) % 2 == 0);
        assert((2 * i + 1) / 2 == i && (2 * i + 1) % 2 == 1);
        lemma_hex_digit(first[i] as int / 16);
        lemma_hex_digit(first[i] as int % 16);
        lemma_hex_digit(second[i] as int / 16);
        lemma_hex_digit(second[i] as int % 16);
    }
    assert(first =~= second);
}

/// The digest depends on the contents alone: equal contents have equal
/// digests.
pub proof fn law_digest_is_deterministic(first: Seq<u8>, second: Seq<u8>)
    requires
        first == second,
    ensures
        digest_hex(first) == digest_hex(second),
{
}

/// The digest text loses nothing of the hash: two contents have the same
/// digest exactly when their SHA-256 hashes are the same.
pub proof fn law_digest_tells_hashes_apart(first: Seq<u8>, second: Seq<u8>)
    ensures
        digest_hex(first) == digest_hex(second) <==> sha256(first) == sha256(second),
{
    if digest_hex(first) == digest_hex(second) {
        lemma_hex_is_injective(sha256(first), sha256(second));
    }
}

/// A file is intact by its own digest.
pub proof fn law_verify_accepts_own_digest(contents: Seq<u8>)
    ensures
        digest_matches(digest_hex(contents), digest_hex(contents)),
{
}

/// A file is intact by an expected digest exactly when that digest, with
/// its letters lowercased, is the file's own.
pub proof fn law_verify_ignores_case(contents: Seq<u8>, expected: Seq<char>)
    ensures
        digest_matches(digest_hex(contents), expected) <==> ascii_folded(expected) == digest_hex(
            contents,
        ),
{
    lemma_hex_is_lowercase(sha256(contents));
}

} // verus!
