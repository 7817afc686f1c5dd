//! The promote.lock record, which keeps code from changing mid-pipeline,
//! and the source hash it carries.

use sha2::Digest;
use vstd::prelude::*;

use super::PromoteError;
use crate::text::{cat, cat3, hex_of, hex_string, owned};

verus! {

/// Name of the lock file at the repository root.
pub const PROMOTE_LOCK_FILENAME: &'static str = "promote.lock";

/// The promote.lock record.
#[derive(Debug)]
pub struct PromoteLock {
    /// Version that was bumped.
    pub version: String,
    /// SHA-256 of concatenated publishable source files.
    pub source_hash: String,
    /// Timestamp when the bump occurred.
    pub bumped_at: String,
    /// First branch in the pipeline where bump happened.
    pub entered_pipeline: String,
}

impl Clone for PromoteLock {
    fn clone(&self) -> (r: Self)
        ensures
            r == *self,
    {
        PromoteLock {
            version: self.version.clone(),
            source_hash: self.source_hash.clone(),
            bumped_at: self.bumped_at.clone(),
            entered_pipeline: self.entered_pipeline.clone(),
        }
    }
}

/// The SHA-256 digest `sha2` computes of a byte string.
pub uninterp spec fn sha256_of(bytes: Seq<u8>) -> Seq<u8>;

/// SHA-256 of `bytes` (`sha2::Sha256::digest`): 32 bytes.
#[verifier::external_body]
fn sha256(bytes: &[u8]) -> (r: Vec<u8>)
    ensures
        r@ == sha256_of(bytes@),
        r@.len() == 32,
{
    sha2::Sha256::digest(bytes).to_vec()
}

/// The files' contents one after the other.
pub open spec fn concat_all(parts: Seq<Seq<u8>>) -> Seq<u8>
    decreases parts.len(),
{
    if parts.len() == 0 {
        Seq::empty()
    } else {
        concat_all(parts.drop_last()) + parts.last()
    }
}

/// The views of a list of byte strings.
pub open spec fn bytes_views(v: Seq<Vec<u8>>) -> Seq<Seq<u8>> {
    v.map_values(|b: Vec<u8>| b@)
}

/// The source hash of files with the given contents, in the given order:
/// `sha256:` and the hexadecimal SHA-256 of their concatenation.
pub open spec fn spec_source_hash(contents: Seq<Seq<u8>>) -> Seq<char> {
    "sha256:"@ + hex_of(sha256_of(concat_all(contents)))
}

proof fn lemma_concat_all_is_flatten_alt(parts: Seq<Seq<u8>>)
    ensures
        concat_all(parts) == parts.flatten_alt(),
    decreases parts.len(),
{
    if parts.len() > 0 {
        lemma_concat_all_is_flatten_alt(parts.drop_last());
    }
}

/// The source hash covers every file, in order: it is `sha256:` and the
/// hexadecimal SHA-256 of all the files' bytes joined one after the other
/// (`Seq::flatten`), so no file's contents are left out of what is
/// hashed. Hashing the files is hashing their concatenation as one file.
pub proof fn lemma_source_hash_covers_every_file(parts: Seq<Seq<u8>>)
    ensures
        spec_source_hash(parts) == "sha256:"@ + hex_of(sha256_of(parts.flatten())),
        spec_source_hash(parts) == spec_source_hash(seq![parts.flatten()]),
{
    lemma_concat_all_is_flatten_alt(parts);
    parts.lemma_flatten_and_flatten_alt_are_equivalent();
    let one = seq![parts.flatten()];
    lemma_concat_all_is_flatten_alt(one);
    one.lemma_flatten_and_flatten_alt_are_equivalent();
    one.lemma_flatten_one_element();
}

/// The message of a hash mismatch.
pub open spec fn mismatch_message(locked: Seq<char>, current: Seq<char>) -> Seq<char> {
    "source hash mismatch: lock says '"@ + locked + "' but current is '"@ + current + "'"@
}

impl PromoteLock {
    /// The SHA-256 hash of the publishable source files, given their
    /// contents in path order (`Cargo.toml`, `Cargo.lock` and
    /// `src/**/*.rs`, sorted by path). Hashing the files one after the
    /// other is hashing their concatenation. The text is `sha256:`
    /// followed by 64 hexadecimal digits.
    pub fn compute_source_hash(contents: &Vec<Vec<u8>>) -> (r: String)
        ensures
            r@ == spec_source_hash(bytes_views(contents@)),
            r@ == "sha256:"@ + hex_of(sha256_of(bytes_views(contents@).flatten())),
            r@.len() == 71,
    {
        let ghost parts = bytes_views(contents@);
        let mut all: Vec<u8> = Vec::new();
        let mut i: usize = 0;
        while i < contents.len()
            invariant
                i <= contents@.len(),
                parts == bytes_views(contents@),
                all@ == concat_all(parts.subrange(0, i as int)),
            decreases contents@.len() - i,
        {
            let part = &contents[i];
            let ghost before = all@;
            let mut j: usize = 0;
            while j < part.len()
                invariant
                    j <= part@.len(),
                    all@ == before + part@.subrange(0, j as int),
                decreases part@.len() - j,
            {
                all.push(part[j]);
                assert(part@.subrange(0, j + 1) =~= part@.subrange(0, j as int).push(part@[j as int]));
                j = j + 1;
            }
            assert(part@.subrange(0, part@.len() as int) =~= part@);
            assert(parts.subrange(0, i + 1).drop_last() =~= parts.subrange(0, i as int));
            assert(parts[i as int] == part@);
            i = i + 1;
        }
        assert(parts.subrange(0, contents@.len() as int) =~= parts);
        let digest = sha256(all.as_slice());
        let hex = hex_string(digest.as_slice());
        proof {
            reveal_strlit("sha256:");
            lemma_source_hash_covers_every_file(parts);
        }
        cat("sha256:", hex.as_str())
    }

    /// Verify that the source hash matches the current one.
    pub fn verify_hash(&self, current_hash: &str) -> (r: Result<(), PromoteError>)
        ensures
            self.source_hash@ == current_hash@ <==> r is Ok,
            r matches Err(PromoteError::Other(m)) ==> m@ == mismatch_message(
                self.source_hash@,
                current_hash@,
            ),
            r matches Err(e) ==> e is Other,
    {
        if crate::domain::string_eq(&self.source_hash, current_hash) {
            Ok(())
        } else {
            let a = cat3("source hash mismatch: lock says '", self.source_hash.as_str(), "' but current is '");
            Err(PromoteError::Other(cat3(a.as_str(), current_hash, "'")))
        }
    }

    /// The lock written by a bump: the new version, the source hash after
    /// the bump, when it happened, and the first stage of the branch
    /// pipeline (empty when there is none).
    pub fn for_bump(
        new_version: &str,
        source_hash: String,
        bumped_at: String,
        stages: &Vec<String>,
    ) -> (r: PromoteLock)
        ensures
            r.version@ == new_version@,
            r.source_hash == source_hash,
            r.bumped_at == bumped_at,
            stages@.len() > 0 ==> r.entered_pipeline@ == stages@[0]@,
            stages@.len() == 0 ==> r.entered_pipeline@ == Seq::<char>::empty(),
    {
        let entered_pipeline = if stages.len() > 0 {
            stages[0].clone()
        } else {
            String::new()
        };
        PromoteLock { version: owned(new_version), source_hash, bumped_at, entered_pipeline }
    }
}

} // verus!
