//! The artifact: the accumulator as bytes, written and read with `bincode`.
//!
//! The bytes are what `bincode` makes of the list of entries: the number of
//! entries, then for each entry the URL and the payload, each with its
//! length in front. A hash map from `String` to `Vec<u8>` has the same
//! layout, so artifacts written from such a map load here, and the other
//! way round.

use vstd::prelude::*;
use crate::accumulator::{collect, lemma_collect_distinct, mapping, Accumulator, Entries};

verus! {

/// `bincode::ErrorKind`, the error of `bincode`: carried through, never read.
#[verifier::external_type_specification]
#[verifier::external_body]
pub struct ExBincodeErrorKind(bincode::ErrorKind);

/// The bytes that `bincode::serialize` gives for a list of pairs of a string
/// and a byte vector, or `None` where it reports an error.
pub uninterp spec fn bincode_encoded(entries: Seq<(Seq<char>, Seq<u8>)>) -> Option<Seq<u8>>;

/// The list of pairs of a string and a byte vector that `bincode::deserialize`
/// reads from `bytes`, or `None` where it reports an error.
pub uninterp spec fn bincode_decoded(bytes: Seq<u8>) -> Option<Seq<(Seq<char>, Seq<u8>)>>;

/// Calls `bincode::serialize` on a list of pairs of a string and a byte
/// vector.
///
/// Not proved, but taken from `bincode`: whether it succeeds and the bytes
/// that it gives depend on the pairs alone; and from the bytes that it gives,
/// `bincode::deserialize` reads the same pairs back.
#[verifier::external_body]
fn bincode_serialize(entries: &[(String, Vec<u8>)]) -> (outcome: Result<
    Vec<u8>,
    Box<bincode::ErrorKind>,
>)
    ensures
        match outcome {
            Ok(bytes) => bincode_encoded(entries.deep_view()) == Some(bytes@) && bincode_decoded(
                bytes@,
            ) == Some(entries.deep_view()),
            Err(_) => bincode_encoded(entries.deep_view()) is None,
        },
{
    bincode::serialize(entries)
}

/// Calls `bincode::deserialize` for a list of pairs of a string and a byte
/// vector.
///
/// Not proved, but taken from `bincode`: whether it succeeds and the pairs
/// that it gives depend on the bytes alone.
#[verifier::external_body]
fn bincode_deserialize(bytes: &[u8]) -> (outcome: Result<
    Vec<(String, Vec<u8>)>,
    Box<bincode::ErrorKind>,
>)
    ensures
        match outcome {
            Ok(entries) => bincode_decoded(bytes@) == Some(entries.deep_view()),
            Err(_) => bincode_decoded(bytes@) is None,
        },
{
    bincode::deserialize(bytes)
}

/// Why an artifact could not be written or read.
#[derive(Debug, Clone, Copy, PartialEq, Eq, Structural)]
pub enum ArtifactError {
    /// The accumulator could not be serialized.
    Serialization,
    /// The bytes are not the encoding of any accumulator.
    Malformed,
}

/// `bytes` is the artifact of `entries`: their encoding, from which they are
/// read back.
pub open spec fn is_artifact_of(bytes: Seq<u8>, entries: Entries) -> bool {
    &&& bincode_encoded(entries) == Some(bytes)
    &&& bincode_decoded(bytes) == Some(entries)
}

/// The entries of the accumulator that `bytes` encode, if they encode one:
/// the pairs read from them, stored one after the other, so that of two
/// pairs with one URL the later one stays.
pub open spec fn artifact_entries(bytes: Seq<u8>) -> Option<Entries> {
    match bincode_decoded(bytes) {
        Some(list) => Some(collect(list)),
        None => None,
    }
}

impl Accumulator {
    /// Serializes the whole mapping into the bytes of the artifact. The bytes
    /// are such that `load` gives the same accumulator back.
    pub fn export(&self) -> (artifact: Result<Vec<u8>, ArtifactError>)
        requires
            self.well_formed(),
        ensures
            match artifact {
                Ok(bytes) => is_artifact_of(bytes@, self.entries()) && artifact_entries(bytes@)
                    == Some(self.entries()),
                Err(error) => error == ArtifactError::Serialization && bincode_encoded(
                    self.entries(),
                ) is None,
            },
    {
        proof {
            lemma_collect_distinct(self.entries());
        }
        match bincode_serialize(self.as_pairs()) {
            Ok(bytes) => Ok(bytes),
            Err(_) => Err(ArtifactError::Serialization),
        }
    }

    /// Reads an accumulator back from the bytes of an artifact. Bytes that
    /// encode no list of entries are refused.
    pub fn load(bytes: &[u8]) -> (loaded: Result<Accumulator, ArtifactError>)
        ensures
            match loaded {
                Ok(store) => store.well_formed() && artifact_entries(bytes@) == Some(
                    store.entries(),
                ),
                Err(error) => error == ArtifactError::Malformed && artifact_entries(bytes@) is None,
            },
    {
        match bincode_deserialize(bytes) {
            Ok(list) => Ok(Accumulator::from_entries(list)),
            Err(_) => Err(ArtifactError::Malformed),
        }
    }
}

/// Round trip: from the artifact of an accumulator, loading gives that
/// accumulator back, entry by entry, and so the same mapping. This holds of
/// every accumulator, the empty one too.
pub proof fn law_load_inverts_export(store: Accumulator, bytes: Seq<u8>)
    requires
        store.well_formed(),
        is_artifact_of(bytes, store.entries()),
    ensures
        artifact_entries(bytes) == Some(store.entries()),
        mapping(artifact_entries(bytes).unwrap()) == store@,
{
    lemma_collect_distinct(store.entries());
}

} // verus!
