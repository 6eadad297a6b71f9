//! Error taxonomy: configuration errors are detected at setup time,
//! data-consistency errors during fusion, and shape errors during merging.
//! All are deterministic for a given input; none is retriable.
use vstd::prelude::*;

verus! {

/// A configuration value that the pipeline does not support, reported with
/// the offending value before any tensor computation starts.
#[derive(Clone, Copy, Debug, PartialEq, Eq, Structural)]
pub enum ConfigError {
    /// The vision-feature selector accepts only the offsets -1 and -2.
    UnsupportedSelectLayer { offset: i64 },
    /// The patch-merge policy string named a policy this crate does not know.
    UnsupportedMergePolicy,
    /// The multimodal projector type string named no supported projector.
    UnsupportedProjectorType,
}

/// A mismatch between the tokenized prompt and the image features handed to
/// embedding fusion; fatal to the current request, never retried.
#[derive(Clone, Copy, Debug, PartialEq, Eq, Structural)]
pub enum FusionError {
    /// The prompt holds no image placeholder, or more than one, while exactly
    /// one image feature block was supplied. `found` is the occurrence count.
    PlaceholderCountMismatch { found: usize },
    /// The position handed to the embedding splicer lies past the text span.
    PlaceholderOutOfRange { position: usize, text_len: usize },
    /// The embedded text does not have one row per non-placeholder token.
    TextSpanMismatch { expected: usize, found: usize },
}

/// A tensor whose shape cannot be merged: rank or dimensions do not match
/// what the patch-grid merger needs. Surfaced instead of an index panic.
#[derive(Clone, Copy, Debug, PartialEq, Eq, Structural)]
pub enum MergeError {
    /// The per-image feature tensor does not have one row of patches per tile.
    BadFeatureShape,
    /// No supported resolution matches the image (empty pinpoint list).
    NoResolutionMatch,
    /// The tile grid derived from the pinpoints disagrees with the number of
    /// tiles actually present in the feature tensor.
    GridTileMismatch { expected: u64, found: u64 },
}

} // verus!
