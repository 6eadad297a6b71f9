//! Core logic of a multimodal (image + text) inference pipeline: selecting a
//! vision-encoder layer, merging a grid of image-patch embeddings into a token
//! sequence, splicing that sequence into a tokenized prompt, and scheduling
//! the incremental decode loop.
pub mod decode;
pub mod errors;
pub mod features;
pub mod fusion;
pub mod geometry;
pub mod merge;
pub mod setup;
pub mod tensor_ops;

pub use features::select_layer_index;
