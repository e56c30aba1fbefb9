//! Batch image fetching: the rules of a run that downloads every image a
//! list of posts refers to and keeps the bytes, keyed by URL, in one artifact.
//!
//! The crate does no input or output itself. A program around it reads the
//! posts, performs the HTTP requests and writes the artifact; what to make of
//! each reply, what the accumulator holds at the end, how far the run has
//! come and what the artifact's bytes are is decided here, and proved.
//!
//! - [`post`]: the posts that name the images.
//! - [`fetch`]: the reply to one fetch, and whether it counts as a success.
//! - [`accumulator`]: the mapping from URL to payload.
//! - [`outcome`]: what a sequence of fetches makes of the accumulator.
//! - [`run`]: a fetch run over all posts, with its progress counter and log.
//! - [`artifact`]: the accumulator as bytes, and back.
//! - [`inspect`]: the summary shown of an artifact that exists already.
//! - [`mode`]: the choice between fetching and inspecting.
//! - [`text`]: rendering of numbers and byte lists.

pub mod accumulator;
pub mod artifact;
pub mod fetch;
pub mod inspect;
pub mod mode;
pub mod outcome;
pub mod post;
pub mod run;
pub mod text;
