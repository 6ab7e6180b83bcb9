use vstd::prelude::*;

pub mod api;
pub mod assets;
pub mod audio;
pub mod config;
pub mod error;
pub mod segment;
pub mod stream;
pub mod strings;
pub mod validation;

verus! {

// Text-to-speech serving core: text segmentation, audio framing and the
// decisions of an incremental speech stream, with request validation.

} // verus!
