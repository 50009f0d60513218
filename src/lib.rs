//! Selection, filtering and retry logic for batch video transcoding with a
//! quality-targeted external encoder.
use vstd::prelude::*;

pub mod text;
pub mod paths;
pub mod classify;
pub mod filter;
pub mod encode;
pub mod retry;
pub mod batch;

pub use classify::find_mimetype;

verus! {

} // verus!
