// A prompt-selection library: two fixed pools of text lines, and a
// selector that draws one line per request, reproducibly from a seed and a
// stream index, or from fresh entropy when no seed is given.

pub mod corpus;
pub mod parse;
pub mod request;
pub mod rng;
pub mod router;
pub mod selector;
pub mod text;
