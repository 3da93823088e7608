//! A deterministic pseudorandom generator that can be split into
//! reproducible children, serialised to four integers and replayed.

pub mod hash;
pub mod lemmas;
pub mod order;
pub mod pool;
pub mod rng;
pub mod source;

pub use pool::BooleanList;
pub use rng::SplittingRng;
pub use source::WordSource;
