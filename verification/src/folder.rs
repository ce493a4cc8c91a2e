pub mod v0;

pub use v0 as latest;
