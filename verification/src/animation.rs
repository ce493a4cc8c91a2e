pub mod v0;
pub mod v1;

pub use v1 as latest;
