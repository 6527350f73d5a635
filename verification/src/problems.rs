//! Pre-implemented problems for demonstration and testing. To bring your
//! own problem, implement the `Solution` trait for it.

pub mod example;

pub use example::Example;
