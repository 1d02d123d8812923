//! Translation of structural type definitions into interface-description
//! fragments, and the content-addressed naming of the files that hold them.

pub mod definition;
pub mod dispatch;
pub mod store;
pub mod types;

pub use dispatch::witgen;
