//! Reading, checking and building the records of HWP documents.

pub mod error;
pub mod utils;
pub mod reader;
pub mod parser;
pub mod model;
pub mod crypto;
pub mod preview;
pub mod hwpx;
pub mod render;

pub use crate::error::HwpError;
pub mod writer;
