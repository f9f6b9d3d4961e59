pub mod document;
pub mod hwp_writer;
pub mod serializer;

pub use self::hwp_writer::{HwpWriter, ListType};
