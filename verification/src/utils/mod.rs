pub mod bytes;
pub mod text;
pub mod encoding;
pub mod compression;
pub mod chars;
