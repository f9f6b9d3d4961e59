pub mod compound;
pub mod stream;

pub use self::stream::StreamReader;
