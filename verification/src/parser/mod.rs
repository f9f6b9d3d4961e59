pub mod record;
pub mod header;
pub mod doc_info;

pub use self::header::FileHeader;
pub use self::record::{HwpTag, Record, RecordHeader};
