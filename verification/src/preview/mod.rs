pub mod preview_image;
pub mod preview_text;
pub mod summary_info;

pub use self::preview_image::{ImageFormat, PreviewImage};
pub use self::preview_text::PreviewText;
pub use self::summary_info::SummaryInfo;
