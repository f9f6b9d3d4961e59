pub mod layout;
pub mod renderer;

pub use self::layout::{LayoutEngine, LayoutResult, RenderedLine, RenderedPage, RenderedParagraph, TextRun};
