//! Segment animation, LED frame encoding and frame layout for a chain of
//! clocked addressable LEDs.

pub mod color;
pub mod control;
pub mod effects;
pub mod frame;
pub mod pixel;
pub mod render;
pub mod segment;
pub mod store;

pub use color::{Srgb8, Wrap};
pub use segment::{ConfigError, Segment, Sweep};
pub use pixel::{Pixel, LED_STRIP_SPI_FRAME_SK9822_LED_MSB3};
pub use frame::{Data, FrameError, HeapData};
pub use store::State;
pub use render::render_segments;
pub use control::Control;
pub use effects::{
    chase, expanding_circle, expanding_circle_2, progress, Row, RowIterator, RowPixel,
};
