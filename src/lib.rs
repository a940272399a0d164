pub mod buffer;
pub mod cell;
pub mod lemmas;
pub mod print;
pub mod writer;

pub use buffer::{Buffer, BUFFER_HEIGHT, BUFFER_WIDTH};
pub use cell::{Color, ColorCode, ScreenChar};
pub use print::_print;
pub use writer::Writer;
