//! Control logic for a sysfs-style display backlight interface.
//!
//! The library holds everything that can be stated and proved about the
//! tool: the grammar of the value argument, parsing of control-file text,
//! the brightness calculator with its clamping guarantee, and the command
//! surface's dispatch rules. File reads and writes themselves live in the
//! accompanying binary, which hands this library plain values.

pub mod calc;
pub mod digits;
pub mod error;
pub mod grammar;
pub mod reader;
pub mod surface;
pub mod writer;

pub use calc::AdjustmentSpec;
pub use calc::compute_target;
pub use digits::format_brightness;
pub use error::BacklightError;
pub use grammar::value_validator;
pub use reader::parse_brightness_text;
pub use surface::Action;
pub use surface::decide_action;
pub use surface::parse_adjustment;
pub use surface::stats_exit_success;
pub use writer::validate_brightness;
