//! Models of what a platform reports about its windows and monitors, and the
//! rules by which a layout is applied to them.

pub mod unix;
pub mod win;
pub mod windows;
