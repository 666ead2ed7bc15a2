//! The traits of the four dimensions, to import at once.

pub use crate::angle::Angle;
pub use crate::area::Area;
pub use crate::length::Length;
pub use crate::volume::Volume;
