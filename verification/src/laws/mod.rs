//! What holds of the quantities for all values: the laws of conversion, of
//! the links between dimensions, and of the order.

pub mod consistency;
pub mod dimension;
pub mod factors;
pub mod order;
pub mod round_trip;
pub mod rounding;
