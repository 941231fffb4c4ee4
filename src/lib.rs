//! Automatic display backlight control driven by the position of the sun.
//!
//! The library holds the decisions: how a brightness level is read from and
//! written to a device's text value, which brightness a moment of the day
//! calls for, and how a target reaches every device of a registry.
pub mod decimal;
pub mod device;
pub mod schedule;
pub mod registry;
