//! Bring-up of the compass board: the ordering, ownership and sensor-mode
//! rules that take the hardware from reset to a ready-to-sample bundle.
pub mod direction;
pub mod error;
pub mod pins;
pub mod bus;
pub mod sensor;
pub mod bringup;
