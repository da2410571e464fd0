//! What the desktop agent does with a capture before it leaves the machine.

pub mod delivery;
pub mod domains;
pub mod filters;
pub mod names;
