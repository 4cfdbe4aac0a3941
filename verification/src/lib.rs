//! Per-profile CPU power tuning: the rules that tie a power profile to the
//! turbo and governor settings of the processor.
//!
//! The crate opens no control file and speaks to no bus. It is handed what was
//! read from the control files and from the bus, and it answers with the
//! writes that are to be performed. The one thing it asks of the machine
//! itself is the number of its logical processors.

pub mod cli;
pub mod daemon;
pub mod error;
pub mod profile;
pub mod profile_set;
pub mod sysfs_interface;
pub mod text;

pub use error::AppError;
