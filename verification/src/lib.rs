//! Capability negotiation for a Vulkan instance and the table that maps
//! compositor pixel formats onto Vulkan formats.
//!
//! The crate holds the decisions: which requested extensions and layers the
//! runtime lacks, how a native result code becomes an error, how names are
//! laid out for the native call, and which Vulkan format stands for a pixel
//! format. The calls into the Vulkan loader are made by the program that uses
//! this crate, which hands the enumerated names and result codes in as plain
//! values.

pub mod format;
pub mod instance;
pub mod names;
