//! The rules that patch a device description: the values of a patch file,
//! how names are matched against patterns, and the edits themselves.

/// Why a patch file cannot be applied
pub mod error;

/// The values of a patch file
pub mod yaml;

/// The types of the YAML reader
pub mod reader_types;

/// Matching names against the patterns of a patch file
pub mod names;

/// The elements that the entries of a patch file describe
pub mod make;

/// Merging an included patch file into the one that includes it
pub mod merge;

/// Reading patch files and the files that they bring in
pub mod inclusion;

/// The edits that a patch file makes to the peripherals of a device
pub mod device;

/// The edits that a patch file makes to the fields of a register
pub mod register;

/// Collecting fields into an array of fields
pub mod collect;

/// Giving fields enumerated values
pub mod enums;

/// Applying the edits of a patch file to a register
pub mod process;

/// The edits that a patch file makes to a peripheral
pub mod peripheral;

/// Collecting registers into an array of registers
pub mod register_array;

/// Collecting registers into an array of clusters
pub mod cluster_collect;

/// Applying the edits of a patch file to a peripheral
pub mod peripheral_process;

/// The peripherals that a patch file describes
pub mod peripheral_make;

/// Applying the edits of a patch file to a device
pub mod device_process;
