//! Resolve the controlling terminal (ctty) of the calling process to a
//! device path, independently of whether the standard streams are redirected.
//!
//! Two operations make up the public surface:
//! - a device-identifier resolver, which extracts the controlling terminal's
//!   device identifier from the calling process's kernel status record
//!   ([`ctty_dev_of_record`] holds the verified parsing logic); and
//! - a path resolver, [`get_path_for_dev`], which probes the device-file
//!   namespace for a node whose metadata reports that identifier.
//!
//! The decision logic of the resolvers that rely on a native name-resolution
//! primitive lives in [`devname`]: the native call itself is performed by the
//! embedding program, which hands its raw results to the verified functions
//! there.

mod devname;
mod error;
mod probe;
mod record;

pub use devname::ctty_dev_from_raw;
pub use devname::is_unknown_device_name;
pub use devname::path_for_device_name;
pub use error::CttyError;
pub use probe::Candidate;
pub use probe::first_match;
pub use probe::get_path_for_dev;
pub use probe::has_match;
pub use probe::no_match_before;
pub use probe::patterns_clean;
pub use probe::select_path;
pub use record::ctty_dev_of_record;
pub use record::lemma_delimiter_is_last_rparen;
