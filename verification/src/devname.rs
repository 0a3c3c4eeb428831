//! Decision logic of the resolvers that rely on the platform's native
//! name-resolution primitives.
//!
//! On the platforms served by these functions, two native primitives do the
//! kernel-facing work: one returns the calling process's controlling-terminal
//! device identifier as an unsigned 64-bit value with `0` meaning "not
//! found", and one maps a device identifier to a base device name, signalling
//! failure with a null result or a name whose first character is `?` or `#`.
//! The embedding program performs those calls and hands their raw results to
//! the functions here, which make every decision that follows.

use vstd::prelude::*;
use vstd::string::*;

use crate::error::CttyError;

verus! {

/// Interprets the raw value of the native controlling-terminal query:
/// `0` is the platform's sentinel for "no controlling terminal".
pub fn ctty_dev_from_raw(raw: u64) -> (r: Result<u64, CttyError>)
    ensures
        raw == 0 ==> (r matches Err(e) && e is NotFound),
        raw != 0 ==> (r matches Ok(d) && d == raw),
{
    if raw == 0 {
        Err(CttyError::NotFound)
    } else {
        Ok(raw)
    }
}

/// A name that the native name-resolution primitive uses to signal an
/// unknown device: its first character is `?` or `#`.
pub open spec fn is_unknown_device_name(n: Seq<char>) -> bool {
    n.len() > 0 && (n[0] == '?' || n[0] == '#')
}

/// Builds the device path for a base name returned by the native
/// name-resolution primitive. `None` stands for a null result; a name whose
/// first character is a sentinel (`?` or `#`) likewise means the device is
/// unknown. Every other name is prefixed with the device directory.
pub fn path_for_device_name(name: Option<&str>) -> (r: Result<String, CttyError>)
    ensures
        match name {
            None => r matches Err(e) && e is NotFound,
            Some(n) => (if is_unknown_device_name(n@) {
                r matches Err(e) && e is NotFound
            } else {
                r matches Ok(p) && p@ == "/dev/"@ + n@
            }),
        },
{
    match name {
        None => Err(CttyError::NotFound),
        Some(n) => {
            if !n.is_empty() {
                let c = n.get_char(0);
                if c == '?' || c == '#' {
                    return Err(CttyError::NotFound);
                }
            }
            let mut p = String::from_str("/dev/");
            p.append(n);
            Ok(p)
        },
    }
}

} // verus!
