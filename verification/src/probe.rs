//! The path resolver for the kernel-process-table platform family: probe the
//! device-file namespace for a node whose metadata reports a given device
//! identifier.
//!
//! The probe enumerates candidate paths under an ordered list of patterns
//! (pseudo-terminal slaves first, then the legacy single path), retrieves
//! each candidate's device identifier, and returns the first exact match in
//! pattern-then-enumeration order. Candidates that fail to enumerate or fail
//! to stat are silently skipped: transient per-entry races are expected noise
//! in a best-effort scan, not failures of the whole resolution.

use vstd::prelude::*;

use crate::error::CttyError;

verus! {

/// A probed device node: its path and the device identifier its filesystem
/// metadata reports.
pub struct Candidate {
    pub path: String,
    pub rdev: u64,
}

/// No candidate strictly before position `i` reports the device `dev`.
pub open spec fn no_match_before(s: Seq<Candidate>, dev: u64, i: int) -> bool {
    forall|j: int| 0 <= j < i ==> (#[trigger] s[j]).rdev != dev
}

/// Returns the path of the first candidate whose device identifier equals
/// `dev`, or `None` when no candidate matches. The fixed scan order is the
/// documented tie-break when several nodes alias one device identifier.
pub fn first_match(dev: u64, candidates: &Vec<Candidate>) -> (r: Option<String>)
    ensures
        match r {
            Some(p) => exists|i: int|
                #![trigger candidates@[i]]
                0 <= i < candidates@.len() && candidates@[i].rdev == dev && p@
                    == candidates@[i].path@ && no_match_before(candidates@, dev, i),
            None => no_match_before(candidates@, dev, candidates@.len() as int),
        },
{
    let mut k: usize = 0;
    while k < candidates.len()
        invariant
            k <= candidates@.len(),
            no_match_before(candidates@, dev, k as int),
        decreases candidates@.len() - k,
    {
        if candidates[k].rdev == dev {
            let p = candidates[k].path.clone();
            return Some(p);
        }
        k += 1;
    }
    None
}

/// Some candidate of `s` reports the device `dev`.
pub open spec fn has_match(s: Seq<Candidate>, dev: u64) -> bool {
    exists|i: int| 0 <= i < s.len() && (#[trigger] s[i]).rdev == dev
}

/// Every pattern before `upto` enumerated successfully and offered no
/// matching candidate: the probe's decision lies at or past `upto`.
pub open spec fn patterns_clean(
    rs: Seq<Result<Vec<Candidate>, String>>,
    dev: u64,
    upto: int,
) -> bool {
    forall|q: int| 0 <= q < upto ==> ((#[trigger] rs[q]) matches Ok(cs) && !has_match(cs@, dev))
}

/// Decides the probe's outcome from the per-pattern enumeration results, in
/// pattern order: the first pattern that fails to enumerate yields `IOError`
/// with its cause; otherwise the first matching candidate yields its path;
/// when every pattern enumerates and no candidate matches, `NotFound`.
pub fn select_path(dev: u64, results: &Vec<Result<Vec<Candidate>, String>>) -> (r: Result<
    String,
    CttyError,
>)
    ensures
        match r {
            Ok(p) => exists|q: int|
                #![trigger results@[q]]
                0 <= q < results@.len() && patterns_clean(results@, dev, q) && (results@[q] matches Ok(
                    cs,
                ) && exists|i: int|
                    #![trigger cs@[i]]
                    0 <= i < cs@.len() && cs@[i].rdev == dev && p@ == cs@[i].path@
                        && no_match_before(cs@, dev, i)),
            Err(e) => match e {
                CttyError::IOError(m) => exists|q: int|
                    #![trigger results@[q]]
                    0 <= q < results@.len() && patterns_clean(results@, dev, q)
                        && (results@[q] matches Err(cause) && m@ == cause@),
                CttyError::NotFound => patterns_clean(results@, dev, results@.len() as int),
                _ => false,
            },
        },
{
    let mut pi: usize = 0;
    while pi < results.len()
        invariant
            pi <= results@.len(),
            patterns_clean(results@, dev, pi as int),
        decreases results@.len() - pi,
    {
        match &results[pi] {
            Err(m) => {
                return Err(CttyError::IOError(m.clone()));
            },
            Ok(cands) => {
                if let Some(p) = first_match(dev, cands) {
                    return Ok(p);
                }
            },
        }
        pi += 1;
    }
    Err(CttyError::NotFound)
}

/// Relies on `glob::glob`: enumerates the filesystem paths that match the
/// pattern, in the crate's enumeration order (alphabetical), `Err` when the
/// pattern is invalid. Each enumerated entry becomes `Some` path text, or
/// `None` for an entry that failed to enumerate or is not valid text; what
/// comes back depends on the live filesystem, so nothing more is promised.
#[verifier::external_body]
fn glob_entries(pattern: &str) -> Result<Vec<Option<String>>, String> {
    match glob::glob(pattern) {
        Ok(paths) => Ok(
            paths.map(
                |entry: glob::GlobResult| match entry {
                    Ok(p) => p.to_str().map(|s: &str| String::from(s)),
                    Err(_) => None,
                },
            ).collect(),
        ),
        Err(e) => Err(format!("{}", e)),
    }
}

/// Relies on `nix::sys::stat::stat`: returns the device identifier
/// (`st_rdev`) that the node at `path` represents, or `None` when the call
/// fails; the value depends on the live filesystem, so nothing more is
/// promised.
#[verifier::external_body]
fn stat_rdev(path: &str) -> Option<u64> {
    match nix::sys::stat::stat(path) {
        Ok(st) => Some(st.st_rdev as u64),
        Err(_) => None,
    }
}

/// Returns a full path to a tty or pseudo tty whose metadata reports the
/// device identifier `dev`: the first match of the probe described at the
/// module head. `NotFound` when no enumerated candidate matches; `IOError`
/// when a probe pattern cannot be enumerated at all.
pub fn get_path_for_dev(dev: u64) -> (r: Result<String, CttyError>)
    ensures
        r matches Err(e) ==> (e is NotFound || e is IOError),
{
    let patterns: Vec<&str> = vec!["/dev/pts/*", "/dev/tty"];
    let mut results: Vec<Result<Vec<Candidate>, String>> = Vec::new();
    let mut pi: usize = 0;
    while pi < patterns.len()
        invariant
            pi <= patterns@.len(),
        decreases patterns@.len() - pi,
    {
        match glob_entries(patterns[pi]) {
            Err(m) => {
                results.push(Err(m));
            },
            Ok(entries) => {
                let mut cands: Vec<Candidate> = Vec::new();
                let mut j: usize = 0;
                while j < entries.len()
                    invariant
                        j <= entries@.len(),
                    decreases entries@.len() - j,
                {
                    if let Some(p) = &entries[j] {
                        if let Some(rd) = stat_rdev(p.as_str()) {
                            cands.push(Candidate { path: p.clone(), rdev: rd });
                        }
                    }
                    j += 1;
                }
                results.push(Ok(cands));
            },
        }
        pi += 1;
    }
    select_path(dev, &results)
}

} // verus!
