//! From the course list and the requested replica count to the overlay
//! document, or the reason why no document is written.

use vstd::prelude::*;
use crate::course::{courses_of_text, Course, LoadError};
use crate::overlay::{overlay_for, overlay_of};

verus! {

#[derive(Clone, Copy, Debug, PartialEq, Eq, Structural)]
pub enum InitError {
    /// The course list could not be read.
    Load(LoadError),
    /// The requested replica count differs from the number of courses.
    ReplicaMismatch { requested: u32, found: usize },
}

/// The overlay document for a CSV text and a requested replica count: one
/// worker per course, and only when the count equals the number of courses.
pub open spec fn plan_of(text: Seq<u8>, replicas: u32) -> Result<Seq<char>, InitError> {
    match courses_of_text(text) {
        Ok(cs) => if cs.len() == replicas as nat {
            Ok(overlay_of(cs))
        } else {
            Err(InitError::ReplicaMismatch { requested: replicas, found: cs.len() as usize })
        },
        Err(e) => Err(InitError::Load(e)),
    }
}

/// Accepts the requested replica count only when it equals the number of
/// courses found.
pub fn check_replicas(requested: u32, found: usize) -> (r: Result<(), InitError>)
    ensures
        requested as nat == found as nat ==> r is Ok,
        requested as nat != found as nat ==> r == Err::<(), InitError>(InitError::ReplicaMismatch { requested, found }),
{
    if requested as u64 == found as u64 {
        Ok(())
    } else {
        Err(InitError::ReplicaMismatch { requested, found })
    }
}

/// Reads the courses from a CSV text, checks the replica count against them
/// and builds the overlay document.
pub fn plan_overlay(text: &[u8], replicas: u32) -> (r: Result<String, InitError>)
    ensures
        match plan_of(text@, replicas) {
            Ok(doc) => r matches Ok(s) && s@ == doc,
            Err(e) => r == Err::<String, InitError>(e),
        },
{
    let courses = match Course::from_csv(text) {
        Ok(cs) => cs,
        Err(e) => return Err(InitError::Load(e)),
    };
    match check_replicas(replicas, courses.len()) {
        Ok(()) => Ok(overlay_for(&courses)),
        Err(e) => Err(e),
    }
}

} // verus!
