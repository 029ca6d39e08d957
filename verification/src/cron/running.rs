//! Which jobs have a command running, and which were warned about.

use crate::text_set::TextSet;
use vstd::prelude::*;

verus! {

/// Marks a job's command as running. Returns whether it was not running.
pub fn mark_running(running: &mut TextSet, job_id: &str) -> (r: bool)
    requires
        old(running).well_formed(),
    ensures
        final(running).well_formed(),
        final(running)@ == old(running)@.insert(job_id@),
        r == !old(running)@.contains(job_id@),
{
    running.insert(job_id)
}

/// Marks a job's command as no longer running.
pub fn clear_running(running: &mut TextSet, job_id: &str)
    requires
        old(running).well_formed(),
    ensures
        final(running).well_formed(),
        final(running)@ == old(running)@.remove(job_id@),
{
    running.remove(job_id)
}

/// Whether a job's command is running.
pub fn is_running(running: &TextSet, job_id: &str) -> (r: bool)
    ensures
        r == running@.contains(job_id@),
{
    running.contains(job_id)
}

/// Whether a malformed job is to be warned about: once, however often it is
/// seen.
pub fn should_warn_invalid(warned: &mut TextSet, job_id: &str) -> (r: bool)
    requires
        old(warned).well_formed(),
    ensures
        final(warned).well_formed(),
        final(warned)@ == old(warned)@.insert(job_id@),
        r == !old(warned)@.contains(job_id@),
{
    warned.insert(job_id)
}

/// Forgets which malformed jobs were warned about, so that one which is fixed
/// and broken again is warned about again.
pub fn forget_invalid_warnings(warned: &mut TextSet)
    ensures
        final(warned).well_formed(),
        final(warned)@ == Set::<Seq<char>>::empty(),
{
    *warned = TextSet::new();
}

} // verus!
