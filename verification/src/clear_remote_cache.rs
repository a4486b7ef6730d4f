//! The `clear-remote-cache` command: deleting expired archives from the
//! remotes.

use vstd::prelude::*;
use crate::archive_helper::{archive_types_to_scan, spec_types_to_scan};
use crate::archive_type::{ArchiveType, parse_optional_archive_type, spec_parse_type, unknown_type_message};
use crate::errors::{CustomError, Result, fails_with_user_error};
use crate::script::{Script, Step, StepView, run_script, script_outcome, step_views};

verus! {

/// The arguments of `clear-remote-cache`.
pub struct ClearRemoteCacheCommandOptions {
    /// Only archives of this type; all types when absent.
    pub archive_type: Option<ArchiveType>,
}

/// Reads the arguments of `clear-remote-cache` (the value of
/// `--archive-type`).
pub fn clear_remote_cache_command_options(archive_type_value: Option<&str>) -> (res: Result<ClearRemoteCacheCommandOptions>)
    ensures
        match archive_type_value {
            None => res matches Ok(o) && o.archive_type is None,
            Some(v) => match spec_parse_type(v@) {
                Some(t) => res matches Ok(o) && o.archive_type == Some(t),
                None => fails_with_user_error(res, unknown_type_message(v@)),
            },
        },
{
    match parse_optional_archive_type(archive_type_value) {
        Ok(archive_type) => Ok(ClearRemoteCacheCommandOptions { archive_type }),
        Err(e) => Err(e),
    }
}

/// The archive types whose remote caches `clear-remote-cache` clears, one
/// after the other (see [`crate::remote_helper::clear_remote_cache`]); every
/// type is cleared even when an earlier one fails, and the first failure is
/// reported at the end.
pub fn clear_remote_cache_command(options: &ClearRemoteCacheCommandOptions) -> (res: Vec<ArchiveType>)
    ensures
        res@ == spec_types_to_scan(options.archive_type),
{
    match &options.archive_type {
        Some(t) => archive_types_to_scan(Some(t)),
        None => archive_types_to_scan(None),
    }
}

} // verus!

verus! {

/// The script of `clear-remote-cache`: the remote cache of each archive
/// type to clear (see [`clear_remote_cache_command`]), one after the other,
/// every one even after a failure.
pub open spec fn clear_remote_command_shape(script: Script<ArchiveType>, options: ClearRemoteCacheCommandOptions) -> bool {
    &&& script.keep_going
    &&& step_views(script.body@) == spec_types_to_scan(options.archive_type).map_values(|t: ArchiveType| StepView::Hook(t))
    &&& script.cleanup@.len() == 0
}

/// Runs `clear-remote-cache` for `options` with `perform`, which clears the
/// remote cache of the type it is handed: every type is cleared, and the
/// result is the first error, if any.
pub fn run_clear_remote_cache_command<F: Fn(&Step<ArchiveType>) -> Result<()>>(options: &ClearRemoteCacheCommandOptions, perform: F) -> (res: Result<()>)
    requires
        forall|st: Step<ArchiveType>| call_requires(perform, (&st,)),
    ensures
        exists|script: Script<ArchiveType>| #![trigger clear_remote_command_shape(script, *options)]
            clear_remote_command_shape(script, *options) && script_outcome(script, perform, Ok::<(), CustomError>(()), res),
{
    let types = clear_remote_cache_command(options);
    let mut body: Vec<Step<ArchiveType>> = Vec::new();
    let mut i: usize = 0;
    while i < types.len()
        invariant
            i <= types.len(),
            step_views(body@) == types@.take(i as int).map_values(|t: ArchiveType| StepView::Hook(t)),
        decreases types.len() - i,
    {
        let ghost before = step_views(body@);
        body.push(Step::Hook(types[i]));
        assert(step_views(body@) =~= before.push(StepView::Hook(types@[i as int])));
        assert(types@.take(i + 1).map_values(|t: ArchiveType| StepView::Hook(t))
            =~= types@.take(i as int).map_values(|t: ArchiveType| StepView::Hook(t)).push(StepView::Hook(types@[i as int])));
        i += 1;
    }
    assert(types@.take(types.len() as int) =~= types@);
    let script = Script { body, cleanup: Vec::new(), keep_going: true };
    assert(clear_remote_command_shape(script, *options));
    assert forall|k: int| 0 <= k < script.body@.len() implies call_requires(perform, (&#[trigger] script.body@[k],)) by {
        let st = script.body@[k];
        assert(call_requires(perform, (&st,)));
    }
    run_script(&script, Ok(()), &perform)
}

} // verus!
