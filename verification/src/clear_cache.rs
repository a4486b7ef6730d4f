//! The `clear-cache` command: deleting expired archives from the local cache.

use vstd::prelude::*;
use crate::app_config::AppConfig;
use crate::archive_helper::{ArchiveMetadata, ArchiveMetadataView, clear_local_cache, local_retentions_valid, metadata_views, spec_expired_local};
use crate::archive_type::{ArchiveType, parse_optional_archive_type, spec_parse_type, unknown_type_message};
use crate::errors::{CustomError, Result, fails_with_user_error};
use crate::script::{Script, Step, StepView, run_script, script_outcome, step_views};
use crate::extensions::{PathExtensions, spec_path_pop};

verus! {

/// The arguments of `clear-cache`.
pub struct ClearCacheCommandOptions {
    /// Only archives of this type; all types when absent.
    pub archive_type: Option<ArchiveType>,
}

/// Reads the arguments of `clear-cache` (the value of `--archive-type`).
pub fn clear_cache_command_options(archive_type_value: Option<&str>) -> (res: Result<ClearCacheCommandOptions>)
    ensures
        match archive_type_value {
            None => res matches Ok(o) && o.archive_type is None,
            Some(v) => match spec_parse_type(v@) {
                Some(t) => res matches Ok(o) && o.archive_type == Some(t),
                None => fails_with_user_error(res, unknown_type_message(v@)),
            },
        },
{
    match parse_optional_archive_type(archive_type_value) {
        Ok(archive_type) => Ok(ClearCacheCommandOptions { archive_type }),
        Err(e) => Err(e),
    }
}

/// An archive to delete, and its daily folder (removed too once empty).
pub struct CacheDeletion {
    pub archive: ArchiveMetadata,
    pub daily_directory: String,
}

/// The archives that `clear-cache` deletes at `now` among the listed local
/// archives: the expired ones, in order, each with its daily folder.
pub fn clear_cache_command(config: &AppConfig, archives: &Vec<ArchiveMetadata>, now: i64) -> (res: Vec<CacheDeletion>)
    requires
        local_retentions_valid(*config, metadata_views(archives@)),
    ensures
        res@.len() == spec_expired_local(*config, metadata_views(archives@), now).len(),
        forall|k: int| 0 <= k < res@.len() ==> {
            &&& (#[trigger] res@[k]).archive@ == spec_expired_local(*config, metadata_views(archives@), now)[k]
            &&& res@[k].daily_directory@ == spec_path_pop(res@[k].archive.full_path@)
        },
{
    let expired = clear_local_cache(config, archives, now);
    let ghost target = spec_expired_local(*config, metadata_views(archives@), now);
    let mut res: Vec<CacheDeletion> = Vec::new();
    let mut i: usize = 0;
    while i < expired.len()
        invariant
            i <= expired.len(),
            metadata_views(expired@) == target,
            res@.len() == i,
            forall|k: int| 0 <= k < i ==> {
                &&& (#[trigger] res@[k]).archive@ == target[k]
                &&& res@[k].daily_directory@ == spec_path_pop(res@[k].archive.full_path@)
            },
        decreases expired.len() - i,
    {
        let archive = expired[i].copy();
        let daily_directory = archive.full_path.as_str().get_directory();
        assert(metadata_views(expired@)[i as int] == expired@[i as int]@);
        res.push(CacheDeletion { archive, daily_directory });
        i += 1;
    }
    res
}

} // verus!

verus! {

/// The archive type that the value of `--archive-type` names, if any.
pub open spec fn spec_type_filter(archive_type_value: Option<&str>) -> Option<ArchiveType> {
    match archive_type_value {
        None => None,
        Some(v) => spec_parse_type(v@),
    }
}

/// The value of `--archive-type` names no archive type.
pub open spec fn unknown_filter(archive_type_value: Option<&str>) -> bool {
    archive_type_value matches Some(v) && spec_parse_type(v@) is None
}

/// The script of `clear-cache` once its arguments are read: one clearing of
/// the local cache, of the type `archive_type` (all types when absent).
pub open spec fn clear_cache_command_shape(script: Script<Option<ArchiveType>>, archive_type: Option<ArchiveType>) -> bool {
    &&& !script.keep_going
    &&& step_views(script.body@) == seq![StepView::Hook(archive_type)]
    &&& script.cleanup@.len() == 0
}

/// Runs `clear-cache` for the value of `--archive-type`: an unknown type is
/// the user error and nothing is cleared; otherwise `perform` clears the
/// local cache once, of the parsed type, and its result is the command's.
pub fn run_clear_cache_command<F: Fn(&Step<Option<ArchiveType>>) -> Result<()>>(archive_type_value: Option<&str>, perform: F) -> (res: Result<()>)
    requires
        forall|st: Step<Option<ArchiveType>>| call_requires(perform, (&st,)),
    ensures
        unknown_filter(archive_type_value) ==> fails_with_user_error(res, unknown_type_message(archive_type_value->0@)),
        !unknown_filter(archive_type_value) ==> exists|script: Script<Option<ArchiveType>>|
            #![trigger clear_cache_command_shape(script, spec_type_filter(archive_type_value))]
            clear_cache_command_shape(script, spec_type_filter(archive_type_value))
            && script_outcome(script, perform, Ok::<(), CustomError>(()), res),
{
    let options = match clear_cache_command_options(archive_type_value) {
        Ok(o) => o,
        Err(e) => return Err(e),
    };
    assert(options.archive_type == spec_type_filter(archive_type_value));
    let mut body: Vec<Step<Option<ArchiveType>>> = Vec::new();
    body.push(Step::Hook(options.archive_type));
    let script = Script { body, cleanup: Vec::new(), keep_going: false };
    assert(step_views(script.body@) =~= seq![StepView::Hook(options.archive_type)]);
    assert forall|k: int| 0 <= k < script.body@.len() implies call_requires(perform, (&#[trigger] script.body@[k],)) by {
        let st = script.body@[k];
        assert(call_requires(perform, (&st,)));
    }
    assert(clear_cache_command_shape(script, spec_type_filter(archive_type_value)));
    run_script(&script, Ok(()), &perform)
}

} // verus!
