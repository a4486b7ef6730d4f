//! The `create` command: making an archive.

use vstd::prelude::*;
use vstd::string::StringExecFns;
use crate::app_config::AppConfig;
use crate::archive_helper::{
    ArchiveMetadataView, CreateArchiveOptions, bad_time_message, get_new_archive_path, spec_new_archive_path,
    spec_read_metadata,
};
use crate::archive_type::{ArchiveType, parse_archive_type, spec_parse_type, unknown_type_message};
use crate::errors::{CustomError, Result, fails_with_message, fails_with_user_error};
use crate::script::{Script, Step, StepView, run_script, script_outcome, step_views};

verus! {

/// The arguments of `create`.
pub struct CreateCommandOptions {
    pub archive_type: ArchiveType,
    /// Where to put the archive; in the cache when absent.
    pub file_path: Option<String>,
    pub no_encryption: bool,
}

/// The message of the error for a missing argument.
pub open spec fn no_value_message(name: Seq<char>) -> Seq<char> {
    "No value for: "@ + name
}

/// The message of the error for a file that is in the way.
pub open spec fn file_exists_message(path: Seq<char>) -> Seq<char> {
    "File `"@ + path + "` already exists"@
}

/// The error for the missing argument `name`.
pub fn no_value_error(name: &str) -> (res: CustomError)
    ensures
        crate::errors::is_error_message(res, no_value_message(name@)),
{
    let mut message = "No value for: ".to_owned();
    message.append(name);
    CustomError::from_message(message.as_str())
}

/// Reads the arguments of `create`: the values of `--archive-type` and
/// `--file`, whether a file already exists at the given path, and whether
/// `--no-encryption` is present. The archive type must be given; a given file
/// path must be free.
pub fn create_command_options(archive_type_value: Option<&str>, file_value: Option<&str>, file_exists: bool, no_encryption: bool) -> (res: Result<CreateCommandOptions>)
    ensures
        match archive_type_value {
            None => fails_with_message(res, no_value_message("archive-type"@)),
            Some(v) => if file_value is Some && file_exists {
                fails_with_user_error(res, file_exists_message(file_value->0@))
            } else {
                match spec_parse_type(v@) {
                    None => fails_with_user_error(res, unknown_type_message(v@)),
                    Some(t) => res matches Ok(o) && o.archive_type == t && o.no_encryption == no_encryption
                        && match file_value {
                            None => o.file_path is None,
                            Some(f) => o.file_path matches Some(p) && p@ == f@,
                        },
                }
            },
        },
{
    let archive_type_string = match archive_type_value {
        None => return Err(no_value_error("archive-type")),
        Some(v) => v,
    };
    if let Some(f) = file_value {
        if file_exists {
            let mut message = "File `".to_owned();
            message.append(f);
            message.append("` already exists");
            return Err(CustomError::user_error(message.as_str()));
        }
    }
    let archive_type = match parse_archive_type(archive_type_string) {
        Ok(t) => t,
        Err(e) => return Err(e),
    };
    let file_path = match file_value {
        Some(f) => Some(f.to_owned()),
        None => None,
    };
    Ok(CreateCommandOptions { archive_type, file_path, no_encryption })
}

/// What `create` does: make the archive of `options` (creating the daily
/// folder first when there is one), then clear the local cache of the type
/// and mail a success report.
pub struct CreateArchiveCommandPlan {
    pub options: CreateArchiveOptions,
    pub daily_folder: Option<String>,
}

/// The archive that `create` makes at `now`: at the given path, or else at a
/// new path of the cache, in which case its metadata is read back.
pub fn create_archive_command(config: &AppConfig, options: &CreateCommandOptions, now: i64) -> (res: Result<CreateArchiveCommandPlan>)
    ensures
        match options.file_path {
            Some(f) => res matches Ok(p) && p.daily_folder is None && p.options.file_path@ == f@
                && !p.options.is_cached_archive && p.options.archive_type == options.archive_type
                && p.options.no_encryption == options.no_encryption,
            None => match spec_new_archive_path(*config, options.archive_type, now) {
                None => fails_with_message(res, bad_time_message()),
                Some((daily, file)) => res matches Ok(p) && p.daily_folder matches Some(d) && d@ == daily
                    && p.options.file_path@ == file && p.options.is_cached_archive
                    && p.options.archive_type == options.archive_type
                    && p.options.no_encryption == options.no_encryption,
            },
        },
        res matches Ok(p) ==> (p.options.is_cached_archive ==> spec_read_metadata(p.options.file_path@)
            == Some(Some(ArchiveMetadataView { archive_type: options.archive_type, archive_date: now, full_path: p.options.file_path@ }))),
{
    match &options.file_path {
        Some(f) => Ok(CreateArchiveCommandPlan {
            options: CreateArchiveOptions {
                file_path: f.clone(),
                no_encryption: options.no_encryption,
                archive_type: options.archive_type,
                is_cached_archive: false,
            },
            daily_folder: None,
        }),
        None => match get_new_archive_path(config, &options.archive_type, now) {
            Err(e) => Err(e),
            Ok(p) => Ok(CreateArchiveCommandPlan {
                options: CreateArchiveOptions {
                    file_path: p.file_path,
                    no_encryption: options.no_encryption,
                    archive_type: options.archive_type,
                    is_cached_archive: true,
                },
                daily_folder: Some(p.daily_folder),
            }),
        },
    }
}

} // verus!

verus! {

/// The steps of the `create` command, performed by its caller.
#[derive(Clone, Copy, PartialEq, Eq, Structural)]
pub enum CreateCommandStep {
    /// Make the archive (see [`crate::archive_helper::run_create_archive`]).
    CreateArchive,
    /// Clear the local cache of the archive's type.
    ClearCache,
    /// Mail the success report.
    SuccessReport,
}

impl View for CreateCommandStep {
    type V = CreateCommandStep;

    open spec fn view(&self) -> CreateCommandStep {
        *self
    }
}

/// The script of `create`: the archive is made, then the local cache is
/// cleared, then the success report is mailed, each only when the one
/// before succeeded.
pub open spec fn create_command_shape(script: Script<CreateCommandStep>) -> bool {
    &&& !script.keep_going
    &&& step_views(script.body@) == seq![
        StepView::Hook(CreateCommandStep::CreateArchive),
        StepView::Hook(CreateCommandStep::ClearCache),
        StepView::Hook(CreateCommandStep::SuccessReport),
    ]
    &&& script.cleanup@.len() == 0
}

/// Runs the steps of `create` (see [`create_command_shape`]) with `perform`:
/// in order, stopping at the first failure, whose error is the result.
pub fn run_create_command<F: Fn(&Step<CreateCommandStep>) -> Result<()>>(perform: F) -> (res: Result<()>)
    requires
        forall|st: Step<CreateCommandStep>| call_requires(perform, (&st,)),
    ensures
        exists|script: Script<CreateCommandStep>| #![trigger create_command_shape(script)]
            create_command_shape(script) && script_outcome(script, perform, Ok::<(), CustomError>(()), res),
{
    let mut body: Vec<Step<CreateCommandStep>> = Vec::new();
    body.push(Step::Hook(CreateCommandStep::CreateArchive));
    body.push(Step::Hook(CreateCommandStep::ClearCache));
    body.push(Step::Hook(CreateCommandStep::SuccessReport));
    let script = Script { body, cleanup: Vec::new(), keep_going: false };
    assert(create_command_shape(script)) by {
        assert(step_views(script.body@) =~= seq![
            StepView::Hook(CreateCommandStep::CreateArchive),
            StepView::Hook(CreateCommandStep::ClearCache),
            StepView::Hook(CreateCommandStep::SuccessReport),
        ]);
    }
    assert forall|k: int| 0 <= k < script.body@.len() implies call_requires(perform, (&#[trigger] script.body@[k],)) by {
        let st = script.body@[k];
        assert(call_requires(perform, (&st,)));
    }
    run_script(&script, Ok(()), &perform)
}

} // verus!
