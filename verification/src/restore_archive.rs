//! The `restore` command: putting an archive back in place.

use vstd::prelude::*;
use vstd::string::StringExecFns;
use crate::app_config::AppConfig;
use crate::archive_helper::{RestoreArchiveOptions, RestoreHook, restore_script_shape, run_restore_archive};
use crate::script::{Script, Step, script_outcome};
use crate::archive_type::{ArchiveType, parse_archive_type, spec_parse_type, unknown_type_message};
use crate::create_archive::{no_value_error, no_value_message};
use crate::errors::{CustomError, Result, fails_with_message, fails_with_user_error};

verus! {

/// The arguments of `restore`.
pub struct RestoreCommandOptions {
    pub archive_type: ArchiveType,
    pub file_path: String,
    pub no_decryption: bool,
}

/// The message of the error for a missing archive file.
pub open spec fn file_missing_message(path: Seq<char>) -> Seq<char> {
    "File `"@ + path + "` does not exists"@
}

/// Reads the arguments of `restore`: the values of `--archive-type` and
/// `--file`, whether a file exists at the given path, and whether
/// `--no-decryption` is present.
pub fn restore_command_options(archive_type_value: Option<&str>, file_value: Option<&str>, file_exists: bool, no_decryption: bool) -> (res: Result<RestoreCommandOptions>)
    ensures
        if file_value is Some && !file_exists {
            fails_with_user_error(res, file_missing_message(file_value->0@))
        } else {
            match archive_type_value {
                None => fails_with_message(res, no_value_message("archive-type"@)),
                Some(v) => match spec_parse_type(v@) {
                    None => fails_with_user_error(res, unknown_type_message(v@)),
                    Some(t) => match file_value {
                        None => fails_with_message(res, no_value_message("file"@)),
                        Some(f) => res matches Ok(o) && o.archive_type == t && o.file_path@ == f@
                            && o.no_decryption == no_decryption,
                    },
                },
            }
        },
{
    if let Some(f) = file_value {
        if !file_exists {
            let mut message = "File `".to_owned();
            message.append(f);
            message.append("` does not exists");
            return Err(CustomError::user_error(message.as_str()));
        }
    }
    let archive_type_string = match archive_type_value {
        None => return Err(no_value_error("archive-type")),
        Some(v) => v,
    };
    let archive_type = match parse_archive_type(archive_type_string) {
        Ok(t) => t,
        Err(e) => return Err(e),
    };
    let file_path = match file_value {
        None => return Err(no_value_error("file")),
        Some(f) => f.to_owned(),
    };
    Ok(RestoreCommandOptions { archive_type, file_path, no_decryption })
}

/// The restore that `restore` performs (see
/// [`crate::archive_helper::restore_archive`]).
pub fn restore_archive_command(options: &RestoreCommandOptions) -> (res: RestoreArchiveOptions)
    ensures
        res.file_path@ == options.file_path@,
        res.no_decryption == options.no_decryption,
        res.archive_type == options.archive_type,
{
    RestoreArchiveOptions {
        no_decryption: options.no_decryption,
        file_path: options.file_path.clone(),
        archive_type: options.archive_type,
    }
}

} // verus!

verus! {

/// Runs `restore` for the arguments `options`: the restore of the archive
/// file of `options` (see [`crate::archive_helper::run_restore_archive`]),
/// once, whose result is the command's.
pub fn run_restore_command<F: Fn(&Step<RestoreHook>) -> Result<()>>(config: &AppConfig, options: &RestoreCommandOptions, perform: F) -> (res: Result<()>)
    requires
        forall|st: Step<RestoreHook>| call_requires(perform, (&st,)),
    ensures
        exists|archive_options: RestoreArchiveOptions, work_id: Seq<char>, script: Script<RestoreHook>|
            #![trigger restore_script_shape(script, *config, archive_options, work_id)]
            archive_options.file_path@ == options.file_path@
            && archive_options.no_decryption == options.no_decryption
            && archive_options.archive_type == options.archive_type
            && work_id.len() == 36 && restore_script_shape(script, *config, archive_options, work_id)
            && script_outcome(script, perform, Ok::<(), CustomError>(()), res),
{
    let archive_options = restore_archive_command(options);
    run_restore_archive(config, &archive_options, perform)
}

} // verus!
