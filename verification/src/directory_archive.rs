//! Archiving a plain directory.

use vstd::prelude::*;
use vstd::string::StringExecFns;
use crate::app_config::{AppConfig, DirectoryConfig, lookup_opt, spec_lookup_opt};
use crate::archive_helper::commands;
use crate::docker_volumes::{cmd_sync, sync_command};
use crate::errors::{CustomError, Result, fails_with_message};

verus! {

/// The message of the error for a missing directory configuration.
pub open spec fn directory_not_configured_message() -> Seq<char> {
    "`Directory` archiving is not configured."@
}

/// The directory configuration named `config_name`.
pub open spec fn spec_directory_config(config: AppConfig, config_name: Seq<char>) -> Option<DirectoryConfig> {
    spec_lookup_opt(config.directory_config, config_name)
}

/// The commands that copy the configured directory into `work_path`.
pub fn create_directory_archive(config: &AppConfig, config_name: &str, work_path: &str) -> (res: Result<Vec<String>>)
    ensures
        match spec_directory_config(*config, config_name@) {
            None => fails_with_message(res, directory_not_configured_message()),
            Some(d) => res matches Ok(v) && commands(v) == seq![
                "mkdir -p "@ + d.directory_path@,
                cmd_sync(d.directory_path@, work_path@),
            ],
        },
{
    let dir = match lookup_opt(&config.directory_config, config_name) {
        Some(d) => d,
        None => return Err(CustomError::from_message("`Directory` archiving is not configured.")),
    };
    let mut mkdir = "mkdir -p ".to_owned();
    mkdir.append(dir.directory_path.as_str());
    let mut cmds: Vec<String> = Vec::new();
    cmds.push(mkdir);
    cmds.push(sync_command(dir.directory_path.as_str(), work_path));
    assert(commands(cmds) =~= seq!["mkdir -p "@ + dir.directory_path@, cmd_sync(dir.directory_path@, work_path@)]);
    Ok(cmds)
}

/// The commands that replace the configured directory with the contents of
/// the compressed archive.
pub fn restore_directory_archive(config: &AppConfig, config_name: &str, _work_path: &str, compressed: &str) -> (res: Result<Vec<String>>)
    ensures
        match spec_directory_config(*config, config_name@) {
            None => fails_with_message(res, directory_not_configured_message()),
            Some(d) => res matches Ok(v) && commands(v) == seq![
                "rm "@ + d.directory_path@ + " -rf && mkdir -p "@ + d.directory_path@,
                "cd "@ + d.directory_path@ + " && tar -xf "@ + compressed@ + " --use-compress-program=pigz"@,
            ],
        },
{
    let dir = match lookup_opt(&config.directory_config, config_name) {
        Some(d) => d,
        None => return Err(CustomError::from_message("`Directory` archiving is not configured.")),
    };
    let p = dir.directory_path.as_str();
    let mut clear = "rm ".to_owned();
    clear.append(p);
    clear.append(" -rf && mkdir -p ");
    clear.append(p);
    let mut extract = "cd ".to_owned();
    extract.append(p);
    extract.append(" && tar -xf ");
    extract.append(compressed);
    extract.append(" --use-compress-program=pigz");
    let mut cmds: Vec<String> = Vec::new();
    cmds.push(clear);
    cmds.push(extract);
    assert(commands(cmds) =~= seq![
        "rm "@ + dir.directory_path@ + " -rf && mkdir -p "@ + dir.directory_path@,
        "cd "@ + dir.directory_path@ + " && tar -xf "@ + compressed@ + " --use-compress-program=pigz"@,
    ]);
    Ok(cmds)
}

} // verus!
