//! Archiving the volumes directory of a Docker host.

use vstd::prelude::*;
use vstd::string::StringExecFns;
use crate::app_config::{AppConfig, DockerConfig, lookup_opt, spec_lookup_opt};
use crate::archive_config_extensions::{ArchiveConfigExtensions, spec_merge_opt};
use crate::archive_helper::commands;
use crate::bash_shell::{CommandResult, failed_command_message};
use crate::errors::{CustomError, Result, fails_with_message, is_error_message};
use crate::script::{Script, Step, StepView, run_script, script_outcome, step_views};
use crate::text::{contains_str, replace_char, spec_contains, spec_replace_char};

verus! {

/// The message of the error for a missing docker configuration.
pub open spec fn docker_not_configured_message() -> Seq<char> {
    "`DockerVolumes` archiving is not configured."@
}

/// `rsync -a --delete --filter="dir-merge,- .backupignore" <src>/ <dst>/`
pub open spec fn cmd_sync(source: Seq<char>, destination: Seq<char>) -> Seq<char> {
    "rsync -a --delete --filter=\"dir-merge,- .backupignore\" "@ + source + "/ "@ + destination + "/"@
}

/// The command that mirrors `source` into `destination`, honouring the
/// `.backupignore` files.
pub fn sync_command(source: &str, destination: &str) -> (res: String)
    ensures
        res@ == cmd_sync(source@, destination@),
{
    let mut s = "rsync -a --delete --filter=\"dir-merge,- .backupignore\" ".to_owned();
    s.append(source);
    s.append("/ ");
    s.append(destination);
    s.append("/");
    s
}

/// The shell work that copies the volumes into an archive. Under the lock
/// `lock_name`, `list_containers` gives the running containers (see
/// [`container_ids`]); the volumes are copied (see [`copy_files_step`]),
/// the containers paused, the volumes copied again, and the containers
/// unpaused whatever happened.
pub struct DockerVolumesArchivePlan {
    pub lock_name: String,
    pub list_containers: String,
    pub copy: String,
}

/// `docker ps --filter="status=running" -q`
pub open spec fn cmd_list_containers() -> Seq<char> {
    "docker ps --filter=\"status=running\" -q"@
}

/// The docker configuration named `config_name`.
pub open spec fn spec_docker_config_named(config: AppConfig, config_name: Seq<char>) -> Option<DockerConfig> {
    spec_lookup_opt(config.docker_config, config_name)
}

/// Plans the archiving of the volumes of the docker configuration
/// `config_name` into `work_path`.
pub fn create_docker_volumes_archive(config: &AppConfig, config_name: &str, work_path: &str) -> (res: Result<DockerVolumesArchivePlan>)
    ensures
        match spec_docker_config_named(*config, config_name@) {
            None => fails_with_message(res, docker_not_configured_message()),
            Some(d) => res matches Ok(p) && {
                let temp = spec_merge_opt(d.archive_config, config.archive_config@).temp_path;
                &&& p.lock_name@ == temp + "/docker-volumes.lock"@
                &&& p.list_containers@ == cmd_list_containers()
                &&& p.copy@ == cmd_sync(d.volumes_path@, work_path@)
            },
        },
{
    let docker = match lookup_opt(&config.docker_config, config_name) {
        Some(d) => d,
        None => return Err(CustomError::from_message("`DockerVolumes` archiving is not configured.")),
    };
    let archive_config = docker.archive_config.as_config(&config.archive_config);
    let mut lock_name = archive_config.temp_path.clone();
    lock_name.append("/docker-volumes.lock");
    Ok(DockerVolumesArchivePlan {
        lock_name,
        list_containers: "docker ps --filter=\"status=running\" -q".to_owned(),
        copy: sync_command(docker.volumes_path.as_str(), work_path),
    })
}

/// The container ids that `docker ps -q` printed, one per line, as one
/// space-separated argument list.
pub fn container_ids(ps_stdout: &str) -> (res: String)
    ensures
        res@ == spec_replace_char(ps_stdout@, '\n', ' '),
{
    replace_char(ps_stdout, '\n', ' ')
}

/// `docker pause <ids>`
pub open spec fn cmd_pause(ids: Seq<char>) -> Seq<char> {
    "docker pause "@ + ids
}

/// `docker unpause <ids>`
pub open spec fn cmd_unpause(ids: Seq<char>) -> Seq<char> {
    "docker unpause "@ + ids
}

/// The commands that pause and unpause the containers `ids`.
pub fn pause_commands(ids: &str) -> (res: (String, String))
    ensures
        res.0@ == cmd_pause(ids@),
        res.1@ == cmd_unpause(ids@),
{
    let mut pause = "docker pause ".to_owned();
    pause.append(ids);
    let mut unpause = "docker unpause ".to_owned();
    unpause.append(ids);
    (pause, unpause)
}

/// How many times a copy is retried when files vanish under it.
pub open spec fn max_copy_tries() -> u32 {
    10
}

/// What to do after a run of the copy command.
pub enum CopyStep {
    /// The copy succeeded.
    Done,
    /// Files vanished during the copy: run it again.
    Retry,
    /// Give up with this error.
    Failed(CustomError),
}

/// The message of the error when files keep vanishing.
pub open spec fn keeps_vanishing_message() -> Seq<char> {
    "The files keep vanishing."@
}

/// The decision after run number `attempt` (from 0) of the copy: done on
/// success; a failure that is not about vanished files is final; a failure
/// about vanished files is retried until the run numbered
/// [`max_copy_tries`], which gives up.
pub fn copy_files_step(attempt: u32, result: &CommandResult) -> (res: CopyStep)
    requires
        attempt <= max_copy_tries(),
    ensures
        result.success ==> res is Done,
        !result.success && !spec_contains(result.stderr@, "vanished"@)
            ==> (res matches CopyStep::Failed(e) && is_error_message(e, failed_command_message(result.command@))),
        !result.success && spec_contains(result.stderr@, "vanished"@) && attempt == max_copy_tries()
            ==> (res matches CopyStep::Failed(e) && is_error_message(e, keeps_vanishing_message())),
        !result.success && spec_contains(result.stderr@, "vanished"@) && attempt < max_copy_tries()
            ==> res is Retry,
{
    match result.as_result_ref() {
        Ok(_) => CopyStep::Done,
        Err(err) => {
            if !contains_str(result.stderr.as_str(), "vanished") {
                return CopyStep::Failed(err);
            }
            if attempt == 10 {
                return CopyStep::Failed(CustomError::from_message("The files keep vanishing."));
            }
            CopyStep::Retry
        },
    }
}

/// `systemctl stop docker`, `rm <v> -rf && mkdir -p <v>`, `cd <v> && tar -xf
/// <c>`, `systemctl start docker`
pub open spec fn spec_restore_volumes_commands(volumes: Seq<char>, compressed: Seq<char>) -> Seq<Seq<char>> {
    seq![
        "systemctl stop docker"@,
        "rm "@ + volumes + " -rf && mkdir -p "@ + volumes,
        "cd "@ + volumes + " && tar -xf "@ + compressed,
        "systemctl start docker"@,
    ]
}

/// The commands that put the volumes of an archive back in place (with the
/// Docker daemon stopped meanwhile).
pub fn restore_docker_volumes_archive(config: &AppConfig, config_name: &str, _work_path: &str, compressed: &str) -> (res: Result<Vec<String>>)
    ensures
        match spec_docker_config_named(*config, config_name@) {
            None => fails_with_message(res, docker_not_configured_message()),
            Some(d) => res matches Ok(v) && commands(v) == spec_restore_volumes_commands(d.volumes_path@, compressed@),
        },
{
    let docker = match lookup_opt(&config.docker_config, config_name) {
        Some(d) => d,
        None => return Err(CustomError::from_message("`DockerVolumes` archiving is not configured.")),
    };
    let v = docker.volumes_path.as_str();
    let mut clear = "rm ".to_owned();
    clear.append(v);
    clear.append(" -rf && mkdir -p ");
    clear.append(v);
    let mut extract = "cd ".to_owned();
    extract.append(v);
    extract.append(" && tar -xf ");
    extract.append(compressed);
    let mut cmds: Vec<String> = Vec::new();
    cmds.push("systemctl stop docker".to_owned());
    cmds.push(clear);
    cmds.push(extract);
    cmds.push("systemctl start docker".to_owned());
    assert(commands(cmds) =~= spec_restore_volumes_commands(docker.volumes_path@, compressed@));
    Ok(cmds)
}

} // verus!

verus! {

/// The work that the docker script hands to its caller.
pub enum DockerHook {
    /// Copy the volumes with `command`, again while files vanish under it
    /// (see [`copy_files_step`]).
    Copy { command: String },
}

impl View for DockerHook {
    type V = Seq<char>;

    open spec fn view(&self) -> Seq<char> {
        match self {
            DockerHook::Copy { command } => command@,
        }
    }
}

/// The script that copies the volumes with `copy` while the containers that
/// `docker ps -q` printed as `ps_stdout` run: a first copy, the pause of the
/// containers, a second copy; the containers are unpaused last, whatever
/// happened.
pub open spec fn docker_script_shape(script: Script<DockerHook>, copy: Seq<char>, ps_stdout: Seq<char>) -> bool {
    let ids = spec_replace_char(ps_stdout, '\n', ' ');
    &&& !script.keep_going
    &&& step_views(script.body@) == seq![StepView::Hook(copy), StepView::Shell(cmd_pause(ids)), StepView::Hook(copy)]
    &&& step_views(script.cleanup@) == seq![StepView::<Seq<char>>::Shell(cmd_unpause(ids))]
}

/// Copies the volumes of `plan` (see [`docker_script_shape`]), handing each
/// step to `perform`: copy, pause, copy, in this order and stopping at the
/// first failure; the unpause runs once afterwards whether they failed or
/// not; the first error of the copies and the pause wins, else the
/// unpause's.
pub fn run_docker_volumes_copy<F: Fn(&Step<DockerHook>) -> Result<()>>(plan: &DockerVolumesArchivePlan, ps_stdout: &str, perform: F) -> (res: Result<()>)
    requires
        forall|st: Step<DockerHook>| call_requires(perform, (&st,)),
    ensures
        exists|script: Script<DockerHook>|
            #![trigger docker_script_shape(script, plan.copy@, ps_stdout@)]
            docker_script_shape(script, plan.copy@, ps_stdout@)
            && script_outcome(script, perform, Ok::<(), CustomError>(()), res),
{
    let ids = container_ids(ps_stdout);
    let (pause, unpause) = pause_commands(ids.as_str());
    let mut body: Vec<Step<DockerHook>> = Vec::new();
    body.push(Step::Hook(DockerHook::Copy { command: plan.copy.clone() }));
    body.push(Step::Shell(pause));
    body.push(Step::Hook(DockerHook::Copy { command: plan.copy.clone() }));
    let mut cleanup: Vec<Step<DockerHook>> = Vec::new();
    cleanup.push(Step::Shell(unpause));
    let script = Script { body, cleanup, keep_going: false };
    assert(docker_script_shape(script, plan.copy@, ps_stdout@)) by {
        assert(step_views(script.body@) =~= seq![StepView::Hook(plan.copy@), StepView::Shell(cmd_pause(ids@)), StepView::Hook(plan.copy@)]);
        assert(step_views(script.cleanup@) =~= seq![StepView::<Seq<char>>::Shell(cmd_unpause(ids@))]);
    }
    assert forall|k: int| 0 <= k < script.body@.len() implies call_requires(perform, (&#[trigger] script.body@[k],)) by {
        let st = script.body@[k];
        assert(call_requires(perform, (&st,)));
    }
    assert forall|k: int| 0 <= k < script.cleanup@.len() implies call_requires(perform, (&#[trigger] script.cleanup@[k],)) by {
        let st = script.cleanup@[k];
        assert(call_requires(perform, (&st,)));
    }
    run_script(&script, Ok(()), &perform)
}

} // verus!

verus! {

/// The run of the copy command gave a failure about vanished files.
pub open spec fn vanished_failure(r: CommandResult) -> bool {
    !r.success && spec_contains(r.stderr@, "vanished"@)
}

/// `outs` are the outcomes of the runs of the copy command `command` with
/// `exec`, and `res` what copying gives: every run but the last failed
/// because files vanished; the last one decides: its error, success, the
/// failure of the command, or, at run number [`max_copy_tries`] (from 0),
/// giving up.
pub open spec fn copy_runs<F: Fn(&str) -> Result<CommandResult>>(command: &str, exec: F, outs: Seq<Result<CommandResult>>, res: Result<()>) -> bool {
    &&& 1 <= outs.len() <= max_copy_tries() + 1
    &&& forall|k: int| 0 <= k < outs.len() ==> call_ensures(exec, (command,), #[trigger] outs[k])
    &&& forall|k: int| 0 <= k < outs.len() - 1 ==> ((#[trigger] outs[k]) matches Ok(r) && vanished_failure(r))
    &&& match outs.last() {
        Err(e) => res == Err::<(), CustomError>(e),
        Ok(r) => if r.success {
            res is Ok
        } else if !vanished_failure(r) {
            fails_with_message(res, failed_command_message(r.command@))
        } else {
            outs.len() == max_copy_tries() + 1 && fails_with_message(res, keeps_vanishing_message())
        },
    }
}

/// Copies with `command`, run by `exec`, again while files vanish under it
/// (see [`copy_files_step`] and [`copy_runs`]).
pub fn run_copy_files<F: Fn(&str) -> Result<CommandResult>>(command: &str, exec: F) -> (res: Result<()>)
    requires
        call_requires(exec, (command,)),
    ensures
        exists|outs: Seq<Result<CommandResult>>| copy_runs(command, exec, outs, res),
{
    let ghost mut outs: Seq<Result<CommandResult>> = Seq::empty();
    let mut attempt: u32 = 0;
    loop
        invariant
            attempt <= max_copy_tries(),
            outs.len() == attempt,
            call_requires(exec, (command,)),
            forall|k: int| 0 <= k < outs.len() ==> call_ensures(exec, (command,), #[trigger] outs[k]),
            forall|k: int| 0 <= k < outs.len() ==> ((#[trigger] outs[k]) matches Ok(r) && vanished_failure(r)),
        decreases max_copy_tries() - attempt,
    {
        let r = exec(command);
        let ghost before = outs;
        proof {
            outs = outs.push(r);
            assert(outs.drop_last() =~= before);
        }
        match r {
            Err(e) => {
                assert(copy_runs(command, exec, outs, Err::<(), CustomError>(e)));
                return Err(e);
            },
            Ok(result) => {
                match copy_files_step(attempt, &result) {
                    CopyStep::Done => {
                        assert(copy_runs(command, exec, outs, Ok::<(), CustomError>(())));
                        return Ok(());
                    },
                    CopyStep::Failed(e) => {
                        assert(copy_runs(command, exec, outs, Err::<(), CustomError>(e)));
                        return Err(e);
                    },
                    CopyStep::Retry => {
                        attempt += 1;
                    },
                }
            },
        }
    }
}

} // verus!
