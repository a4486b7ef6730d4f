//! Which local archives to upload to which remote.

use vstd::prelude::*;
use crate::app_config::{AppConfig, RemoteConfig, RemoteConfigView};
use crate::archive_helper::{ArchiveMetadata, ArchiveMetadataView, metadata_views, no_file_name_message};
use crate::archive_type::{ArchiveType, get_remote_config, remote_views, spec_remote_configs};
use crate::dates::{is_expired, spec_days_valid, spec_is_expired};
use crate::errors::{CustomError, Result, is_error_message};
use crate::extensions::{PathExtensions, spec_path_file_name};
use crate::remote_helper::{RemoteArchiveMetadata, RemoteArchiveView, cmd_upload, remote_archive_views, upload_archive};
use crate::archive_helper::NoHook;
use crate::script::{Script, Step, first_error, run_script, script_outcome, shell_steps, shells, step_views};
use crate::text::string_views;

verus! {

/// The remote and the archive type that a remote archive is grouped by.
pub open spec fn group_key(a: RemoteArchiveView) -> (Seq<char>, ArchiveType) {
    (a.remote.remote_name, a.archive.archive_type)
}

/// Some remote archive of the group has the file name `name`.
pub open spec fn already_uploaded(s: Seq<RemoteArchiveView>, key: (Seq<char>, ArchiveType), name: Option<Seq<char>>) -> bool {
    exists|j: int| 0 <= j < s.len() && group_key(#[trigger] s[j]) == key && spec_path_file_name(s[j].archive.full_path) == name
}

/// The local archive goes to the remote `remote` of the archive type
/// `key.1` (whose name is `key.0`): it is of that type, it is not expired
/// for that remote, and no archive of that remote and type has its file name.
pub open spec fn should_upload(local: ArchiveMetadataView, s: Seq<RemoteArchiveView>, key: (Seq<char>, ArchiveType), remote: RemoteConfigView, now: i64) -> bool {
    local.archive_type == key.1
        && !spec_is_expired(local.archive_date, now, remote.cache_expiry_days)
        && !already_uploaded(s, key, spec_path_file_name(local.full_path))
}

/// Every archive of the group `key` among the remote archives has a file
/// name.
pub open spec fn group_named(s: Seq<RemoteArchiveView>, key: (Seq<char>, ArchiveType)) -> bool {
    forall|j: int| 0 <= j < s.len() && group_key(#[trigger] s[j]) == key ==> spec_path_file_name(s[j].archive.full_path) is Some
}

/// Whether a local archive is already on the remote can be told: it has a
/// file name, and so has every archive of the group.
pub open spec fn names_known(local: ArchiveMetadataView, s: Seq<RemoteArchiveView>, key: (Seq<char>, ArchiveType)) -> bool {
    spec_path_file_name(local.full_path) is Some && group_named(s, key)
}

/// The uploads to the remote `remote` of the type `key.1`, going through the
/// local archives in order: the indices of those to upload, and whether the
/// job stopped early, at the first local archive of the type for which
/// [`names_known`] fails (the uploads decided before it stay).
pub open spec fn job_plan(locals: Seq<ArchiveMetadataView>, s: Seq<RemoteArchiveView>, key: (Seq<char>, ArchiveType), remote: RemoteConfigView, now: i64) -> (Seq<usize>, bool)
    decreases locals.len(),
{
    if locals.len() == 0 {
        (Seq::empty(), false)
    } else {
        let (idx, failed) = job_plan(locals.drop_last(), s, key, remote, now);
        let l = locals.last();
        if failed || l.archive_type != key.1 {
            (idx, failed)
        } else if !names_known(l, s, key) {
            (idx, true)
        } else if should_upload(l, s, key, remote, now) {
            (idx.push((locals.len() - 1) as usize), false)
        } else {
            (idx, false)
        }
    }
}

/// The indices of the local archives to upload to a remote, in order.
pub open spec fn upload_indices(locals: Seq<ArchiveMetadataView>, s: Seq<RemoteArchiveView>, key: (Seq<char>, ArchiveType), remote: RemoteConfigView, now: i64) -> Seq<usize> {
    job_plan(locals, s, key, remote, now).0
}

/// The job to the remote stopped at an archive whose name is unknown.
pub open spec fn job_failed(locals: Seq<ArchiveMetadataView>, s: Seq<RemoteArchiveView>, key: (Seq<char>, ArchiveType), remote: RemoteConfigView, now: i64) -> bool {
    job_plan(locals, s, key, remote, now).1
}

/// Some local archive is of type `t`.
pub open spec fn has_local_of_type(locals: Seq<ArchiveMetadataView>, t: ArchiveType) -> bool {
    exists|i: int| 0 <= i < locals.len() && (#[trigger] locals[i]).archive_type == t
}

/// Every remote of an archive type that some local archive has holds a valid
/// retention (the expiry of a local archive is computed for each remote of
/// its type).
pub open spec fn upload_retentions_valid(config: AppConfig, locals: Seq<ArchiveMetadataView>) -> bool {
    forall|t: ArchiveType, k: int| has_local_of_type(locals, t) && 0 <= k < spec_remote_configs(config, t).len()
        ==> spec_days_valid(#[trigger] spec_remote_configs(config, t)[k].cache_expiry_days)
}

/// The configured remotes of the archive type `t`, each with the type.
pub open spec fn type_targets(config: AppConfig, t: ArchiveType) -> Seq<(ArchiveType, RemoteConfigView)> {
    remote_views(spec_remote_configs(config, t)).map_values(|r: RemoteConfigView| (t, r))
}

/// The configured remotes of the types `types`, type after type.
pub open spec fn targets_of(config: AppConfig, types: Seq<ArchiveType>) -> Seq<(ArchiveType, RemoteConfigView)>
    decreases types.len(),
{
    if types.len() == 0 {
        Seq::empty()
    } else {
        targets_of(config, types.drop_last()) + type_targets(config, types.last())
    }
}

/// Every configured remote of every archive type, in the order of the types
/// and, within a type, of the configuration.
pub open spec fn upload_targets(config: AppConfig) -> Seq<(ArchiveType, RemoteConfigView)> {
    targets_of(config, crate::archive_type::spec_all_types())
}

/// The key (remote name and type) of a target.
pub open spec fn target_key(target: (ArchiveType, RemoteConfigView)) -> (Seq<char>, ArchiveType) {
    (target.1.remote_name, target.0)
}

/// The uploads to one remote.
pub struct UploadJob {
    pub remote_config: RemoteConfig,
    /// Indices into the local archives, in order.
    pub archives: Vec<usize>,
    /// The error that ends the job after its uploads: an archive whose file
    /// name is needed has none.
    pub error: Option<CustomError>,
}

/// The uploads that `upload_command` performs: one job for each configured
/// remote of each archive type (see [`upload_targets`]), with the local
/// archives to upload to it.
pub open spec fn spec_upload_jobs_ok(jobs: Seq<UploadJob>, config: AppConfig, locals: Seq<ArchiveMetadataView>, s: Seq<RemoteArchiveView>, now: i64) -> bool {
    spec_upload_targets_done(jobs, config, locals, s, now, upload_targets(config))
}

fn group_archive_name(remote_archives: &Vec<RemoteArchiveMetadata>, j: usize) -> (res: Option<String>)
    requires
        j < remote_archives@.len(),
    ensures
        match spec_path_file_name(remote_archives@[j as int].archive_metadata.full_path@) {
            None => res is None,
            Some(n) => res matches Some(r) && r@ == n,
        },
{
    match remote_archives[j].archive_metadata.full_path.as_str().file_name_as_string() {
        Ok(n) => Some(n),
        Err(_) => None,
    }
}

/// Whether the local archive named `name` is on the remote `remote_name` as
/// an archive of type `t`: `None` when an archive of that group has no file
/// name.
fn find_uploaded(remote_archives: &Vec<RemoteArchiveMetadata>, remote_name: &String, t: ArchiveType, name: &String) -> (res: Option<bool>)
    ensures
        match res {
            None => !group_named(remote_archive_views(remote_archives@), (remote_name@, t)),
            Some(b) => group_named(remote_archive_views(remote_archives@), (remote_name@, t))
                && b == already_uploaded(remote_archive_views(remote_archives@), (remote_name@, t), Some(name@)),
        },
{
    let ghost s = remote_archive_views(remote_archives@);
    let ghost gk = (remote_name@, t);
    let mut uploaded = false;
    let mut j: usize = 0;
    while j < remote_archives.len()
        invariant
            j <= remote_archives.len(),
            s == remote_archive_views(remote_archives@),
            gk == (remote_name@, t),
            forall|q: int| 0 <= q < j && group_key(#[trigger] s[q]) == gk ==> spec_path_file_name(s[q].archive.full_path) is Some,
            uploaded == exists|q: int| 0 <= q < j && group_key(#[trigger] s[q]) == gk
                && spec_path_file_name(s[q].archive.full_path) == Some(name@),
        decreases remote_archives.len() - j,
    {
        assert(s[j as int] == remote_archives@[j as int]@);
        if remote_archives[j].remote_config.remote_name == *remote_name
            && remote_archives[j].archive_metadata.archive_type == t {
            assert(group_key(s[j as int]) == gk);
            match group_archive_name(remote_archives, j) {
                None => {
                    return None;
                },
                Some(n) => {
                    if n == *name {
                        uploaded = true;
                    }
                    proof {
                        if !uploaded {
                            assert forall|q: int| 0 <= q < j + 1 && group_key(#[trigger] s[q]) == gk
                                implies spec_path_file_name(s[q].archive.full_path) != Some(name@) by {
                                if q == j as int {
                                    assert(n@ != name@);
                                }
                            }
                        }
                    }
                },
            }
        }
        j += 1;
    }
    Some(uploaded)
}

proof fn lemma_job_plan_failed_after(locals: Seq<ArchiveMetadataView>, s: Seq<RemoteArchiveView>, key: (Seq<char>, ArchiveType), remote: RemoteConfigView, now: i64, i: int)
    requires
        0 <= i <= locals.len(),
        job_plan(locals.take(i), s, key, remote, now).1,
    ensures
        job_plan(locals, s, key, remote, now) == job_plan(locals.take(i), s, key, remote, now),
    decreases locals.len() - i,
{
    if i < locals.len() {
        assert(locals.take(i + 1).drop_last() =~= locals.take(i));
        lemma_job_plan_failed_after(locals, s, key, remote, now, i + 1);
    } else {
        assert(locals.take(i) =~= locals);
    }
}

/// The job to `remote`, a remote of the type `t`.
fn plan_remote(
    local_archives: &Vec<ArchiveMetadata>,
    remote_archives: &Vec<RemoteArchiveMetadata>,
    t: ArchiveType,
    remote: RemoteConfig,
    now: i64,
) -> (res: UploadJob)
    requires
        has_local_of_type(metadata_views(local_archives@), t) ==> spec_days_valid(remote.cache_expiry_days),
    ensures
        res.remote_config@ == remote@,
        res.archives@ == upload_indices(metadata_views(local_archives@), remote_archive_views(remote_archives@), (remote.remote_name@, t), remote@, now),
        res.error is Some <==> job_failed(metadata_views(local_archives@), remote_archive_views(remote_archives@), (remote.remote_name@, t), remote@, now),
        res.error matches Some(e) ==> is_error_message(e, no_file_name_message()),
{
    let ghost locals = metadata_views(local_archives@);
    let ghost s = remote_archive_views(remote_archives@);
    let ghost gk = (remote.remote_name@, t);
    let mut indices: Vec<usize> = Vec::new();
    let mut error: Option<CustomError> = None;
    let mut k: usize = 0;
    while k < local_archives.len() && error.is_none()
        invariant
            k <= local_archives.len(),
            locals == metadata_views(local_archives@),
            s == remote_archive_views(remote_archives@),
            has_local_of_type(locals, t) ==> spec_days_valid(remote.cache_expiry_days),
            gk == (remote.remote_name@, t),
            indices@ == job_plan(locals.take(k as int), s, gk, remote@, now).0,
            error is Some <==> job_plan(locals.take(k as int), s, gk, remote@, now).1,
            error matches Some(e) ==> is_error_message(e, no_file_name_message()),
        decreases local_archives.len() - k,
    {
        assert(locals.take(k + 1).drop_last() =~= locals.take(k as int));
        assert(locals.take(k + 1).last() == locals[k as int]);
        assert(locals[k as int] == local_archives@[k as int]@);
        if local_archives[k].archive_type == t {
            assert(has_local_of_type(locals, t));
            match local_archives[k].full_path.as_str().file_name_as_string() {
                Err(e) => {
                    error = Some(e);
                },
                Ok(name) => {
                    match find_uploaded(remote_archives, &remote.remote_name, t, &name) {
                        None => {
                            error = Some(CustomError::from_message("The file does not have a `file_stem`."));
                        },
                        Some(uploaded) => {
                            let expired = is_expired(local_archives[k].archive_date, now, remote.cache_expiry_days);
                            if !expired && !uploaded {
                                indices.push(k);
                            }
                        },
                    }
                },
            }
        }
        k += 1;
    }
    proof {
        if error is Some {
            lemma_job_plan_failed_after(locals, s, gk, remote@, now, k as int);
        } else {
            assert(locals.take(k as int) =~= locals);
        }
    }
    UploadJob { remote_config: remote, archives: indices, error }
}

/// Decides the uploads: for every configured remote of every archive type,
/// the local archives of that type that are not expired for the remote and
/// whose file name no archive of that remote and type has. A remote that
/// holds no archive yet gets every fresh local archive of its type. A job
/// stops at the first local archive of its type whose file name, or the
/// name of an archive of its remote and type, is missing; the uploads
/// decided before it stay, and the job ends in that error.
pub fn upload_command(config: &AppConfig, local_archives: &Vec<ArchiveMetadata>, remote_archives: &Vec<RemoteArchiveMetadata>, now: i64) -> (res: Vec<UploadJob>)
    requires
        upload_retentions_valid(*config, metadata_views(local_archives@)),
    ensures
        spec_upload_jobs_ok(res@, *config, metadata_views(local_archives@), remote_archive_views(remote_archives@), now),
        jobs_within(res@, local_archives@.len()),
{
    let ghost locals = metadata_views(local_archives@);
    let ghost s = remote_archive_views(remote_archives@);
    let n_locals = local_archives.len();
    assert(locals.len() == n_locals);
    let types = ArchiveType::all();
    let ghost all_types = types@;
    let mut jobs: Vec<UploadJob> = Vec::new();
    let mut ti: usize = 0;
    while ti < types.len()
        invariant
            ti <= types.len(),
            types@ == all_types,
            all_types == crate::archive_type::spec_all_types(),
            locals == metadata_views(local_archives@),
            s == remote_archive_views(remote_archives@),
            upload_retentions_valid(*config, locals),
            spec_upload_targets_done(jobs@, *config, locals, s, now, targets_of(*config, all_types.take(ti as int))),
            jobs_within(jobs@, local_archives@.len()),
            locals.len() == n_locals,
        decreases types.len() - ti,
    {
        let t = types[ti];
        assert(all_types.take(ti + 1).drop_last() =~= all_types.take(ti as int));
        assert(all_types.take(ti + 1).last() == t);
        let remotes = get_remote_config(config, &t);
        let ghost done = targets_of(*config, all_types.take(ti as int));
        let ghost tt = type_targets(*config, t);
        let mut ri: usize = 0;
        while ri < remotes.len()
            invariant
                ri <= remotes.len(),
                remote_views(remotes@) == remote_views(spec_remote_configs(*config, t)),
                tt == type_targets(*config, t),
                locals == metadata_views(local_archives@),
                s == remote_archive_views(remote_archives@),
                upload_retentions_valid(*config, locals),
                spec_upload_targets_done(jobs@, *config, locals, s, now, done + tt.take(ri as int)),
                jobs_within(jobs@, local_archives@.len()),
                locals.len() == n_locals,
            decreases remotes.len() - ri,
        {
            assert(remote_views(remotes@)[ri as int] == remotes@[ri as int]@);
            assert(remote_views(spec_remote_configs(*config, t))[ri as int] == spec_remote_configs(*config, t)[ri as int]@);
            proof {
                if has_local_of_type(locals, t) {
                    assert(spec_days_valid(spec_remote_configs(*config, t)[ri as int].cache_expiry_days));
                }
            }
            let remote = remotes[ri].copy();
            let ghost rv = remote@;
            let job = plan_remote(local_archives, remote_archives, t, remote, now);
            proof {
                lemma_upload_indices_below(locals, s, (rv.remote_name, t), rv, now);
            }
            jobs.push(job);
            proof {
                assert(tt[ri as int] == (t, remotes@[ri as int]@));
                assert(done + tt.take(ri + 1) =~= (done + tt.take(ri as int)).push(tt[ri as int]));
            }
            ri += 1;
        }
        proof {
            assert(tt.len() == remotes@.len());
            assert(tt.take(remotes.len() as int) =~= tt);
        }
        ti += 1;
    }
    assert(all_types.take(types.len() as int) =~= all_types);
    jobs
}

/// Every index of `jobs` is below `n` (the number of local archives).
pub open spec fn jobs_within(jobs: Seq<UploadJob>, n: nat) -> bool {
    forall|g: int, k: int| 0 <= g < jobs.len() && 0 <= k < jobs[g].archives@.len() ==> (#[trigger] jobs[g].archives@[k]) < n
}

/// `jobs` are the jobs of the targets `targets`, in order.
pub open spec fn spec_upload_targets_done(jobs: Seq<UploadJob>, config: AppConfig, locals: Seq<ArchiveMetadataView>, s: Seq<RemoteArchiveView>, now: i64, targets: Seq<(ArchiveType, RemoteConfigView)>) -> bool {
    &&& jobs.len() == targets.len()
    &&& forall|g: int| 0 <= g < targets.len() ==> (#[trigger] jobs[g]).remote_config@ == targets[g].1
        && jobs[g].archives@ == upload_indices(locals, s, target_key(targets[g]), targets[g].1, now)
        && (jobs[g].error is Some <==> job_failed(locals, s, target_key(targets[g]), targets[g].1, now))
        && (jobs[g].error matches Some(e) ==> is_error_message(e, no_file_name_message()))
}

} // verus!

verus! {

/// The arguments of `upload`.
pub struct UploadCommandOptions {
    /// Only archives of this type; all types when absent.
    pub archive_type: Option<ArchiveType>,
}

/// Reads the arguments of `upload` (the value of `--archive-type`).
pub fn upload_command_options(archive_type_value: Option<&str>) -> (res: Result<UploadCommandOptions>)
    ensures
        match archive_type_value {
            None => res matches Ok(o) && o.archive_type is None,
            Some(v) => match crate::archive_type::spec_parse_type(v@) {
                Some(t) => res matches Ok(o) && o.archive_type == Some(t),
                None => crate::errors::fails_with_user_error(res, crate::archive_type::unknown_type_message(v@)),
            },
        },
{
    match crate::archive_type::parse_optional_archive_type(archive_type_value) {
        Ok(archive_type) => Ok(UploadCommandOptions { archive_type }),
        Err(e) => Err(e),
    }
}

} // verus!

verus! {

/// `upload` sends what is missing: every configured remote of every archive
/// type gets a job, and a local archive is in the job of a remote exactly
/// when it is of the remote's type, not expired for that remote, and no
/// archive of that type on that remote has its file name (unless the job
/// stopped at an earlier archive whose name is unknown).
pub proof fn lemma_upload_sends_what_is_missing(jobs: Seq<UploadJob>, config: AppConfig, locals: Seq<ArchiveMetadataView>, s: Seq<RemoteArchiveView>, now: i64, g: int, k: int)
    requires
        spec_upload_jobs_ok(jobs, config, locals, s, now),
        0 <= g < upload_targets(config).len(),
        0 <= k < locals.len(),
        locals.len() <= usize::MAX,
    ensures
        jobs.len() == upload_targets(config).len(),
        jobs[g].remote_config@ == upload_targets(config)[g].1,
        jobs[g].archives@.contains(k as usize) <==> {
            let target = upload_targets(config)[g];
            &&& locals[k].archive_type == target.0
            &&& !spec_is_expired(locals[k].archive_date, now, target.1.cache_expiry_days)
            &&& !already_uploaded(s, target_key(target), spec_path_file_name(locals[k].full_path))
            &&& !job_failed(locals.take(k + 1), s, target_key(target), target.1, now)
        },
{
    let target = upload_targets(config)[g];
    lemma_upload_exact(locals, s, target_key(target), target.1, now, k);
}

/// A local archive is in the job of a remote exactly when it should be
/// uploaded there and the job has not stopped at it or before; the uploads
/// keep the order of the local archives.
pub proof fn lemma_upload_exact(locals: Seq<ArchiveMetadataView>, s: Seq<RemoteArchiveView>, key: (Seq<char>, ArchiveType), remote: RemoteConfigView, now: i64, k: int)
    requires
        0 <= k < locals.len(),
        locals.len() <= usize::MAX,
    ensures
        upload_indices(locals, s, key, remote, now).contains(k as usize)
            <==> (should_upload(locals[k], s, key, remote, now) && !job_failed(locals.take(k + 1), s, key, remote, now)),
        forall|a: int, b: int| 0 <= a < b < upload_indices(locals, s, key, remote, now).len()
            ==> upload_indices(locals, s, key, remote, now)[a] < upload_indices(locals, s, key, remote, now)[b],
    decreases locals.len(),
{
    let u = upload_indices(locals, s, key, remote, now);
    let init = locals.drop_last();
    let ui = upload_indices(init, s, key, remote, now);
    lemma_upload_indices_below(locals, s, key, remote, now);
    lemma_upload_indices_below(init, s, key, remote, now);
    assert(u == ui || u == ui.push((locals.len() - 1) as usize));
    if k < locals.len() - 1 {
        lemma_upload_exact(init, s, key, remote, now, k);
        assert(init[k] == locals[k]);
        assert(locals.take(k + 1) =~= init.take(k + 1));
        if u.contains(k as usize) {
            let m = choose|m: int| 0 <= m < u.len() && u[m] == k as usize;
            if m < ui.len() {
                assert(ui[m] == k as usize);
            }
        }
        if ui.contains(k as usize) {
            let m = choose|m: int| 0 <= m < ui.len() && ui[m] == k as usize;
            assert(u[m] == k as usize);
        }
    } else {
        assert(locals.take(k + 1) =~= locals);
        if u.contains(k as usize) {
            let m = choose|m: int| 0 <= m < u.len() && u[m] == k as usize;
            if m < ui.len() {
                assert(ui[m] < init.len());
            }
        }
        if u == ui.push((locals.len() - 1) as usize) && u != ui {
            assert(u[ui.len() as int] == k as usize);
        }
    }
}

proof fn lemma_upload_indices_below(locals: Seq<ArchiveMetadataView>, s: Seq<RemoteArchiveView>, key: (Seq<char>, ArchiveType), remote: RemoteConfigView, now: i64)
    requires
        locals.len() <= usize::MAX,
    ensures
        forall|m: int| 0 <= m < upload_indices(locals, s, key, remote, now).len()
            ==> (#[trigger] upload_indices(locals, s, key, remote, now)[m]) < locals.len(),
        forall|a: int, b: int| 0 <= a < b < upload_indices(locals, s, key, remote, now).len()
            ==> upload_indices(locals, s, key, remote, now)[a] < upload_indices(locals, s, key, remote, now)[b],
    decreases locals.len(),
{
    if locals.len() > 0 {
        let init = locals.drop_last();
        lemma_upload_indices_below(init, s, key, remote, now);
        let ui = upload_indices(init, s, key, remote, now);
        let u = upload_indices(locals, s, key, remote, now);
        if u != ui {
            assert(u == ui.push((locals.len() - 1) as usize));
            assert forall|m: int| 0 <= m < u.len() implies (#[trigger] u[m]) < locals.len() by {
                if m < ui.len() {
                    assert(u[m] == ui[m]);
                }
            }
            assert forall|a: int, b: int| 0 <= a < b < u.len() implies u[a] < u[b] by {
                assert(u[a] == ui[a]);
                if b < ui.len() {
                    assert(u[b] == ui[b]);
                }
            }
        }
    }
}

} // verus!

verus! {

/// The upload commands of `job`, in order.
pub open spec fn job_commands(job: UploadJob, locals: Seq<ArchiveMetadataView>) -> Seq<Seq<char>> {
    job.archives@.map_values(|i: usize| cmd_upload(locals[i as int].full_path, job.remote_config@))
}

/// `script` uploads the archives of `job`: its commands in order, stopping
/// at the first that fails.
pub open spec fn job_script(script: Script<NoHook>, job: UploadJob, locals: Seq<ArchiveMetadataView>) -> bool {
    &&& !script.keep_going
    &&& step_views(script.body@) == shells::<()>(job_commands(job, locals))
    &&& script.cleanup@.len() == 0
}

/// What a job's script ends in once its uploads succeeded: the job's error,
/// if it stopped at an archive whose name is unknown.
pub open spec fn job_value(job: UploadJob, value: Result<()>) -> bool {
    &&& (job.error is None ==> value == Ok::<(), CustomError>(()))
    &&& (job.error is Some ==> (value matches Err(e) && is_error_message(e, no_file_name_message())))
}

/// The outcome of running the upload jobs `jobs` with `perform`: each job's
/// script ran (every job, even after another failed), ending in the job's
/// error if it has one, and the result is the first failure.
pub open spec fn uploads_ran<F: Fn(&Step<NoHook>) -> Result<()>>(jobs: Seq<UploadJob>, locals: Seq<ArchiveMetadataView>, perform: F, res: Result<()>) -> bool {
    exists|scripts: Seq<Script<NoHook>>, values: Seq<Result<()>>, outs: Seq<Result<()>>|
        #[trigger] uploads_ran_as(jobs, locals, perform, res, scripts, values, outs)
}

/// The upload jobs `jobs` ran as the scripts `scripts`, ending in `values`
/// when their uploads succeeded, with the outcomes `outs`, and gave `res`.
pub open spec fn uploads_ran_as<F: Fn(&Step<NoHook>) -> Result<()>>(jobs: Seq<UploadJob>, locals: Seq<ArchiveMetadataView>, perform: F, res: Result<()>, scripts: Seq<Script<NoHook>>, values: Seq<Result<()>>, outs: Seq<Result<()>>) -> bool {
    &&& scripts.len() == jobs.len()
    &&& values.len() == jobs.len()
    &&& outs.len() == jobs.len()
    &&& forall|g: int| 0 <= g < jobs.len() ==> job_script(#[trigger] scripts[g], jobs[g], locals)
        && job_value(jobs[g], values[g])
        && script_outcome(scripts[g], perform, values[g], outs[g])
    &&& res == first_error(outs)
}

fn job_upload_commands(job: &UploadJob, local_archives: &Vec<ArchiveMetadata>) -> (res: Vec<String>)
    requires
        forall|k: int| 0 <= k < job.archives@.len() ==> (#[trigger] job.archives@[k]) < local_archives@.len(),
    ensures
        string_views(res@) == job_commands(*job, metadata_views(local_archives@)),
{
    let ghost locals = metadata_views(local_archives@);
    let mut res: Vec<String> = Vec::new();
    let mut k: usize = 0;
    while k < job.archives.len()
        invariant
            k <= job.archives.len(),
            locals == metadata_views(local_archives@),
            forall|q: int| 0 <= q < job.archives@.len() ==> (#[trigger] job.archives@[q]) < local_archives@.len(),
            string_views(res@) == job.archives@.take(k as int).map_values(|i: usize| cmd_upload(locals[i as int].full_path, job.remote_config@)),
        decreases job.archives.len() - k,
    {
        let i = job.archives[k];
        let c = upload_archive(&local_archives[i], &job.remote_config);
        assert(locals[i as int] == local_archives@[i as int]@);
        let ghost before = string_views(res@);
        res.push(c);
        assert(string_views(res@) =~= before.push(c@));
        assert(job.archives@.take(k + 1).map_values(|i: usize| cmd_upload(locals[i as int].full_path, job.remote_config@))
            =~= job.archives@.take(k as int).map_values(|i: usize| cmd_upload(locals[i as int].full_path, job.remote_config@)).push(c@));
        k += 1;
    }
    assert(job.archives@.take(job.archives.len() as int) =~= job.archives@);
    res
}

/// `upload`: plans the uploads (see [`upload_command`]) and runs them with
/// `perform`, remote after remote; the uploads to one remote stop at its
/// first failure (or end in the job's own error), every remote is tried, and
/// the result is the first failure.
pub fn run_upload_command<F: Fn(&Step<NoHook>) -> Result<()>>(config: &AppConfig, local_archives: &Vec<ArchiveMetadata>, remote_archives: &Vec<RemoteArchiveMetadata>, now: i64, perform: F) -> (res: Result<()>)
    requires
        upload_retentions_valid(*config, metadata_views(local_archives@)),
        forall|st: Step<NoHook>| call_requires(perform, (&st,)),
    ensures
        exists|jobs: Seq<UploadJob>| #![trigger spec_upload_jobs_ok(jobs, *config, metadata_views(local_archives@), remote_archive_views(remote_archives@), now)]
            spec_upload_jobs_ok(jobs, *config, metadata_views(local_archives@), remote_archive_views(remote_archives@), now)
            && uploads_ran(jobs, metadata_views(local_archives@), perform, res),
{
    let ghost locals = metadata_views(local_archives@);
    let jobs = upload_command(config, local_archives, remote_archives, now);
    let ghost mut scripts: Seq<Script<NoHook>> = Seq::empty();
    let ghost mut values: Seq<Result<()>> = Seq::empty();
    let ghost mut outs: Seq<Result<()>> = Seq::empty();
    let mut first: Option<CustomError> = None;
    let mut g: usize = 0;
    while g < jobs.len()
        invariant
            g <= jobs.len(),
            locals == metadata_views(local_archives@),
            jobs_within(jobs@, local_archives@.len()),
            forall|st: Step<NoHook>| call_requires(perform, (&st,)),
            scripts.len() == g,
            values.len() == g,
            outs.len() == g,
            forall|q: int| 0 <= q < g ==> job_script(#[trigger] scripts[q], jobs@[q], locals)
                && job_value(jobs@[q], values[q])
                && script_outcome(scripts[q], perform, values[q], outs[q]),
            match first {
                None => first_error(outs) == Ok::<(), CustomError>(()),
                Some(e) => first_error(outs) == Err::<(), CustomError>(e),
            },
        decreases jobs.len() - g,
    {
        let job = &jobs[g];
        assert forall|k: int| 0 <= k < job.archives@.len() implies (#[trigger] job.archives@[k]) < local_archives@.len() by {
            assert(jobs@[g as int].archives@[k] < local_archives@.len());
        }
        let cmds = job_upload_commands(job, local_archives);
        let body: Vec<Step<NoHook>> = shell_steps(&cmds);
        let script = Script { body, cleanup: Vec::new(), keep_going: false };
        assert forall|k: int| 0 <= k < script.body@.len() implies call_requires(perform, (&#[trigger] script.body@[k],)) by {
            let st = script.body@[k];
            assert(call_requires(perform, (&st,)));
        }
        let value: Result<()> = if job.error.is_some() {
            Err(CustomError::from_message("The file does not have a `file_stem`."))
        } else {
            Ok(())
        };
        let ghost v = value;
        let r = run_script(&script, value, &perform);
        let ghost before = outs;
        proof {
            scripts = scripts.push(script);
            values = values.push(v);
            outs = outs.push(r);
            assert(outs.drop_last() =~= before);
        }
        match r {
            Err(e) => {
                if first.is_none() {
                    first = Some(e);
                }
            },
            Ok(()) => {},
        }
        g += 1;
    }
    let res = match first {
        Some(e) => Err(e),
        None => Ok(()),
    };
    assert(uploads_ran_as(jobs@, locals, perform, res, scripts, values, outs));
    res
}

} // verus!
