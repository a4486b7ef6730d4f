//! Archives on remotes: listing them, uploading, and the retention rule that
//! decides which expired ones to delete.

use vstd::prelude::*;
use vstd::string::StringExecFns;
use crate::app_config::{AppConfig, RemoteConfig, RemoteConfigView};
use crate::archive_helper::{ArchiveMetadata, ArchiveMetadataView, read_metadata, spec_read_metadata, no_file_name_message};
use crate::archive_type::{ArchiveType, get_remote_config, remote_views, spec_remote_configs};
use crate::dates::{is_expired, spec_days_valid, spec_is_expired};
use crate::errors::{CustomError, Result, fails_with_message, is_error_message};
use crate::extensions::{path_push, spec_path_push};
use crate::archive_helper::NoHook;
use crate::script::{Script, Step, run_script, script_outcome, shell_steps, shells, step_views};
use crate::text::string_views;

verus! {

/// A file as `rclone lsjson` describes it.
pub struct RemoteFile {
    pub path: String,
    pub name: String,
    pub size: u64,
    pub mime_type: String,
    pub modification_time: String,
    pub is_directory: bool,
    pub id: String,
}

/// The value of a [`RemoteFile`].
pub struct RemoteFileView {
    pub path: Seq<char>,
    pub name: Seq<char>,
    pub size: u64,
    pub mime_type: Seq<char>,
    pub modification_time: Seq<char>,
    pub is_directory: bool,
    pub id: Seq<char>,
}

impl View for RemoteFile {
    type V = RemoteFileView;

    open spec fn view(&self) -> RemoteFileView {
        RemoteFileView {
            path: self.path@,
            name: self.name@,
            size: self.size,
            mime_type: self.mime_type@,
            modification_time: self.modification_time@,
            is_directory: self.is_directory,
            id: self.id@,
        }
    }
}

impl RemoteFile {
    /// A copy with the same value.
    pub fn copy(&self) -> (res: RemoteFile)
        ensures
            res@ == self@,
    {
        RemoteFile {
            path: self.path.clone(),
            name: self.name.clone(),
            size: self.size,
            mime_type: self.mime_type.clone(),
            modification_time: self.modification_time.clone(),
            is_directory: self.is_directory,
            id: self.id.clone(),
        }
    }
}

/// An archive found on a remote.
pub struct RemoteArchiveMetadata {
    pub archive_metadata: ArchiveMetadata,
    pub remote_config: RemoteConfig,
    pub remote_file: RemoteFile,
}

/// The value of a [`RemoteArchiveMetadata`].
pub struct RemoteArchiveView {
    pub archive: ArchiveMetadataView,
    pub remote: RemoteConfigView,
    pub file: RemoteFileView,
}

impl View for RemoteArchiveMetadata {
    type V = RemoteArchiveView;

    open spec fn view(&self) -> RemoteArchiveView {
        RemoteArchiveView {
            archive: self.archive_metadata@,
            remote: self.remote_config@,
            file: self.remote_file@,
        }
    }
}

/// The views of a list of remote archives.
pub open spec fn remote_archive_views(s: Seq<RemoteArchiveMetadata>) -> Seq<RemoteArchiveView> {
    s.map_values(|m: RemoteArchiveMetadata| m@)
}

/// `rclone copy -P <local> <remote_name>:<remote_path>/`
pub open spec fn cmd_upload(local: Seq<char>, remote: RemoteConfigView) -> Seq<char> {
    "rclone copy -P "@ + local + " "@ + remote.remote_name + ":"@ + remote.remote_path + "/"@
}

/// The command that uploads the archive to the remote.
pub fn upload_archive(archive_metadata: &ArchiveMetadata, remote_config: &RemoteConfig) -> (res: String)
    ensures
        res@ == cmd_upload(archive_metadata.full_path@, remote_config@),
{
    let mut s = "rclone copy -P ".to_owned();
    s.append(archive_metadata.full_path.as_str());
    s.append(" ");
    s.append(remote_config.remote_name.as_str());
    s.append(":");
    s.append(remote_config.remote_path.as_str());
    s.append("/");
    s
}

/// `rclone lsjson <remote_name>:<remote_path>/`
pub open spec fn cmd_list_remote(remote: RemoteConfigView) -> Seq<char> {
    "rclone lsjson "@ + remote.remote_name + ":"@ + remote.remote_path + "/"@
}

/// The command whose output (JSON) lists the files of the remote.
pub fn list_remote_command(remote_config: &RemoteConfig) -> (res: String)
    ensures
        res@ == cmd_list_remote(remote_config@),
{
    let mut s = "rclone lsjson ".to_owned();
    s.append(remote_config.remote_name.as_str());
    s.append(":");
    s.append(remote_config.remote_path.as_str());
    s.append("/");
    s
}

/// `rclone deletefile <remote_name>:<full_path>`
pub open spec fn cmd_delete_remote(a: RemoteArchiveView) -> Seq<char> {
    "rclone deletefile "@ + a.remote.remote_name + ":"@ + a.archive.full_path
}

/// The command that deletes the archive from its remote.
pub fn delete_remote_archive(remote_archive: &RemoteArchiveMetadata) -> (res: String)
    ensures
        res@ == cmd_delete_remote(remote_archive@),
{
    let mut s = "rclone deletefile ".to_owned();
    s.append(remote_archive.remote_config.remote_name.as_str());
    s.append(":");
    s.append(remote_archive.archive_metadata.full_path.as_str());
    s
}

/// The archives of type `t` among the files of a remote whose directory is
/// `remote_path`; `None` when a file's path has no file name.
pub open spec fn spec_collect_remote(t: ArchiveType, remote: RemoteConfigView, names: Seq<RemoteFileView>) -> Option<Seq<RemoteArchiveView>>
    decreases names.len(),
{
    if names.len() == 0 {
        Some(Seq::empty())
    } else {
        match spec_collect_remote(t, remote, names.drop_last()) {
            None => None,
            Some(found) => match spec_read_metadata(spec_path_push(remote.remote_path, names.last().name)) {
                None => None,
                Some(None) => Some(found),
                Some(Some(m)) => if m.archive_type == t {
                    Some(found.push(RemoteArchiveView { archive: m, remote: remote, file: names.last() }))
                } else {
                    Some(found)
                },
            },
        }
    }
}

/// The values of the files of a listing.
pub open spec fn file_names(files: Seq<RemoteFile>) -> Seq<RemoteFileView> {
    files.map_values(|f: RemoteFile| f@)
}

proof fn lemma_collect_remote_fails_after(t: ArchiveType, remote: RemoteConfigView, names: Seq<RemoteFileView>, i: int)
    requires
        0 <= i <= names.len(),
        spec_collect_remote(t, remote, names.take(i)) is None,
    ensures
        spec_collect_remote(t, remote, names) is None,
    decreases names.len() - i,
{
    if i < names.len() {
        assert(names.take(i + 1).drop_last() =~= names.take(i));
        lemma_collect_remote_fails_after(t, remote, names, i + 1);
    } else {
        assert(names.take(i) =~= names);
    }
}

/// The archives of type `archive_type` among the files that `rclone lsjson`
/// listed on `remote_config`, in order.
pub fn collect_remote_archives(archive_type: &ArchiveType, remote_config: &RemoteConfig, files: &Vec<RemoteFile>) -> (res: Result<Vec<RemoteArchiveMetadata>>)
    ensures
        match spec_collect_remote(*archive_type, remote_config@, file_names(files@)) {
            None => fails_with_message(res, no_file_name_message()),
            Some(found) => res matches Ok(v) && remote_archive_views(v@) == found,
        },
{
    let mut found: Vec<RemoteArchiveMetadata> = Vec::new();
    let mut i: usize = 0;
    while i < files.len()
        invariant
            i <= files.len(),
            spec_collect_remote(*archive_type, remote_config@, file_names(files@.take(i as int)))
                == Some(remote_archive_views(found@)),
        decreases files.len() - i,
    {
        let ghost prefix = file_names(files@.take(i as int));
        let ghost next = file_names(files@.take(i + 1));
        assert(next.drop_last() =~= prefix);
        assert(next.last() == files@[i as int]@);
        let full_path = path_push(remote_config.remote_path.as_str(), files[i].name.as_str());
        match read_metadata(full_path.as_str()) {
            Err(e) => {
                proof {
                    lemma_collect_remote_fails_after(*archive_type, remote_config@, file_names(files@), i as int + 1);
                    assert(file_names(files@).take(i + 1) =~= next);
                }
                return Err(e);
            },
            Ok(None) => {},
            Ok(Some(m)) => {
                if m.archive_type == *archive_type {
                    let item = RemoteArchiveMetadata {
                        archive_metadata: m,
                        remote_config: remote_config.copy(),
                        remote_file: files[i].copy(),
                    };
                    found.push(item);
                    assert(remote_archive_views(found@) =~= remote_archive_views(found@.drop_last()).push(found@.last()@));
                    assert(found@.drop_last() =~= found@.take(found@.len() - 1));
                }
            },
        }
        i += 1;
    }
    assert(files@.take(files.len() as int) =~= files@);
    Ok(found)
}


/// Index `a` comes before index `b` when ordered by date, ties broken by
/// position.
pub open spec fn key_before(dates: Seq<i64>, a: int, b: int) -> bool {
    dates[a] < dates[b] || (dates[a] == dates[b] && a < b)
}

/// `order` lists indices in strictly increasing [`key_before`] order.
pub open spec fn sorted_by_key(dates: Seq<i64>, order: Seq<usize>) -> bool {
    forall|k: int, l: int| 0 <= k < l < order.len() ==> key_before(dates, order[k] as int, order[l] as int)
}

/// Inserts index `i`, larger than every index already in `order`, at its
/// place in date order.
fn insert_by_date(order: &mut Vec<usize>, i: usize, dates: &Vec<i64>)
    requires
        i < dates@.len(),
        sorted_by_key(dates@, old(order)@),
        forall|k: int| 0 <= k < old(order)@.len() ==> (#[trigger] old(order)@[k]) < i,
    ensures
        sorted_by_key(dates@, final(order)@),
        final(order)@.len() == old(order)@.len() + 1,
        forall|x: usize| #[trigger] final(order)@.contains(x) <==> (old(order)@.contains(x) || x == i),
{
    let ghost before = order@;
    let mut pos: usize = 0;
    while pos < order.len() && dates[order[pos]] <= dates[i]
        invariant
            pos <= order@.len(),
            order@ == before,
            i < dates@.len(),
            forall|k: int| 0 <= k < order@.len() ==> (#[trigger] order@[k]) < i,
            forall|k: int| 0 <= k < pos ==> key_before(dates@, #[trigger] order@[k] as int, i as int),
            forall|k: int| 0 <= k < order@.len() ==> (#[trigger] order@[k] as int) < dates@.len(),
        decreases order@.len() - pos,
    {
        pos += 1;
    }
    proof {
        assert forall|k: int| pos <= k < order@.len() implies key_before(dates@, i as int, #[trigger] order@[k] as int) by {
            assert(!(dates@[order@[pos as int] as int] <= dates@[i as int]));
            if k > pos {
                assert(key_before(dates@, order@[pos as int] as int, order@[k] as int));
            }
        }
        before.insert_ensures(pos as int, i);
    }
    order.insert(pos, i);
    proof {
        let after = order@;
        assert(after =~= before.insert(pos as int, i));
        assert forall|k: int, l: int| 0 <= k < l < after.len() implies key_before(dates@, after[k] as int, after[l] as int) by {
            if l < pos {
            } else if l == pos {
            } else if k < pos {
                assert(after[l] == before[l - 1]);
            } else if k == pos {
                assert(after[l] == before[l - 1]);
            } else {
                assert(after[l] == before[l - 1]);
                assert(after[k] == before[k - 1]);
            }
        }
        assert forall|x: usize| #[trigger] after.contains(x) <==> (before.contains(x) || x == i) by {
            if after.contains(x) {
                let k = choose|k: int| 0 <= k < after.len() && after[k] == x;
                if k < pos {
                    assert(before[k] == x);
                } else if k > pos {
                    assert(before[k - 1] == x);
                }
            }
            if before.contains(x) {
                let k = choose|k: int| 0 <= k < before.len() && before[k] == x;
                if k < pos {
                    assert(after[k] == x);
                } else {
                    assert(after[k + 1] == x);
                }
            }
            if x == i {
                assert(after[pos as int] == x);
            }
        }
    }
}


/// The number of indices `j` in `0..n` for which `f(j)` holds.
pub open spec fn count_where(n: int, f: spec_fn(int) -> bool) -> int
    decreases n,
{
    if n <= 0 {
        0
    } else {
        count_where(n - 1, f) + if f(n - 1) { 1int } else { 0int }
    }
}

proof fn lemma_count_where_bounds(n: int, f: spec_fn(int) -> bool)
    requires
        n >= 0,
    ensures
        0 <= count_where(n, f) <= n,
    decreases n,
{
    if n > 0 {
        lemma_count_where_bounds(n - 1, f);
    }
}

/// The archive is expired on its remote at `now`.
pub open spec fn remote_expired(a: RemoteArchiveView, now: i64) -> bool {
    spec_is_expired(a.archive.archive_date, now, a.remote.cache_expiry_days)
}

/// The dates of the archives.
pub open spec fn archive_dates(s: Seq<RemoteArchiveView>) -> Seq<i64> {
    s.map_values(|a: RemoteArchiveView| a.archive.archive_date)
}

/// Archive `j` is expired and lies on the remote named `name`.
pub open spec fn in_expired_group(s: Seq<RemoteArchiveView>, now: i64, name: Seq<char>, j: int) -> bool {
    remote_expired(s[j], now) && s[j].remote.remote_name == name
}

/// How many expired archives lie on the remote named `name`.
pub open spec fn group_size(s: Seq<RemoteArchiveView>, now: i64, name: Seq<char>) -> int {
    count_where(s.len() as int, |j: int| in_expired_group(s, now, name, j))
}

/// How many expired archives of the remote of archive `i` are older than it
/// (by date, ties broken by position).
pub open spec fn age_rank(s: Seq<RemoteArchiveView>, now: i64, i: int) -> int {
    count_where(s.len() as int, |j: int| in_expired_group(s, now, s[i].remote.remote_name, j) && key_before(archive_dates(s), j, i))
}

/// The first of `remotes` named `name`.
pub open spec fn first_remote(remotes: Seq<RemoteConfigView>, name: Seq<char>) -> Option<RemoteConfigView>
    decreases remotes.len(),
{
    if remotes.len() == 0 {
        None
    } else if remotes[0].remote_name == name {
        Some(remotes[0])
    } else {
        first_remote(remotes.drop_first(), name)
    }
}

/// How many of the expired archives of the remote named `name` go: all but
/// the remote's `min_archive_count`, and none when that is more than there
/// are.
pub open spec fn take_count(remotes: Seq<RemoteConfigView>, s: Seq<RemoteArchiveView>, now: i64, name: Seq<char>) -> int {
    match first_remote(remotes, name) {
        Some(r) => if group_size(s, now, name) - r.min_archive_count > 0 {
            group_size(s, now, name) - r.min_archive_count
        } else {
            0
        },
        None => 0,
    }
}

/// Archive `i` goes: it is expired and among the oldest `take_count` of its
/// remote's expired archives.
pub open spec fn to_delete(remotes: Seq<RemoteConfigView>, s: Seq<RemoteArchiveView>, now: i64, i: int) -> bool {
    remote_expired(s[i], now) && age_rank(s, now, i) < take_count(remotes, s, now, s[i].remote.remote_name)
}

/// Archive `i` is expired but its remote is not among `remotes`.
pub open spec fn missing_remote(remotes: Seq<RemoteConfigView>, s: Seq<RemoteArchiveView>, now: i64, i: int) -> bool {
    remote_expired(s[i], now) && first_remote(remotes, s[i].remote.remote_name) is None
}

/// The message of the error for a remote that is not configured.
pub open spec fn unknown_remote_message(name: Seq<char>) -> Seq<char> {
    "No remote found with this name. Name: "@ + name
}

/// The arithmetic of the retention rule stays within `i32`, as its
/// implementation with `i32` counts needs.
pub open spec fn retention_fits(remotes: Seq<RemoteConfigView>, s: Seq<RemoteArchiveView>, now: i64) -> bool {
    &&& s.len() <= i32::MAX
    &&& forall|i: int| 0 <= i < s.len() ==> spec_days_valid(#[trigger] s[i].remote.cache_expiry_days)
    &&& forall|i: int| #![trigger s[i]] 0 <= i < s.len() && remote_expired(s[i], now)
        && first_remote(remotes, s[i].remote.remote_name) is Some
        ==> group_size(s, now, s[i].remote.remote_name)
            - first_remote(remotes, s[i].remote.remote_name)->0.min_archive_count <= i32::MAX
}

fn find_remote<'a>(remotes: &'a Vec<RemoteConfig>, name: &String) -> (res: Option<&'a RemoteConfig>)
    ensures
        match first_remote(remote_views(remotes@), name@) {
            None => res is None,
            Some(r) => res matches Some(x) && x@ == r,
        },
{
    let mut i: usize = 0;
    assert(remote_views(remotes@).skip(0) =~= remote_views(remotes@));
    while i < remotes.len()
        invariant
            i <= remotes.len(),
            first_remote(remote_views(remotes@), name@) == first_remote(remote_views(remotes@).skip(i as int), name@),
        decreases remotes.len() - i,
    {
        let ghost rest = remote_views(remotes@).skip(i as int);
        assert(rest[0] == remotes@[i as int]@);
        assert(rest.drop_first() =~= remote_views(remotes@).skip(i + 1));
        if remotes[i].remote_name == *name {
            return Some(&remotes[i]);
        }
        i += 1;
    }
    assert(remote_views(remotes@).skip(i as int) =~= Seq::<RemoteConfigView>::empty());
    None
}

/// Counts the expired archives of the remote named `name`, and those of
/// them older than archive `i`.
fn count_group(archives: &Vec<RemoteArchiveMetadata>, expired: &Vec<bool>, dates: &Vec<i64>, now: i64, i: usize) -> (res: (u64, u64))
    requires
        i < archives.len(),
        archives.len() <= i32::MAX,
        expired@.len() == archives@.len(),
        dates@ == archive_dates(remote_archive_views(archives@)),
        forall|j: int| 0 <= j < archives@.len() ==> #[trigger] expired@[j] == remote_expired(archives@[j]@, now),
    ensures
        res.0 == group_size(remote_archive_views(archives@), now, archives@[i as int].remote_config.remote_name@),
        res.1 == age_rank(remote_archive_views(archives@), now, i as int),
        res.0 <= archives.len(),
        res.1 <= archives.len(),
{
    let ghost s = remote_archive_views(archives@);
    let ghost name = archives@[i as int].remote_config.remote_name@;
    let ghost f = |j: int| in_expired_group(s, now, name, j);
    let ghost g = |j: int| in_expired_group(s, now, s[i as int].remote.remote_name, j) && key_before(archive_dates(s), j, i as int);
    let mut size: u64 = 0;
    let mut older: u64 = 0;
    let mut j: usize = 0;
    while j < archives.len()
        invariant
            j <= archives.len(),
            i < archives.len(),
            archives.len() <= i32::MAX,
            s == remote_archive_views(archives@),
            name == s[i as int].remote.remote_name,
            expired@.len() == archives@.len(),
            dates@ == archive_dates(s),
            forall|k: int| 0 <= k < archives@.len() ==> #[trigger] expired@[k] == remote_expired(archives@[k]@, now),
            f == (|k: int| in_expired_group(s, now, name, k)),
            g == (|k: int| in_expired_group(s, now, s[i as int].remote.remote_name, k) && key_before(archive_dates(s), k, i as int)),
            size == count_where(j as int, f),
            older == count_where(j as int, g),
        decreases archives.len() - j,
    {
        proof {
            lemma_count_where_bounds(j as int, f);
            lemma_count_where_bounds(j as int, g);
        }
        let same = archives[j].remote_config.remote_name == archives[i].remote_config.remote_name;
        if expired[j] && same {
            size += 1;
            if dates[j] < dates[i] || (dates[j] == dates[i] && j < i) {
                older += 1;
            }
        }
        j += 1;
    }
    proof {
        lemma_count_where_bounds(j as int, f);
        lemma_count_where_bounds(j as int, g);
    }
    (size, older)
}

/// What [`clear_remote_cache`] decides for the remote archives `archives` of
/// type `t` at `now`: an error exactly when an expired archive's remote is
/// not configured; otherwise the indices of exactly the archives to delete
/// (see [`to_delete`]), oldest first.
pub open spec fn clear_remote_plan(config: AppConfig, t: ArchiveType, archives: Seq<RemoteArchiveMetadata>, now: i64, res: Result<Vec<usize>>) -> bool {
    &&& res is Err <==> exists|i: int| 0 <= i < archives.len()
        && missing_remote(remote_views(spec_remote_configs(config, t)), remote_archive_views(archives), now, i)
    &&& res matches Err(e) ==> exists|i: int| 0 <= i < archives.len()
        && missing_remote(remote_views(spec_remote_configs(config, t)), remote_archive_views(archives), now, i)
        && is_error_message(e, unknown_remote_message(archives[i].remote_config.remote_name@))
    &&& res matches Ok(order) ==> forall|k: int| 0 <= k < order@.len() ==> (#[trigger] order@[k] as int) < archives.len()
        && to_delete(remote_views(spec_remote_configs(config, t)), remote_archive_views(archives), now, order@[k] as int)
    &&& res matches Ok(order) ==> forall|i: int| 0 <= i < archives.len()
        && to_delete(remote_views(spec_remote_configs(config, t)), remote_archive_views(archives), now, i)
        ==> order@.contains(i as usize)
    &&& res matches Ok(order) ==> sorted_by_key(archive_dates(remote_archive_views(archives)), order@)
}

/// Which remote archives of one type to delete at `now`, as indices into
/// `archives` in the order of deletion (oldest first). Per remote, the
/// expired archives (older than the remote's `cache_expiry_days`) are ordered
/// by date, and all but the newest `min_archive_count` of them go. An expired
/// archive whose remote is not among the type's remotes is an error.
pub fn clear_remote_cache(config: &AppConfig, archive_type: &ArchiveType, archives: &Vec<RemoteArchiveMetadata>, now: i64) -> (res: Result<Vec<usize>>)
    requires
        retention_fits(remote_views(spec_remote_configs(*config, *archive_type)), remote_archive_views(archives@), now),
    ensures
        clear_remote_plan(*config, *archive_type, archives@, now, res),
{
    let ghost remotes = remote_views(spec_remote_configs(*config, *archive_type));
    let ghost s = remote_archive_views(archives@);
    let remote_configs = get_remote_config(config, archive_type);
    let n = archives.len();

    let mut expired: Vec<bool> = Vec::new();
    let mut dates: Vec<i64> = Vec::new();
    let mut i: usize = 0;
    while i < n
        invariant
            i <= n,
            n == archives.len(),
            s == remote_archive_views(archives@),
            remotes == remote_views(remote_configs@),
            remotes == remote_views(spec_remote_configs(*config, *archive_type)),
            retention_fits(remotes, s, now),
            expired@.len() == i,
            dates@.len() == i,
            forall|j: int| 0 <= j < i ==> #[trigger] expired@[j] == remote_expired(s[j], now),
            forall|j: int| 0 <= j < i ==> #[trigger] dates@[j] == s[j].archive.archive_date,
            forall|j: int| 0 <= j < i ==> !missing_remote(remotes, s, now, j),
        decreases n - i,
    {
        assert(spec_days_valid(s[i as int].remote.cache_expiry_days));
        let e = is_expired(archives[i].archive_metadata.archive_date, now, archives[i].remote_config.cache_expiry_days);
        if e {
            if find_remote(&remote_configs, &archives[i].remote_config.remote_name).is_none() {
                let mut message = "No remote found with this name. Name: ".to_owned();
                message.append(archives[i].remote_config.remote_name.as_str());
                let err = CustomError::from_message(message.as_str());
                assert(missing_remote(remotes, s, now, i as int));
                assert(is_error_message(err, unknown_remote_message(s[i as int].remote.remote_name)));
                let res: Result<Vec<usize>> = Err(err);
                assert(res matches Err(e) && missing_remote(remotes, s, now, i as int)
                    && is_error_message(e, unknown_remote_message(s[i as int].remote.remote_name)));
                return res;
            }
        }
        expired.push(e);
        dates.push(archives[i].archive_metadata.archive_date);
        i += 1;
    }
    assert(dates@ =~= archive_dates(s));

    let mut order: Vec<usize> = Vec::new();
    let mut i: usize = 0;
    while i < n
        invariant
            i <= n,
            n == archives.len(),
            s == remote_archive_views(archives@),
            remotes == remote_views(remote_configs@),
            remotes == remote_views(spec_remote_configs(*config, *archive_type)),
            retention_fits(remotes, s, now),
            expired@.len() == n,
            dates@ == archive_dates(s),
            forall|j: int| 0 <= j < n ==> #[trigger] expired@[j] == remote_expired(s[j], now),
            forall|j: int| 0 <= j < n ==> !missing_remote(remotes, s, now, j),
            sorted_by_key(dates@, order@),
            forall|k: int| 0 <= k < order@.len() ==> (#[trigger] order@[k]) < i && to_delete(remotes, s, now, order@[k] as int),
            forall|j: int| 0 <= j < i && to_delete(remotes, s, now, j) ==> order@.contains(j as usize),
        decreases n - i,
    {
        if expired[i] {
            let (size, older) = count_group(archives, &expired, &dates, now, i);
            let remote = find_remote(&remote_configs, &archives[i].remote_config.remote_name);
            assert(!missing_remote(remotes, s, now, i as int));
            match remote {
                None => {},
                Some(r) => {
                    assert(size as int - r.min_archive_count <= i32::MAX);
                    let diff: i64 = (size as i64) - (r.min_archive_count as i64);
                    let take: i64 = if diff < 0 { 0 } else { diff };
                    assert(r@ == first_remote(remotes, s[i as int].remote.remote_name)->0);
                    assert(take == take_count(remotes, s, now, s[i as int].remote.remote_name));
                    if (older as i64) < take {
                        let ghost old_order = order@;
                        insert_by_date(&mut order, i, &dates);
                        proof {
                            assert(to_delete(remotes, s, now, i as int));
                            assert forall|k: int| 0 <= k < order@.len() implies (#[trigger] order@[k]) < i + 1
                                && to_delete(remotes, s, now, order@[k] as int) by {
                                assert(order@.contains(order@[k]));
                                if order@[k] != i {
                                    let k2 = choose|k2: int| 0 <= k2 < old_order.len() && old_order[k2] == order@[k];
                                    assert(old_order[k2] < i);
                                }
                            }
                            assert forall|j: int| 0 <= j < i + 1 && to_delete(remotes, s, now, j) implies order@.contains(j as usize) by {
                                if j < i {
                                    assert(old_order.contains(j as usize));
                                }
                            }
                        }
                    } else {
                        assert(!to_delete(remotes, s, now, i as int));
                    }
                },
            }
        }
        i += 1;
    }
    Ok(order)
}


proof fn lemma_count_mono(n: int, f: spec_fn(int) -> bool, g: spec_fn(int) -> bool)
    requires
        forall|k: int| 0 <= k < n && #[trigger] f(k) ==> g(k),
    ensures
        count_where(n, f) <= count_where(n, g),
    decreases n,
{
    if n > 0 {
        lemma_count_mono(n - 1, f, g);
    }
}

proof fn lemma_count_strict(n: int, f: spec_fn(int) -> bool, g: spec_fn(int) -> bool, w: int)
    requires
        forall|k: int| 0 <= k < n && #[trigger] f(k) ==> g(k),
        0 <= w < n,
        g(w),
        !f(w),
    ensures
        count_where(n, f) < count_where(n, g),
    decreases n,
{
    if w == n - 1 {
        lemma_count_mono(n - 1, f, g);
    } else {
        lemma_count_strict(n - 1, f, g, w);
    }
}

proof fn lemma_count_split(n: int, f: spec_fn(int) -> bool, p: spec_fn(int) -> bool, q: spec_fn(int) -> bool)
    requires
        forall|k: int| 0 <= k < n ==> (#[trigger] f(k) <==> (p(k) || q(k))),
        forall|k: int| 0 <= k < n ==> !(#[trigger] p(k) && q(k)),
    ensures
        count_where(n, f) == count_where(n, p) + count_where(n, q),
    decreases n,
{
    if n > 0 {
        lemma_count_split(n - 1, f, p, q);
        assert(f(n - 1) <==> (p(n - 1) || q(n - 1)));
    }
}

proof fn lemma_count_single(n: int, w: int)
    requires
        0 <= w < n,
    ensures
        count_where(n, |k: int| k == w) == 1,
    decreases n,
{
    if n - 1 > w {
        lemma_count_single(n - 1, w);
    } else {
        lemma_count_none(n - 1, |k: int| k == w);
    }
}

proof fn lemma_count_none(n: int, f: spec_fn(int) -> bool)
    requires
        forall|k: int| 0 <= k < n ==> !#[trigger] f(k),
    ensures
        count_where(n, f) == 0,
    decreases n,
{
    if n > 0 {
        lemma_count_none(n - 1, f);
    }
}

/// How many expired archives of the remote of archive `i` are newer than it
/// (by date, ties broken by position).
pub open spec fn newer_count(s: Seq<RemoteArchiveView>, now: i64, i: int) -> int {
    count_where(s.len() as int, |j: int| in_expired_group(s, now, s[i].remote.remote_name, j) && key_before(archive_dates(s), i, j))
}

/// The retention rule deletes the oldest first: when an archive goes, every
/// older expired archive of the same remote goes too.
pub proof fn lemma_retention_oldest_first(remotes: Seq<RemoteConfigView>, s: Seq<RemoteArchiveView>, now: i64, i: int, j: int)
    requires
        0 <= i < s.len(),
        0 <= j < s.len(),
        to_delete(remotes, s, now, i),
        remote_expired(s[j], now),
        s[j].remote.remote_name == s[i].remote.remote_name,
        key_before(archive_dates(s), j, i),
    ensures
        to_delete(remotes, s, now, j),
{
    let d = archive_dates(s);
    let name = s[i].remote.remote_name;
    let fj = |k: int| in_expired_group(s, now, s[j].remote.remote_name, k) && key_before(d, k, j);
    let fi = |k: int| in_expired_group(s, now, s[i].remote.remote_name, k) && key_before(d, k, i);
    assert forall|k: int| 0 <= k < s.len() && #[trigger] fj(k) implies fi(k) by {
        assert(key_before(d, k, j));
    }
    assert(fi(j));
    assert(!fj(j));
    lemma_count_strict(s.len() as int, fj, fi, j);
}

/// The retention rule keeps the newest `min_archive_count` expired archives
/// of each remote: an expired archive with fewer newer expired archives on
/// its remote than that count is never deleted.
pub proof fn lemma_retention_keeps_newest(remotes: Seq<RemoteConfigView>, s: Seq<RemoteArchiveView>, now: i64, i: int)
    requires
        0 <= i < s.len(),
        remote_expired(s[i], now),
        first_remote(remotes, s[i].remote.remote_name) matches Some(r)
            && newer_count(s, now, i) < r.min_archive_count,
    ensures
        !to_delete(remotes, s, now, i),
{
    let d = archive_dates(s);
    let name = s[i].remote.remote_name;
    let n = s.len() as int;
    let group = |k: int| in_expired_group(s, now, name, k);
    let before = |k: int| in_expired_group(s, now, name, k) && key_before(d, k, i);
    let rest = |k: int| k == i || (in_expired_group(s, now, name, k) && key_before(d, i, k));
    let after = |k: int| in_expired_group(s, now, name, k) && key_before(d, i, k);
    let me = |k: int| k == i;
    assert forall|k: int| 0 <= k < n implies (#[trigger] group(k) <==> (before(k) || rest(k))) by {
        if group(k) && k != i {
            assert(key_before(d, k, i) || key_before(d, i, k));
        }
    }
    assert forall|k: int| 0 <= k < n implies !(#[trigger] before(k) && rest(k)) by {}
    lemma_count_split(n, group, before, rest);
    assert forall|k: int| 0 <= k < n implies (#[trigger] rest(k) <==> (me(k) || after(k))) by {}
    assert forall|k: int| 0 <= k < n implies !(#[trigger] me(k) && after(k)) by {}
    lemma_count_split(n, rest, me, after);
    lemma_count_single(n, i);
    assert(group_size(s, now, name) == count_where(n, group));
    assert(age_rank(s, now, i) == count_where(n, before));
    assert(newer_count(s, now, i) == count_where(n, after));
    assert(count_where(n, group) == count_where(n, before) + 1 + count_where(n, after));
    let r = first_remote(remotes, name)->0;
    assert(age_rank(s, now, i) >= group_size(s, now, name) - r.min_archive_count);
    lemma_count_where_bounds(n, before);
    assert(age_rank(s, now, i) >= take_count(remotes, s, now, name));
}


/// The files that `rclone lsjson` listed on one remote of one archive type.
pub struct RemoteListing {
    pub archive_type: ArchiveType,
    pub remote_config: RemoteConfig,
    pub files: Vec<RemoteFile>,
}

/// The archives found in the listings, listing after listing; `None` when
/// some file's path has no file name.
pub open spec fn spec_list_remote(ls: Seq<RemoteListing>) -> Option<Seq<RemoteArchiveView>>
    decreases ls.len(),
{
    if ls.len() == 0 {
        Some(Seq::empty())
    } else {
        match spec_list_remote(ls.drop_last()) {
            None => None,
            Some(acc) => match spec_collect_remote(ls.last().archive_type, ls.last().remote_config@, file_names(ls.last().files@)) {
                None => None,
                Some(found) => Some(acc + found),
            },
        }
    }
}

proof fn lemma_list_remote_fails_after(ls: Seq<RemoteListing>, i: int)
    requires
        0 <= i <= ls.len(),
        spec_list_remote(ls.take(i)) is None,
    ensures
        spec_list_remote(ls) is None,
    decreases ls.len() - i,
{
    if i < ls.len() {
        assert(ls.take(i + 1).drop_last() =~= ls.take(i));
        lemma_list_remote_fails_after(ls, i + 1);
    } else {
        assert(ls.take(i) =~= ls);
    }
}

/// The archives of the listed remotes (one listing per remote of each
/// archive type to look at), in order.
pub fn list_remote_archives(listings: &Vec<RemoteListing>) -> (res: Result<Vec<RemoteArchiveMetadata>>)
    ensures
        match spec_list_remote(listings@) {
            None => fails_with_message(res, no_file_name_message()),
            Some(found) => res matches Ok(v) && remote_archive_views(v@) == found,
        },
{
    let mut all: Vec<RemoteArchiveMetadata> = Vec::new();
    let mut i: usize = 0;
    assert(remote_archive_views(all@) =~= Seq::<RemoteArchiveView>::empty());
    while i < listings.len()
        invariant
            i <= listings.len(),
            spec_list_remote(listings@.take(i as int)) == Some(remote_archive_views(all@)),
        decreases listings.len() - i,
    {
        assert(listings@.take(i + 1).drop_last() =~= listings@.take(i as int));
        assert(listings@.take(i + 1).last() == listings@[i as int]);
        match collect_remote_archives(&listings[i].archive_type, &listings[i].remote_config, &listings[i].files) {
            Err(e) => {
                proof {
                    lemma_list_remote_fails_after(listings@, i + 1);
                }
                return Err(e);
            },
            Ok(mut found) => {
                let ghost before = remote_archive_views(all@);
                let ghost more = remote_archive_views(found@);
                all.append(&mut found);
                assert(remote_archive_views(all@) =~= before + more);
            },
        }
        i += 1;
    }
    assert(listings@.take(listings.len() as int) =~= listings@);
    Ok(all)
}

} // verus!

verus! {

/// The commands that delete the remote archives at the indices `order`, in
/// that order.
pub open spec fn delete_commands(order: Seq<usize>, archives: Seq<RemoteArchiveMetadata>) -> Seq<Seq<char>> {
    order.map_values(|i: usize| cmd_delete_remote(archives[i as int]@))
}

/// `script` deletes the remote archives at the indices `order`, in order,
/// stopping at the first deletion that fails.
pub open spec fn delete_script(script: Script<NoHook>, order: Seq<usize>, archives: Seq<RemoteArchiveMetadata>) -> bool {
    &&& !script.keep_going
    &&& step_views(script.body@) == shells::<()>(delete_commands(order, archives))
    &&& script.cleanup@.len() == 0
}

/// Clears the remote cache of type `archive_type` (see
/// [`clear_remote_cache`]) and runs the deletions with `perform`, oldest
/// first, stopping at the first that fails; when the decision fails nothing
/// is deleted and its error is the result.
pub fn run_clear_remote_cache<F: Fn(&Step<NoHook>) -> Result<()>>(config: &AppConfig, archive_type: &ArchiveType, archives: &Vec<RemoteArchiveMetadata>, now: i64, perform: F) -> (res: Result<()>)
    requires
        retention_fits(remote_views(spec_remote_configs(*config, *archive_type)), remote_archive_views(archives@), now),
        forall|st: Step<NoHook>| call_requires(perform, (&st,)),
    ensures
        exists|plan: Result<Vec<usize>>| #[trigger] clear_remote_plan(*config, *archive_type, archives@, now, plan)
            && match plan {
                Err(e) => res == Err::<(), CustomError>(e),
                Ok(order) => exists|script: Script<NoHook>| #[trigger] delete_script(script, order@, archives@)
                    && script_outcome(script, perform, Ok::<(), CustomError>(()), res),
            },
{
    let plan = clear_remote_cache(config, archive_type, archives, now);
    let ghost p = plan;
    let order = match plan {
        Err(e) => {
            assert(clear_remote_plan(*config, *archive_type, archives@, now, p));
            return Err(e);
        },
        Ok(order) => order,
    };
    let mut cmds: Vec<String> = Vec::new();
    let mut k: usize = 0;
    while k < order.len()
        invariant
            k <= order.len(),
            p == Ok::<Vec<usize>, CustomError>(order),
            clear_remote_plan(*config, *archive_type, archives@, now, p),
            string_views(cmds@) == delete_commands(order@.take(k as int), archives@),
        decreases order.len() - k,
    {
        let i = order[k];
        assert((order@[k as int] as int) < archives@.len());
        let c = delete_remote_archive(&archives[i]);
        let ghost before = string_views(cmds@);
        cmds.push(c);
        assert(string_views(cmds@) =~= before.push(c@));
        assert(delete_commands(order@.take(k + 1), archives@) =~= delete_commands(order@.take(k as int), archives@).push(c@));
        k += 1;
    }
    assert(order@.take(order.len() as int) =~= order@);
    let body: Vec<Step<NoHook>> = shell_steps(&cmds);
    let script = Script { body, cleanup: Vec::new(), keep_going: false };
    assert(delete_script(script, order@, archives@));
    assert forall|q: int| 0 <= q < script.body@.len() implies call_requires(perform, (&#[trigger] script.body@[q],)) by {
        let st = script.body@[q];
        assert(call_requires(perform, (&st,)));
    }
    run_script(&script, Ok(()), &perform)
}

} // verus!
