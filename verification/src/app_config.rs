//! The application's configuration, as read from its JSON file.

use vstd::prelude::*;

verus! {

/// Where and how failure and success reports are mailed.
pub struct EmailConfig {
    pub notification_emails: Vec<String>,
    pub smtp_username: String,
    pub smtp_password: String,
    pub smtp_host: String,
    pub smtp_port: u16,
}

/// A remote (an `rclone` remote and a directory on it) that archives are
/// uploaded to.
pub struct RemoteConfig {
    pub remote_name: String,
    pub remote_path: String,
    /// Archives older than this many days are expired on the remote.
    pub cache_expiry_days: i64,
    /// This many expired archives are always kept on the remote.
    pub min_archive_count: i32,
}

/// Settings of the local archive cache and of archive creation.
pub struct ArchiveConfig {
    pub cache_path: String,
    pub temp_path: String,
    pub gpg_key_name: String,
    /// Archives older than this many days are expired in the local cache.
    pub cache_expiry_days: i64,
    /// The `pigz` compression level.
    pub rar_compression_level: i64,
}

/// Overrides of the application-wide [`ArchiveConfig`], field by field.
pub struct CustomArchiveConfig {
    pub cache_path: Option<String>,
    pub temp_path: Option<String>,
    pub gpg_key_name: Option<String>,
    pub cache_expiry_days: Option<i64>,
    pub rar_compression_level: Option<i64>,
}

/// A configuration of `docker-volumes` archives.
pub struct DockerConfig {
    pub volumes_path: String,
    pub archive_config: Option<CustomArchiveConfig>,
    pub remote_config: Option<Vec<RemoteConfig>>,
}

/// A configuration of directory archives.
pub struct DirectoryConfig {
    pub directory_path: String,
}

/// A configuration of KVM virtual machine archives.
pub struct KvmMachineConfig {
    pub vm_name: String,
    /// The target devices of the disks that are copied into the archive.
    pub device_names: Vec<String>,
}

/// The whole configuration. The named configurations are JSON objects keyed
/// by name; here each is a list of (name, configuration) pairs. Names read
/// from a JSON object occur at most once ([`names_unique`]); a lookup takes
/// the first entry of a name, which is then the entry of that name
/// ([`lemma_lookup_unique`]).
pub struct AppConfig {
    pub hostname: String,
    pub sentry_dsn: String,
    pub email_config: EmailConfig,
    pub archive_config: ArchiveConfig,
    pub docker_config: Option<Vec<(String, DockerConfig)>>,
    pub directory_config: Option<Vec<(String, DirectoryConfig)>>,
    pub kvm_machine_config: Option<Vec<(String, KvmMachineConfig)>>,
    pub remote_config: Option<Vec<RemoteConfig>>,
}

/// The value of an [`ArchiveConfig`].
pub struct ArchiveConfigView {
    pub cache_path: Seq<char>,
    pub temp_path: Seq<char>,
    pub gpg_key_name: Seq<char>,
    pub cache_expiry_days: i64,
    pub rar_compression_level: i64,
}

impl View for ArchiveConfig {
    type V = ArchiveConfigView;

    open spec fn view(&self) -> ArchiveConfigView {
        ArchiveConfigView {
            cache_path: self.cache_path@,
            temp_path: self.temp_path@,
            gpg_key_name: self.gpg_key_name@,
            cache_expiry_days: self.cache_expiry_days,
            rar_compression_level: self.rar_compression_level,
        }
    }
}

/// The value of a [`CustomArchiveConfig`].
pub struct CustomArchiveConfigView {
    pub cache_path: Option<Seq<char>>,
    pub temp_path: Option<Seq<char>>,
    pub gpg_key_name: Option<Seq<char>>,
    pub cache_expiry_days: Option<i64>,
    pub rar_compression_level: Option<i64>,
}

/// The text of an optional string.
pub open spec fn opt_view(s: Option<String>) -> Option<Seq<char>> {
    match s {
        Some(x) => Some(x@),
        None => None,
    }
}

impl View for CustomArchiveConfig {
    type V = CustomArchiveConfigView;

    open spec fn view(&self) -> CustomArchiveConfigView {
        CustomArchiveConfigView {
            cache_path: opt_view(self.cache_path),
            temp_path: opt_view(self.temp_path),
            gpg_key_name: opt_view(self.gpg_key_name),
            cache_expiry_days: self.cache_expiry_days,
            rar_compression_level: self.rar_compression_level,
        }
    }
}

/// The value of a [`RemoteConfig`].
pub struct RemoteConfigView {
    pub remote_name: Seq<char>,
    pub remote_path: Seq<char>,
    pub cache_expiry_days: i64,
    pub min_archive_count: i32,
}

impl View for RemoteConfig {
    type V = RemoteConfigView;

    open spec fn view(&self) -> RemoteConfigView {
        RemoteConfigView {
            remote_name: self.remote_name@,
            remote_path: self.remote_path@,
            cache_expiry_days: self.cache_expiry_days,
            min_archive_count: self.min_archive_count,
        }
    }
}

impl ArchiveConfig {
    /// A copy with the same value.
    pub fn copy(&self) -> (res: ArchiveConfig)
        ensures
            res@ == self@,
    {
        ArchiveConfig {
            cache_path: self.cache_path.clone(),
            temp_path: self.temp_path.clone(),
            gpg_key_name: self.gpg_key_name.clone(),
            cache_expiry_days: self.cache_expiry_days,
            rar_compression_level: self.rar_compression_level,
        }
    }
}

impl RemoteConfig {
    /// A copy with the same value.
    pub fn copy(&self) -> (res: RemoteConfig)
        ensures
            res@ == self@,
    {
        RemoteConfig {
            remote_name: self.remote_name.clone(),
            remote_path: self.remote_path.clone(),
            cache_expiry_days: self.cache_expiry_days,
            min_archive_count: self.min_archive_count,
        }
    }
}

/// The configuration registered under `name` in `entries`: the first entry
/// with that name (the only one, since names are keys).
pub open spec fn spec_lookup<T>(entries: Seq<(String, T)>, name: Seq<char>) -> Option<T>
    decreases entries.len(),
{
    if entries.len() == 0 {
        None
    } else if entries[0].0@ == name {
        Some(entries[0].1)
    } else {
        spec_lookup(entries.drop_first(), name)
    }
}

/// No name occurs twice among `entries`.
pub open spec fn names_unique<T>(entries: Seq<(String, T)>) -> bool {
    forall|i: int, j: int| 0 <= i < j < entries.len() ==> entries[i].0@ != entries[j].0@
}

/// With unique names, looking a name up gives the configuration registered
/// under it, wherever it stands in the list.
pub proof fn lemma_lookup_unique<T>(entries: Seq<(String, T)>, k: int)
    requires
        names_unique(entries),
        0 <= k < entries.len(),
    ensures
        spec_lookup(entries, entries[k].0@) == Some(entries[k].1),
{
    lemma_lookup_skip(entries, entries[k].0@, k);
    let rest = entries.subrange(k, entries.len() as int);
    assert(rest[0] == entries[k]);
}

/// The configuration registered under `name` in an optional table.
pub open spec fn spec_lookup_opt<T>(entries: Option<Vec<(String, T)>>, name: Seq<char>) -> Option<T> {
    match entries {
        None => None,
        Some(v) => spec_lookup(v@, name),
    }
}

proof fn lemma_lookup_skip<T>(entries: Seq<(String, T)>, name: Seq<char>, i: int)
    requires
        0 <= i <= entries.len(),
        forall|k: int| 0 <= k < i ==> entries[k].0@ != name,
    ensures
        spec_lookup(entries, name) == spec_lookup(entries.subrange(i, entries.len() as int), name),
    decreases i,
{
    if i > 0 {
        assert(entries.drop_first().subrange(i - 1, entries.drop_first().len() as int)
            =~= entries.subrange(i, entries.len() as int));
        assert(entries[0].0@ != name);
        lemma_lookup_skip(entries.drop_first(), name, i - 1);
    } else {
        assert(entries.subrange(0, entries.len() as int) =~= entries);
    }
}

/// Finds the configuration registered under `name`.
pub fn lookup<'a, T>(entries: &'a Vec<(String, T)>, name: &str) -> (res: Option<&'a T>)
    ensures
        match spec_lookup(entries@, name@) {
            None => res is None,
            Some(t) => res == Some(&t),
        },
{
    let key = name.to_owned();
    let mut i: usize = 0;
    while i < entries.len()
        invariant
            i <= entries.len(),
            key@ == name@,
            forall|k: int| 0 <= k < i ==> entries@[k].0@ != name@,
        decreases entries.len() - i,
    {
        if entries[i].0 == key {
            proof {
                lemma_lookup_skip(entries@, name@, i as int);
            }
            return Some(&entries[i].1);
        }
        i += 1;
    }
    proof {
        lemma_lookup_skip(entries@, name@, i as int);
    }
    None
}

/// Finds the configuration registered under `name` in an optional table.
pub fn lookup_opt<'a, T>(entries: &'a Option<Vec<(String, T)>>, name: &str) -> (res: Option<&'a T>)
    ensures
        match spec_lookup_opt(*entries, name@) {
            None => res is None,
            Some(t) => res == Some(&t),
        },
{
    match entries {
        None => None,
        Some(v) => lookup(v, name),
    }
}

} // verus!
