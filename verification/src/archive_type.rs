//! The kinds of archive the tool makes.

use vstd::prelude::*;
use vstd::string::StringExecFns;
use crate::app_config::{
    AppConfig, ArchiveConfig, ArchiveConfigView, DockerConfig, RemoteConfig, RemoteConfigView,
    lookup_opt, spec_lookup_opt,
};
use crate::archive_config_extensions::{ArchiveConfigExtensions, spec_merge_opt};
use crate::errors::{CustomError, Result, fails_with_user_error};

verus! {

/// A kind of archive.
#[derive(Debug, Clone, Copy, PartialEq, Eq, Structural, Hash)]
pub enum ArchiveType {
    DockerVolumes,
}

impl View for ArchiveType {
    type V = ArchiveType;

    open spec fn view(&self) -> ArchiveType {
        *self
    }
}

/// The name of an archive type, as written on the command line and in
/// archive file names; it is also the name under which the type's
/// configuration is registered.
pub open spec fn spec_type_name(t: ArchiveType) -> Seq<char> {
    match t {
        ArchiveType::DockerVolumes => "docker-volumes"@,
    }
}

/// Every archive type, in declaration order.
pub open spec fn spec_all_types() -> Seq<ArchiveType> {
    seq![ArchiveType::DockerVolumes]
}

/// The message of the error for an unknown archive type.
pub open spec fn unknown_type_message(prefix: Seq<char>) -> Seq<char> {
    "Archive type not found: "@ + prefix
}

/// The archive type named `prefix`, if any.
pub open spec fn spec_parse_type(prefix: Seq<char>) -> Option<ArchiveType> {
    if prefix == "docker-volumes"@ {
        Some(ArchiveType::DockerVolumes)
    } else {
        None
    }
}

/// Parses an archive type name; an unknown name is a user error.
pub fn parse_archive_type(prefix: &str) -> (res: Result<ArchiveType>)
    ensures
        match spec_parse_type(prefix@) {
            Some(t) => res == Ok::<ArchiveType, CustomError>(t),
            None => fails_with_user_error(res, unknown_type_message(prefix@)),
        },
{
    let given = prefix.to_owned();
    let docker = "docker-volumes".to_owned();
    if given == docker {
        Ok(ArchiveType::DockerVolumes)
    } else {
        let mut message = "Archive type not found: ".to_owned();
        message.append(prefix);
        Err(CustomError::user_error(message.as_str()))
    }
}

impl ArchiveType {
    /// All archive types.
    pub fn all() -> (res: Vec<ArchiveType>)
        ensures
            res@ == spec_all_types(),
    {
        let mut res = Vec::new();
        res.push(ArchiveType::DockerVolumes);
        assert(res@ =~= spec_all_types());
        res
    }

    /// The type's name.
    pub fn to_string(&self) -> (res: String)
        ensures
            res@ == spec_type_name(*self),
    {
        match self {
            ArchiveType::DockerVolumes => "docker-volumes".to_owned(),
        }
    }

    /// The name under which the type's configuration is registered.
    pub fn get_config_name(&self) -> (res: String)
        ensures
            res@ == spec_type_name(*self),
    {
        self.to_string()
    }
}

/// The docker configuration of an archive type, if one is registered.
pub open spec fn spec_docker_config(config: AppConfig, t: ArchiveType) -> Option<DockerConfig> {
    spec_lookup_opt(config.docker_config, spec_type_name(t))
}

/// The effective archive configuration of a type: the type's custom
/// configuration filled with the application-wide one.
pub open spec fn spec_archive_config(config: AppConfig, t: ArchiveType) -> ArchiveConfigView {
    let custom = match spec_docker_config(config, t) {
        Some(d) => d.archive_config,
        None => None,
    };
    spec_merge_opt(custom, config.archive_config@)
}

/// The effective archive configuration of `archive_type`.
pub fn get_archive_config(config: &AppConfig, archive_type: &ArchiveType) -> (res: ArchiveConfig)
    ensures
        res@ == spec_archive_config(*config, *archive_type),
{
    let name = archive_type.get_config_name();
    match lookup_opt(&config.docker_config, name.as_str()) {
        Some(docker) => docker.archive_config.as_config(&config.archive_config),
        None => config.archive_config.copy(),
    }
}

/// The remotes of an archive type: those of its docker configuration when it
/// lists any, else the application-wide ones, else none.
pub open spec fn spec_remote_configs(config: AppConfig, t: ArchiveType) -> Seq<RemoteConfig> {
    match spec_docker_config(config, t) {
        Some(d) if d.remote_config is Some => d.remote_config->0@,
        _ => match config.remote_config {
            Some(v) => v@,
            None => Seq::empty(),
        },
    }
}

/// The views of a list of remotes.
pub open spec fn remote_views(s: Seq<RemoteConfig>) -> Seq<RemoteConfigView> {
    s.map_values(|r: RemoteConfig| r@)
}

fn copy_remotes(v: &Vec<RemoteConfig>) -> (res: Vec<RemoteConfig>)
    ensures
        remote_views(res@) == remote_views(v@),
{
    let mut res: Vec<RemoteConfig> = Vec::new();
    let mut i: usize = 0;
    while i < v.len()
        invariant
            i <= v.len(),
            remote_views(res@) == remote_views(v@.take(i as int)),
        decreases v.len() - i,
    {
        res.push(v[i].copy());
        assert(remote_views(v@.take(i + 1)) =~= remote_views(v@.take(i as int)).push(v@[i as int]@));
        assert(remote_views(res@) =~= remote_views(v@.take(i as int)).push(v@[i as int]@));
        i += 1;
    }
    assert(v@.take(v.len() as int) =~= v@);
    res
}

/// The remotes that archives of `archive_type` are uploaded to.
pub fn get_remote_config(config: &AppConfig, archive_type: &ArchiveType) -> (res: Vec<RemoteConfig>)
    ensures
        remote_views(res@) == remote_views(spec_remote_configs(*config, *archive_type)),
{
    let name = archive_type.get_config_name();
    if let Some(docker) = lookup_opt(&config.docker_config, name.as_str()) {
        if let Some(remotes) = &docker.remote_config {
            return copy_remotes(remotes);
        }
    }
    match &config.remote_config {
        Some(remotes) => copy_remotes(remotes),
        None => Vec::new(),
    }
}

} // verus!

verus! {

/// The text of an optional `&str`.
pub open spec fn opt_str_view(value: Option<&str>) -> Option<Seq<char>> {
    match value {
        Some(v) => Some(v@),
        None => None,
    }
}

/// Parses an optional archive type name (an absent one filters nothing).
pub fn parse_optional_archive_type(value: Option<&str>) -> (res: Result<Option<ArchiveType>>)
    ensures
        match value {
            None => res matches Ok(None),
            Some(v) => match spec_parse_type(v@) {
                Some(t) => res matches Ok(Some(x)) && x == t,
                None => fails_with_user_error(res, unknown_type_message(v@)),
            },
        },
{
    match value {
        None => Ok(None),
        Some(v) => match parse_archive_type(v) {
            Ok(t) => Ok(Some(t)),
            Err(e) => Err(e),
        },
    }
}

/// What archives of a type are made and restored by.
#[derive(Debug, Clone, Copy, PartialEq, Eq, Structural)]
pub enum ArchiveProcedure {
    /// [`crate::docker_volumes::create_docker_volumes_archive`] and
    /// [`crate::docker_volumes::restore_docker_volumes_archive`].
    DockerVolumes,
}

/// The procedure that fills a new archive of the type.
pub fn get_create_archive(archive_type: &ArchiveType) -> (res: ArchiveProcedure)
    ensures
        *archive_type == ArchiveType::DockerVolumes ==> res == ArchiveProcedure::DockerVolumes,
{
    match archive_type {
        ArchiveType::DockerVolumes => ArchiveProcedure::DockerVolumes,
    }
}

/// The procedure that restores an archive of the type.
pub fn get_restore_archive(archive_type: &ArchiveType) -> (res: ArchiveProcedure)
    ensures
        *archive_type == ArchiveType::DockerVolumes ==> res == ArchiveProcedure::DockerVolumes,
{
    match archive_type {
        ArchiveType::DockerVolumes => ArchiveProcedure::DockerVolumes,
    }
}

/// Every archive type's name parses back to the type.
pub proof fn lemma_type_name_roundtrip(t: ArchiveType)
    ensures
        spec_parse_type(spec_type_name(t)) == Some(t),
        spec_all_types().contains(t),
{
    match t {
        ArchiveType::DockerVolumes => {
            assert(spec_all_types()[0] == t);
        },
    }
}

} // verus!
