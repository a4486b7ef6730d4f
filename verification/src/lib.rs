//! Verified core of a backup tool: archive naming and metadata, retention
//! decisions for local and remote caches, upload selection and the shell
//! command plans that create, restore and unpack archives.

pub mod text;
pub mod errors;
pub mod do_try;
pub mod script;
pub mod extensions;
pub mod app_config;
pub mod archive_config_extensions;
pub mod archive_type;
pub mod dates;
pub mod archive_helper;
pub mod bash_shell;
pub mod remote_helper;
pub mod upload;
pub mod docker_volumes;
pub mod directory_archive;
pub mod kvm_machine;
pub mod clear_cache;
pub mod clear_remote_cache;
pub mod create_archive;
pub mod restore_archive;
pub mod list_archives;
pub mod remote_list_command;
pub mod email_report;
pub mod cli;
