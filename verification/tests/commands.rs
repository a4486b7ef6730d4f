use xdxd_backup::app_config::{AppConfig, ArchiveConfig, EmailConfig};
use xdxd_backup::archive_helper::ArchiveMetadata;
use xdxd_backup::archive_type::{get_create_archive, get_restore_archive, ArchiveProcedure, ArchiveType};
use xdxd_backup::clear_cache::{clear_cache_command, clear_cache_command_options};
use xdxd_backup::clear_remote_cache::{clear_remote_cache_command, clear_remote_cache_command_options};
use xdxd_backup::cli::CliRunner;
use xdxd_backup::create_archive::{create_archive_command, create_command_options};
use xdxd_backup::email_report::{join_logs, send_error_report, send_report, send_success_report};
use xdxd_backup::errors::CustomErrorKind;
use xdxd_backup::list_archives::{list_archive_command, list_command_options};
use xdxd_backup::remote_list_command::remote_list_command_options;
use xdxd_backup::restore_archive::{restore_archive_command, restore_command_options};
use xdxd_backup::upload::upload_command_options;

fn config() -> AppConfig {
    AppConfig {
        hostname: "host-1".to_string(),
        sentry_dsn: String::new(),
        email_config: EmailConfig {
            notification_emails: vec!["a@example.com".to_string(), "b@example.com".to_string()],
            smtp_username: String::new(),
            smtp_password: String::new(),
            smtp_host: String::new(),
            smtp_port: 25,
        },
        archive_config: ArchiveConfig {
            cache_path: "/c".to_string(),
            temp_path: "/t".to_string(),
            gpg_key_name: "k".to_string(),
            cache_expiry_days: 3,
            rar_compression_level: 6,
        },
        docker_config: None,
        directory_config: None,
        kvm_machine_config: None,
        remote_config: None,
    }
}

fn message(kind: &CustomErrorKind) -> String {
    match kind {
        CustomErrorKind::ErrorMessage(m) => m.clone(),
        CustomErrorKind::UserError(m) => format!("user: {}", m),
        CustomErrorKind::XmlError(_) => "xml".to_string(),
    }
}

#[test]
fn optional_type_arguments() {
    assert!(clear_cache_command_options(None).unwrap().archive_type.is_none());
    assert_eq!(clear_cache_command_options(Some("docker-volumes")).unwrap().archive_type, Some(ArchiveType::DockerVolumes));
    assert_eq!(message(&clear_cache_command_options(Some("x")).err().unwrap().kind), "user: Archive type not found: x");
    assert!(clear_remote_cache_command_options(Some("x")).is_err());
    assert!(list_command_options(Some("x")).is_err());
    assert!(remote_list_command_options(Some("x")).is_err());
    assert!(upload_command_options(Some("x")).is_err());
    assert!(upload_command_options(None).is_ok());
    let all = clear_remote_cache_command(&clear_remote_cache_command_options(None).unwrap());
    assert_eq!(all, vec![ArchiveType::DockerVolumes]);
}

#[test]
fn create_options_are_checked_in_order() {
    let err = create_command_options(None, Some("/x"), true, false).err().unwrap();
    assert_eq!(message(&err.kind), "No value for: archive-type");
    let err = create_command_options(Some("nope"), Some("/x"), true, false).err().unwrap();
    assert_eq!(message(&err.kind), "user: File `/x` already exists");
    let err = create_command_options(Some("nope"), Some("/x"), false, false).err().unwrap();
    assert_eq!(message(&err.kind), "user: Archive type not found: nope");
    let ok = create_command_options(Some("docker-volumes"), None, false, true).unwrap();
    assert!(ok.file_path.is_none());
    assert!(ok.no_encryption);
}

#[test]
fn create_command_picks_the_path() {
    let cached = create_command_options(Some("docker-volumes"), None, false, false).unwrap();
    let plan = create_archive_command(&config(), &cached, 1577836800).unwrap();
    assert_eq!(plan.daily_folder, Some("/c/day_2020_01_01".to_string()));
    assert_eq!(plan.options.file_path, "/c/day_2020_01_01/docker-volumes.2020-01-01.1577836800.backup");
    assert!(plan.options.is_cached_archive);
    let given = create_command_options(Some("docker-volumes"), Some("/out/x.backup"), false, true).unwrap();
    let plan = create_archive_command(&config(), &given, 1577836800).unwrap();
    assert!(plan.daily_folder.is_none());
    assert_eq!(plan.options.file_path, "/out/x.backup");
    assert!(!plan.options.is_cached_archive);
    assert!(plan.options.no_encryption);
    assert_eq!(get_create_archive(&ArchiveType::DockerVolumes), ArchiveProcedure::DockerVolumes);
    assert_eq!(get_restore_archive(&ArchiveType::DockerVolumes), ArchiveProcedure::DockerVolumes);
}

#[test]
fn restore_options_are_checked_in_order() {
    let err = restore_command_options(Some("nope"), Some("/in"), false, false).err().unwrap();
    assert_eq!(message(&err.kind), "user: File `/in` does not exists");
    let err = restore_command_options(None, Some("/in"), true, false).err().unwrap();
    assert_eq!(message(&err.kind), "No value for: archive-type");
    let err = restore_command_options(Some("docker-volumes"), None, false, false).err().unwrap();
    assert_eq!(message(&err.kind), "No value for: file");
    let ok = restore_command_options(Some("docker-volumes"), Some("/in"), true, true).unwrap();
    let r = restore_archive_command(&ok);
    assert_eq!(r.file_path, "/in");
    assert!(r.no_decryption);
}

#[test]
fn list_lines() {
    let archives = vec![ArchiveMetadata {
        archive_type: ArchiveType::DockerVolumes,
        archive_date: 1577836800,
        full_path: "/c/day_2020_01_01/docker-volumes.2020-01-01.1577836800.backup".to_string(),
    }];
    assert_eq!(list_archive_command(&archives).unwrap(), vec![
        "docker-volumes.2020-01-01.1577836800.backup | docker-volumes | 2020-01-01 00:00:00".to_string(),
    ]);
}

#[test]
fn clear_cache_names_the_daily_folders() {
    let now = 1577836800 + 10 * 86400;
    let archives = vec![
        ArchiveMetadata { archive_type: ArchiveType::DockerVolumes, archive_date: now - 5 * 86400, full_path: "/c/day_1/x.backup".to_string() },
        ArchiveMetadata { archive_type: ArchiveType::DockerVolumes, archive_date: now, full_path: "/c/day_2/y.backup".to_string() },
    ];
    let deletions = clear_cache_command(&config(), &archives, now);
    assert_eq!(deletions.len(), 1);
    assert_eq!(deletions[0].archive.full_path, "/c/day_1/x.backup");
    assert_eq!(deletions[0].daily_directory, "/c/day_1");
}

#[test]
fn report_subjects() {
    let r = send_report(&config());
    assert_eq!(r.subject, "[FAILURE] An error occurred while running `docker-backup` on `host-1`.");
    assert_eq!(r.recipients, vec!["a@example.com".to_string(), "b@example.com".to_string()]);
    assert_eq!(send_error_report(&config()).subject, "[FAILURE] xdxd-backup | An error occurred on `host-1`.");
    assert_eq!(
        send_success_report(&config(), "docker-volumes").subject,
        "[SUCCESS] xdxd-backup | An archive of type `docker-volumes` was created on `host-1`."
    );
    assert_eq!(join_logs(&vec!["one".to_string(), "two".to_string()]), "one\ntwo");
    assert_eq!(join_logs(&vec![]), "");
}

#[test]
fn cli_register_and_dispatch() {
    let mut cli: CliRunner<u32> = CliRunner::new();
    assert!(cli.get_command("list").is_none());
    cli.register_command("list", 1).unwrap();
    cli.register_command("create", 2).unwrap();
    assert_eq!(cli.get_command("list"), Some(&1));
    cli.register_command("list", 3).unwrap();
    assert_eq!(cli.get_command("list"), Some(&3));
    assert_eq!(cli.get_command("create"), Some(&2));
    let args = vec!["xdxd-backup".to_string(), "create".to_string(), "-t".to_string()];
    assert_eq!(cli.run(&args), Some(&2));
    assert_eq!(cli.run(&vec!["xdxd-backup".to_string()]), None);
    assert_eq!(cli.run(&vec!["xdxd-backup".to_string(), "nope".to_string()]), None);
}
