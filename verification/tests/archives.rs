use xdxd_backup::app_config::{AppConfig, ArchiveConfig, CustomArchiveConfig, DockerConfig, EmailConfig, RemoteConfig};
use xdxd_backup::archive_config_extensions::ArchiveConfigExtensions;
use xdxd_backup::archive_helper::{
    archive_file_name, archive_types_to_scan, clear_local_cache, collect_local_archives, create_archive,
    create_archive_plan, finish_create_archive, get_new_archive_path, list_local_archives, parse_archive_file_name,
    read_metadata, restore_archive, restore_archive_plan, unpack_archive_plan, ArchiveMetadata, CreateArchiveOptions,
    LocalListing, RestoreArchiveOptions, UnpackArchiveOptions, check_retentions,
};
use xdxd_backup::archive_type::{get_archive_config, get_remote_config, parse_archive_type, ArchiveType};
use xdxd_backup::errors::CustomErrorKind;

fn archive_config() -> ArchiveConfig {
    ArchiveConfig {
        cache_path: "/var/cache/backups".to_string(),
        temp_path: "/tmp/work".to_string(),
        gpg_key_name: "backup-key".to_string(),
        cache_expiry_days: 3,
        rar_compression_level: 6,
    }
}

fn config_with(docker: Option<Vec<(String, DockerConfig)>>) -> AppConfig {
    AppConfig {
        hostname: "host-1".to_string(),
        sentry_dsn: String::new(),
        email_config: EmailConfig {
            notification_emails: vec!["ops@example.com".to_string()],
            smtp_username: "user".to_string(),
            smtp_password: "SECRET-REDACTED".to_string(),
            smtp_host: "smtp.example.com".to_string(),
            smtp_port: 587,
        },
        archive_config: archive_config(),
        docker_config: docker,
        directory_config: None,
        kvm_machine_config: None,
        remote_config: None,
    }
}

fn plain_config() -> AppConfig {
    config_with(None)
}

fn message_of(kind: &CustomErrorKind) -> String {
    match kind {
        CustomErrorKind::ErrorMessage(m) => format!("message: {}", m),
        CustomErrorKind::UserError(m) => format!("user: {}", m),
        CustomErrorKind::XmlError(_) => "xml".to_string(),
    }
}

const JAN_1_2020: i64 = 1577836800;

#[test]
fn parse_archive_type_known_and_unknown() {
    assert_eq!(parse_archive_type("docker-volumes").unwrap(), ArchiveType::DockerVolumes);
    let err = parse_archive_type("tape").unwrap_err();
    assert_eq!(message_of(&err.kind), "user: Archive type not found: tape");
    assert_eq!(ArchiveType::all(), vec![ArchiveType::DockerVolumes]);
    assert_eq!(ArchiveType::DockerVolumes.to_string(), "docker-volumes");
}

#[test]
fn archive_file_name_is_read_back() {
    let name = archive_file_name(&ArchiveType::DockerVolumes, "2020-01-01", JAN_1_2020);
    assert_eq!(name, "docker-volumes.2020-01-01.1577836800.backup");
    assert_eq!(parse_archive_file_name(&name), Some((ArchiveType::DockerVolumes, JAN_1_2020)));
    let negative = archive_file_name(&ArchiveType::DockerVolumes, "1969-12-31", -5);
    assert_eq!(parse_archive_file_name(&negative), Some((ArchiveType::DockerVolumes, -5)));
}

#[test]
fn other_file_names_are_not_archives() {
    assert_eq!(parse_archive_file_name("docker-volumes.2020-01-01.1577836800.tar"), None);
    assert_eq!(parse_archive_file_name("docker-volumes.2020-01-01.12x.backup"), None);
    assert_eq!(parse_archive_file_name("tape.2020-01-01.1577836800.backup"), None);
    assert_eq!(parse_archive_file_name("docker-volumes.main.2020-01-01.1577836800.backup"), None);
    assert_eq!(parse_archive_file_name("notes.txt"), None);
    // Out of the range of chrono's dates.
    assert_eq!(parse_archive_file_name("docker-volumes.x.9223372036854775807.backup"), None);
    // Out of the range of i64.
    assert_eq!(parse_archive_file_name("docker-volumes.x.9223372036854775808.backup"), None);
}

#[test]
fn read_metadata_of_paths() {
    let m = read_metadata("/var/cache/backups/day_2020_01_01/docker-volumes.2020-01-01.1577836800.backup")
        .unwrap()
        .unwrap();
    assert_eq!(m.archive_type, ArchiveType::DockerVolumes);
    assert_eq!(m.archive_date, JAN_1_2020);
    assert_eq!(m.full_path, "/var/cache/backups/day_2020_01_01/docker-volumes.2020-01-01.1577836800.backup");
    assert!(read_metadata("/var/cache/backups/day_2020_01_01/readme.md").unwrap().is_none());
    let err = read_metadata("/").err().unwrap();
    assert_eq!(message_of(&err.kind), "message: The file does not have a `file_stem`.");
}

#[test]
fn new_archive_path_is_in_the_daily_folder() {
    let p = get_new_archive_path(&plain_config(), &ArchiveType::DockerVolumes, JAN_1_2020).unwrap();
    assert_eq!(p.daily_folder, "/var/cache/backups/day_2020_01_01");
    assert_eq!(p.file_path, "/var/cache/backups/day_2020_01_01/docker-volumes.2020-01-01.1577836800.backup");
    let m = read_metadata(&p.file_path).unwrap().unwrap();
    assert_eq!(m.archive_date, JAN_1_2020);
    assert!(get_new_archive_path(&plain_config(), &ArchiveType::DockerVolumes, i64::MAX).is_err());
}

#[test]
fn custom_archive_config_overrides_defaults() {
    let custom = CustomArchiveConfig {
        cache_path: Some("/srv/cache".to_string()),
        temp_path: None,
        gpg_key_name: None,
        cache_expiry_days: Some(10),
        rar_compression_level: None,
    };
    let merged = custom.as_config(&archive_config());
    assert_eq!(merged.cache_path, "/srv/cache");
    assert_eq!(merged.temp_path, "/tmp/work");
    assert_eq!(merged.gpg_key_name, "backup-key");
    assert_eq!(merged.cache_expiry_days, 10);
    assert_eq!(merged.rar_compression_level, 6);
    let none: Option<CustomArchiveConfig> = None;
    assert_eq!(none.as_config(&archive_config()).cache_path, "/var/cache/backups");

    let docker = DockerConfig { volumes_path: "/var/lib/docker/volumes".to_string(), archive_config: Some(custom), remote_config: None };
    let config = config_with(Some(vec![("docker-volumes".to_string(), docker)]));
    let effective = get_archive_config(&config, &ArchiveType::DockerVolumes);
    assert_eq!(effective.cache_path, "/srv/cache");
    assert_eq!(effective.cache_expiry_days, 10);
}

#[test]
fn remote_configs_of_a_type() {
    let remote = RemoteConfig { remote_name: "b2".to_string(), remote_path: "backups".to_string(), cache_expiry_days: 30, min_archive_count: 2 };
    let docker = DockerConfig { volumes_path: "/v".to_string(), archive_config: None, remote_config: Some(vec![remote]) };
    let mut config = config_with(Some(vec![("docker-volumes".to_string(), docker)]));
    let remotes = get_remote_config(&config, &ArchiveType::DockerVolumes);
    assert_eq!(remotes.len(), 1);
    assert_eq!(remotes[0].remote_name, "b2");
    config.docker_config = None;
    assert!(get_remote_config(&config, &ArchiveType::DockerVolumes).is_empty());
}

#[test]
fn create_archive_plan_with_encryption() {
    let options = CreateArchiveOptions {
        file_path: "/out/a.backup".to_string(),
        no_encryption: false,
        archive_type: ArchiveType::DockerVolumes,
        is_cached_archive: false,
    };
    let plan = create_archive_plan(&plain_config(), &options, "w1");
    assert_eq!(plan.work_path, "/tmp/work/w1");
    assert_eq!(plan.config_name, "docker-volumes");
    assert_eq!(plan.uncompressed, "/tmp/work/w1/uncompressed-archive");
    assert_eq!(plan.prepare, vec![
        "mkdir -p /tmp/work/w1 && chmod 777 /tmp/work/w1".to_string(),
        "mkdir -p /tmp/work/w1/uncompressed-archive && chmod 777 /tmp/work/w1/uncompressed-archive".to_string(),
    ]);
    assert_eq!(plan.finish, vec![
        "cd /tmp/work/w1/uncompressed-archive && tar cf - . | pigz -6 > /tmp/work/w1/compressed-archive.tar.gz".to_string(),
        "rm /tmp/work/w1/uncompressed-archive -rf".to_string(),
        "gpg -e --batch -r backup-key --output /tmp/work/w1/final.enc /tmp/work/w1/compressed-archive.tar.gz".to_string(),
        "rm /tmp/work/w1/compressed-archive.tar.gz -f".to_string(),
        "mv /tmp/work/w1/final.enc /out/a.backup".to_string(),
    ]);
    assert_eq!(plan.cleanup, vec!["rm /tmp/work/w1 -rf".to_string()]);
}

#[test]
fn create_archive_plan_without_encryption() {
    let options = CreateArchiveOptions {
        file_path: "/out/a.backup".to_string(),
        no_encryption: true,
        archive_type: ArchiveType::DockerVolumes,
        is_cached_archive: false,
    };
    let plan = create_archive_plan(&plain_config(), &options, "w2");
    assert_eq!(plan.finish[2], "mv /tmp/work/w2/compressed-archive.tar.gz /tmp/work/w2/final.enc");
    assert_eq!(plan.finish.len(), 4);
}

#[test]
fn create_archive_uses_a_fresh_uuid() {
    let options = CreateArchiveOptions {
        file_path: "/out/a.backup".to_string(),
        no_encryption: true,
        archive_type: ArchiveType::DockerVolumes,
        is_cached_archive: false,
    };
    let a = create_archive(&plain_config(), &options);
    let b = create_archive(&plain_config(), &options);
    assert!(a.work_path.starts_with("/tmp/work/"));
    assert_eq!(a.work_path.len(), "/tmp/work/".len() + 36);
    assert_ne!(a.work_path, b.work_path);
}

#[test]
fn finishing_a_cached_archive_reads_its_metadata() {
    let cached = CreateArchiveOptions {
        file_path: "/c/day_2020_01_01/docker-volumes.2020-01-01.1577836800.backup".to_string(),
        no_encryption: false,
        archive_type: ArchiveType::DockerVolumes,
        is_cached_archive: true,
    };
    assert_eq!(finish_create_archive(&cached).unwrap().unwrap().archive_date, JAN_1_2020);
    let odd = CreateArchiveOptions { file_path: "/c/other.file".to_string(), ..cached };
    let err = finish_create_archive(&odd).err().unwrap();
    assert_eq!(message_of(&err.kind), "message: The archiver somehow did not produce a correct archive.");
    let elsewhere = CreateArchiveOptions { is_cached_archive: false, ..odd };
    assert!(finish_create_archive(&elsewhere).unwrap().is_none());
}

#[test]
fn restore_and_unpack_plans() {
    let restore = RestoreArchiveOptions { file_path: "/in/a.backup".to_string(), no_decryption: false, archive_type: ArchiveType::DockerVolumes };
    let plan = restore_archive_plan(&plain_config(), &restore, "r1");
    assert_eq!(plan.compressed, "/tmp/work/r1/compressed-archive.tar.gz");
    assert_eq!(plan.prepare[1], "gpg --output /tmp/work/r1/compressed-archive.tar.gz -d /in/a.backup");
    let random = restore_archive(&plain_config(), &restore);
    assert_eq!(random.work_path.len(), "/tmp/work/".len() + 36);

    let unpack = UnpackArchiveOptions { file_path: "/in/a.backup".to_string(), out_path: "/out".to_string(), no_decryption: true, archive_type: ArchiveType::DockerVolumes };
    let plan = unpack_archive_plan(&plain_config(), &unpack, "u1");
    assert_eq!(plan.commands, vec![
        "mkdir -p /tmp/work/u1 && chmod 777 /tmp/work/u1".to_string(),
        "cp /in/a.backup /tmp/work/u1/compressed-archive.tar.gz".to_string(),
        "mkdir -p /out && cd /out && tar -xf /tmp/work/u1/compressed-archive.tar.gz".to_string(),
    ]);
    assert_eq!(plan.cleanup, vec!["rm /tmp/work/u1 -rf".to_string()]);
}

fn archive(path: &str, date: i64) -> ArchiveMetadata {
    ArchiveMetadata { archive_type: ArchiveType::DockerVolumes, archive_date: date, full_path: path.to_string() }
}

#[test]
fn local_listing_keeps_archives_of_the_type() {
    let paths = vec![
        "/c/day_2020_01_01/docker-volumes.2020-01-01.1577836800.backup".to_string(),
        "/c/day_2020_01_01/lost+found".to_string(),
    ];
    let found = collect_local_archives(&ArchiveType::DockerVolumes, &paths).unwrap();
    assert_eq!(found.len(), 1);
    assert_eq!(found[0].archive_date, JAN_1_2020);
    let listings = vec![LocalListing { archive_type: ArchiveType::DockerVolumes, paths: paths.clone() }];
    assert_eq!(list_local_archives(&listings).unwrap().len(), 1);
    assert!(collect_local_archives(&ArchiveType::DockerVolumes, &vec!["/".to_string()]).is_err());
    assert_eq!(archive_types_to_scan(None), vec![ArchiveType::DockerVolumes]);
}

#[test]
fn clear_local_cache_deletes_exactly_the_expired() {
    let now = JAN_1_2020 + 10 * 86400;
    let archives = vec![
        archive("/c/d1/a", now - 4 * 86400),
        archive("/c/d1/b", now - 3 * 86400),
        archive("/c/d1/c", now - 3 * 86400 - 1),
        archive("/c/d1/d", now),
    ];
    assert!(check_retentions(&plain_config()));
    let deleted = clear_local_cache(&plain_config(), &archives, now);
    let paths: Vec<&str> = deleted.iter().map(|m| m.full_path.as_str()).collect();
    assert_eq!(paths, vec!["/c/d1/a", "/c/d1/c"]);
}

#[test]
fn invalid_retention_is_detected() {
    let mut config = plain_config();
    config.archive_config.cache_expiry_days = i64::MAX;
    assert!(!check_retentions(&config));
}
