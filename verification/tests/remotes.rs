use xdxd_backup::app_config::{AppConfig, ArchiveConfig, DockerConfig, EmailConfig, RemoteConfig};
use xdxd_backup::archive_helper::ArchiveMetadata;
use xdxd_backup::archive_type::ArchiveType;
use xdxd_backup::archive_helper::NoHook;
use xdxd_backup::errors::{CustomError, CustomErrorKind};
use xdxd_backup::script::Step;
use xdxd_backup::remote_helper::{
    clear_remote_cache, collect_remote_archives, delete_remote_archive, list_remote_archives, list_remote_command,
    run_clear_remote_cache, upload_archive, RemoteArchiveMetadata, RemoteFile, RemoteListing,
};
use xdxd_backup::remote_list_command::{pad_right_exec, remote_list_archive_command};
use xdxd_backup::upload::upload_command;

const DAY: i64 = 86400;
const NOW: i64 = 1577836800 + 100 * DAY;

fn remote(name: &str, days: i64, min: i32) -> RemoteConfig {
    RemoteConfig { remote_name: name.to_string(), remote_path: format!("backups/{}", name), cache_expiry_days: days, min_archive_count: min }
}

fn config(remotes: Vec<RemoteConfig>) -> AppConfig {
    AppConfig {
        hostname: "host-1".to_string(),
        sentry_dsn: String::new(),
        email_config: EmailConfig {
            notification_emails: vec![],
            smtp_username: String::new(),
            smtp_password: String::new(),
            smtp_host: String::new(),
            smtp_port: 25,
        },
        archive_config: ArchiveConfig {
            cache_path: "/c".to_string(),
            temp_path: "/t".to_string(),
            gpg_key_name: "k".to_string(),
            cache_expiry_days: 3,
            rar_compression_level: 6,
        },
        docker_config: Some(vec![(
            "docker-volumes".to_string(),
            DockerConfig { volumes_path: "/v".to_string(), archive_config: None, remote_config: Some(remotes) },
        )]),
        directory_config: None,
        kvm_machine_config: None,
        remote_config: None,
    }
}

fn file(name: &str) -> RemoteFile {
    RemoteFile {
        path: name.to_string(),
        name: name.to_string(),
        size: 1,
        mime_type: "application/octet-stream".to_string(),
        modification_time: String::new(),
        is_directory: false,
        id: String::new(),
    }
}

fn name_for(date: i64) -> String {
    format!("docker-volumes.day.{}.backup", date)
}

fn on_remote(r: &RemoteConfig, date: i64) -> RemoteArchiveMetadata {
    let name = name_for(date);
    RemoteArchiveMetadata {
        archive_metadata: ArchiveMetadata {
            archive_type: ArchiveType::DockerVolumes,
            archive_date: date,
            full_path: format!("{}/{}", r.remote_path, name),
        },
        remote_config: r.copy(),
        remote_file: file(&name),
    }
}

#[test]
fn rclone_commands() {
    let r = remote("b2", 30, 2);
    let a = on_remote(&r, NOW);
    assert_eq!(list_remote_command(&r), "rclone lsjson b2:backups/b2/");
    assert_eq!(upload_archive(&a.archive_metadata, &r), format!("rclone copy -P backups/b2/{} b2:backups/b2/", name_for(NOW)));
    assert_eq!(delete_remote_archive(&a), format!("rclone deletefile b2:backups/b2/{}", name_for(NOW)));
}

#[test]
fn remote_listing_keeps_archives() {
    let r = remote("b2", 30, 2);
    let files = vec![file(&name_for(NOW)), file("notes.txt")];
    let found = collect_remote_archives(&ArchiveType::DockerVolumes, &r, &files).unwrap();
    assert_eq!(found.len(), 1);
    assert_eq!(found[0].archive_metadata.full_path, format!("backups/b2/{}", name_for(NOW)));
    assert_eq!(found[0].remote_file.size, 1);
    assert!(!found[0].remote_file.is_directory);
    assert_eq!(found[0].remote_file.mime_type, "application/octet-stream");
    assert_eq!(found[0].remote_config.remote_name, "b2");
    let listings = vec![RemoteListing { archive_type: ArchiveType::DockerVolumes, remote_config: r.copy(), files }];
    assert_eq!(list_remote_archives(&listings).unwrap().len(), 1);
}

#[test]
fn clear_remote_cache_keeps_the_minimum_and_deletes_oldest_first() {
    let r = remote("b2", 30, 2);
    let archives = vec![
        on_remote(&r, NOW - 40 * DAY),
        on_remote(&r, NOW - 50 * DAY),
        on_remote(&r, NOW - 10 * DAY),
        on_remote(&r, NOW - 35 * DAY),
        on_remote(&r, NOW - 60 * DAY),
    ];
    // Expired: 40, 50, 35, 60 days old; two of them stay (the newest: 35, 40).
    let order = clear_remote_cache(&config(vec![r.copy()]), &ArchiveType::DockerVolumes, &archives, NOW).unwrap();
    assert_eq!(order, vec![4, 1]);
}

#[test]
fn clear_remote_cache_groups_by_remote() {
    let a = remote("a", 30, 0);
    let b = remote("b", 30, 5);
    let archives = vec![on_remote(&a, NOW - 31 * DAY), on_remote(&b, NOW - 90 * DAY), on_remote(&a, NOW - 32 * DAY)];
    let order = clear_remote_cache(&config(vec![a.copy(), b.copy()]), &ArchiveType::DockerVolumes, &archives, NOW).unwrap();
    assert_eq!(order, vec![2, 0]);
}

#[test]
fn clear_remote_cache_unknown_remote_is_an_error() {
    let a = remote("a", 30, 0);
    let archives = vec![on_remote(&a, NOW - 31 * DAY)];
    let err = clear_remote_cache(&config(vec![]), &ArchiveType::DockerVolumes, &archives, NOW).err().unwrap();
    match err.kind {
        CustomErrorKind::ErrorMessage(m) => assert_eq!(m, "No remote found with this name. Name: a"),
        _ => panic!("wrong error"),
    }
}

#[test]
fn upload_sends_what_is_missing_and_fresh() {
    let r = remote("b2", 30, 2);
    let locals = vec![
        ArchiveMetadata { archive_type: ArchiveType::DockerVolumes, archive_date: NOW - DAY, full_path: format!("/c/d/{}", name_for(NOW - DAY)) },
        ArchiveMetadata { archive_type: ArchiveType::DockerVolumes, archive_date: NOW - 2 * DAY, full_path: format!("/c/d/{}", name_for(NOW - 2 * DAY)) },
        ArchiveMetadata { archive_type: ArchiveType::DockerVolumes, archive_date: NOW - 40 * DAY, full_path: format!("/c/d/{}", name_for(NOW - 40 * DAY)) },
    ];
    let remotes = vec![on_remote(&r, NOW - 2 * DAY)];
    let jobs = upload_command(&config(vec![r.copy()]), &locals, &remotes, NOW);
    assert_eq!(jobs.len(), 1);
    assert_eq!(jobs[0].remote_config.remote_name, "b2");
    assert_eq!(jobs[0].archives, vec![0]);
    let fresh = upload_command(&config(vec![r.copy()]), &locals, &vec![], NOW);
    assert_eq!(fresh.len(), 1);
    assert_eq!(fresh[0].archives, vec![0, 1]);
}

#[test]
fn upload_goes_to_every_configured_remote() {
    let a = remote("a", 30, 0);
    let b = remote("b", 1, 0);
    let locals = vec![
        ArchiveMetadata { archive_type: ArchiveType::DockerVolumes, archive_date: NOW - 2 * DAY, full_path: format!("/c/d/{}", name_for(NOW - 2 * DAY)) },
    ];
    let remotes = vec![on_remote(&a, NOW - 2 * DAY)];
    let jobs = upload_command(&config(vec![a.copy(), b.copy()]), &locals, &remotes, NOW);
    assert_eq!(jobs.len(), 2);
    assert_eq!(jobs[0].remote_config.remote_name, "a");
    assert!(jobs[0].archives.is_empty());
    assert_eq!(jobs[1].remote_config.remote_name, "b");
    assert!(jobs[1].archives.is_empty());
    let c = remote("c", 30, 0);
    let jobs = upload_command(&config(vec![a.copy(), c.copy()]), &locals, &remotes, NOW);
    assert_eq!(jobs[1].archives, vec![0]);
}

#[test]
fn upload_with_no_remotes_plans_nothing() {
    let r = remote("b2", 30, 2);
    let remotes = vec![on_remote(&r, NOW)];
    assert!(upload_command(&config(vec![]), &vec![], &remotes, NOW).is_empty());
    let nameless = vec![ArchiveMetadata { archive_type: ArchiveType::DockerVolumes, archive_date: NOW, full_path: "/".to_string() }];
    assert!(upload_command(&config(vec![]), &nameless, &vec![], NOW).is_empty());
    let mut locals = vec![
        ArchiveMetadata { archive_type: ArchiveType::DockerVolumes, archive_date: NOW, full_path: format!("/c/d/{}", name_for(NOW)) },
    ];
    locals.push(ArchiveMetadata { archive_type: ArchiveType::DockerVolumes, archive_date: NOW, full_path: "/".to_string() });
    locals.push(ArchiveMetadata { archive_type: ArchiveType::DockerVolumes, archive_date: NOW, full_path: format!("/c/d/{}", name_for(NOW - 1)) });
    let jobs = upload_command(&config(vec![r.copy()]), &locals, &vec![], NOW);
    assert_eq!(jobs[0].archives, vec![0]);
    match &jobs[0].error {
        Some(e) => match &e.kind {
            CustomErrorKind::ErrorMessage(m) => assert_eq!(m, "The file does not have a `file_stem`."),
            _ => panic!("wrong error"),
        },
        None => panic!("the job should stop at the archive without a name"),
    }
}

#[test]
fn remote_list_dedups_and_pads() {
    let a = remote("a", 30, 0);
    let b = remote("b", 30, 0);
    let archives = vec![on_remote(&a, 1577836800), on_remote(&b, 1577836800), on_remote(&a, 10)];
    let lines = remote_list_archive_command(&archives).unwrap();
    assert_eq!(lines, vec![
        "docker-volumes.day.1577836800.backup | docker-volumes | 2020-01-01 00:00:00".to_string(),
        "docker-volumes.day.10.backup         | docker-volumes | 1970-01-01 00:00:10".to_string(),
    ]);
    assert!(remote_list_archive_command(&vec![]).unwrap().is_empty());
}

#[test]
fn pad_right_fills_to_the_width() {
    assert_eq!(pad_right_exec(&"ab".to_string(), 5), "ab   ");
    assert_eq!(pad_right_exec(&"abcdef".to_string(), 3), "abcdef");
}

#[test]
fn clear_remote_cache_deletes_oldest_first_and_stops_at_a_failure() {
    let r = remote("b2", 30, 0);
    let archives = vec![on_remote(&r, NOW - 40 * DAY), on_remote(&r, NOW - 50 * DAY), on_remote(&r, NOW)];
    let log = std::cell::RefCell::new(Vec::new());
    let res = run_clear_remote_cache(&config(vec![r.copy()]), &ArchiveType::DockerVolumes, &archives, NOW, |step: &Step<NoHook>| {
        if let Step::Shell(c) = step {
            log.borrow_mut().push(c.clone());
        }
        Err(CustomError::from_message("offline"))
    });
    assert!(res.is_err());
    assert_eq!(*log.borrow(), vec![format!("rclone deletefile b2:backups/b2/{}", name_for(NOW - 50 * DAY))]);
    let err = run_clear_remote_cache(&config(vec![]), &ArchiveType::DockerVolumes, &archives, NOW, |_step: &Step<NoHook>| Ok(()));
    assert!(err.is_err());
}
