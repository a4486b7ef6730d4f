use std::cell::RefCell;

use xdxd_backup::bash_shell::CommandResult;
use xdxd_backup::docker_volumes::run_copy_files;
use xdxd_backup::app_config::{AppConfig, ArchiveConfig, DockerConfig, EmailConfig, KvmMachineConfig, RemoteConfig};
use xdxd_backup::upload::run_upload_command;
use xdxd_backup::archive_helper::{
    ArchiveMetadata,
    run_create_archive, run_unpack_archive, CreateArchiveOptions, CreateHook, NoHook, RestoreHook, UnpackArchiveOptions,
};
use xdxd_backup::archive_type::ArchiveType;
use xdxd_backup::clear_cache::run_clear_cache_command;
use xdxd_backup::clear_remote_cache::{run_clear_remote_cache_command, ClearRemoteCacheCommandOptions};
use xdxd_backup::create_archive::{run_create_command, CreateCommandStep};
use xdxd_backup::docker_volumes::{create_docker_volumes_archive, run_docker_volumes_copy, DockerHook};
use xdxd_backup::errors::{CustomError, CustomErrorKind};
use xdxd_backup::kvm_machine::{create_kvm_machine_archive, run_kvm_machine_archive, KvmHook};
use xdxd_backup::restore_archive::{run_restore_command, RestoreCommandOptions};
use xdxd_backup::script::{run_script, Script, Step};

fn config() -> AppConfig {
    AppConfig {
        hostname: "host-1".to_string(),
        sentry_dsn: String::new(),
        email_config: EmailConfig {
            notification_emails: vec![],
            smtp_username: String::new(),
            smtp_password: String::new(),
            smtp_host: String::new(),
            smtp_port: 25,
        },
        archive_config: ArchiveConfig {
            cache_path: "/c".to_string(),
            temp_path: "/t".to_string(),
            gpg_key_name: "k".to_string(),
            cache_expiry_days: 3,
            rar_compression_level: 6,
        },
        docker_config: Some(vec![(
            "docker-volumes".to_string(),
            DockerConfig { volumes_path: "/v".to_string(), archive_config: None, remote_config: None },
        )]),
        directory_config: None,
        kvm_machine_config: Some(vec![(
            "vm1".to_string(),
            KvmMachineConfig { vm_name: "web".to_string(), device_names: vec!["vda".to_string()] },
        )]),
        remote_config: None,
    }
}

fn message(e: &CustomError) -> String {
    match &e.kind {
        CustomErrorKind::ErrorMessage(m) => m.clone(),
        CustomErrorKind::UserError(m) => format!("user: {}", m),
        CustomErrorKind::XmlError(_) => "xml".to_string(),
    }
}

fn shells(cmds: &[&str]) -> Vec<Step<NoHook>> {
    cmds.iter().map(|c| Step::Shell(c.to_string())).collect()
}

/// Performs shell steps by logging them; `fail` names the commands that fail.
fn logging<'a, H>(log: &'a RefCell<Vec<String>>, fail: &'a [&'a str]) -> impl Fn(&Step<H>) -> Result<(), CustomError> + 'a {
    move |step: &Step<H>| match step {
        Step::Shell(c) => {
            log.borrow_mut().push(c.clone());
            if fail.contains(&c.as_str()) {
                Err(CustomError::from_message(c))
            } else {
                Ok(())
            }
        }
        Step::Hook(_) => {
            log.borrow_mut().push("hook".to_string());
            Ok(())
        }
    }
}

#[test]
fn script_stops_at_the_first_failure_and_always_cleans_up() {
    let script = Script { body: shells(&["a", "b", "c"]), cleanup: shells(&["x", "y"]), keep_going: false };
    let log = RefCell::new(Vec::new());
    let res = run_script(&script, Ok(7), &logging(&log, &["b", "x"]));
    assert_eq!(message(&res.unwrap_err()), "b");
    assert_eq!(*log.borrow(), vec!["a", "b", "x"]);

    let log = RefCell::new(Vec::new());
    let res = run_script(&script, Ok(7), &logging(&log, &[]));
    assert_eq!(res.unwrap(), 7);
    assert_eq!(*log.borrow(), vec!["a", "b", "c", "x", "y"]);

    let log = RefCell::new(Vec::new());
    let res = run_script(&script, Ok(7), &logging(&log, &["y"]));
    assert_eq!(message(&res.unwrap_err()), "y");

    let res = run_script(&script, Err::<i32, CustomError>(CustomError::from_message("value")), &logging(&RefCell::new(Vec::new()), &["y"]));
    assert_eq!(message(&res.unwrap_err()), "value");
}

#[test]
fn script_that_keeps_going_reports_the_first_failure() {
    let script = Script { body: shells(&["a", "b", "c"]), cleanup: vec![], keep_going: true };
    let log = RefCell::new(Vec::new());
    let res = run_script(&script, Ok(()), &logging(&log, &["a", "b"]));
    assert_eq!(message(&res.unwrap_err()), "a");
    assert_eq!(*log.borrow(), vec!["a", "b", "c"]);
}

#[test]
fn create_runs_the_archiver_between_setup_and_compression() {
    let options = CreateArchiveOptions {
        file_path: "/out/a.backup".to_string(),
        no_encryption: true,
        archive_type: ArchiveType::DockerVolumes,
        is_cached_archive: false,
    };
    let log = RefCell::new(Vec::new());
    let filled = RefCell::new(Vec::new());
    let res = run_create_archive(&config(), &options, |step: &Step<CreateHook>| match step {
        Step::Shell(c) => {
            log.borrow_mut().push(c.clone());
            Ok(())
        }
        Step::Hook(CreateHook::Fill { config_name, work_path }) => {
            log.borrow_mut().push("fill".to_string());
            filled.borrow_mut().push((config_name.clone(), work_path.clone()));
            Ok(())
        }
    });
    assert!(res.unwrap().is_none());
    let log = log.borrow();
    assert_eq!(log.len(), 8);
    assert!(log[0].starts_with("mkdir -p /t/"));
    assert!(log[1].contains("uncompressed-archive"));
    assert_eq!(log[2], "fill");
    assert!(log[3].contains("pigz -6"));
    assert!(log[6].ends_with(" /out/a.backup"));
    assert!(log[7].starts_with("rm /t/"));
    assert_eq!(filled.borrow()[0].0, "docker-volumes");
    assert!(filled.borrow()[0].1.ends_with("/uncompressed-archive"));

    let log = RefCell::new(Vec::new());
    let res = run_create_archive(&config(), &options, |step: &Step<CreateHook>| match step {
        Step::Shell(c) => {
            log.borrow_mut().push(c.clone());
            Ok(())
        }
        Step::Hook(_) => Err(CustomError::from_message("fill failed")),
    });
    assert_eq!(message(&res.err().unwrap()), "fill failed");
    assert_eq!(log.borrow().len(), 3);
    assert!(log.borrow()[2].starts_with("rm /t/"));
}

#[test]
fn restore_command_restores_once_and_cleans_up() {
    let options = RestoreCommandOptions { archive_type: ArchiveType::DockerVolumes, file_path: "/in/a.backup".to_string(), no_decryption: true };
    let log = RefCell::new(Vec::new());
    let res = run_restore_command(&config(), &options, |step: &Step<RestoreHook>| match step {
        Step::Shell(c) => {
            log.borrow_mut().push(c.clone());
            Ok(())
        }
        Step::Hook(RestoreHook::Restore { config_name, compressed, .. }) => {
            log.borrow_mut().push(format!("restore {} {}", config_name, compressed));
            Err(CustomError::from_message("restore failed"))
        }
    });
    assert_eq!(message(&res.unwrap_err()), "restore failed");
    let log = log.borrow();
    assert_eq!(log.len(), 4);
    assert!(log[1].starts_with("cp /in/a.backup /t/"));
    assert!(log[2].starts_with("restore docker-volumes /t/"));
    assert!(log[2].ends_with("/compressed-archive.tar.gz"));
    assert!(log[3].starts_with("rm /t/"));
}

#[test]
fn unpack_runs_its_commands_then_cleans_up() {
    let options = UnpackArchiveOptions {
        file_path: "/in/a.backup".to_string(),
        out_path: "/o".to_string(),
        no_decryption: false,
        archive_type: ArchiveType::DockerVolumes,
    };
    let log = RefCell::new(Vec::new());
    let res = run_unpack_archive(&config(), &options, logging(&log, &[]));
    assert!(res.is_ok());
    let log = log.borrow();
    assert_eq!(log.len(), 4);
    assert!(log[1].starts_with("gpg --output /t/"));
    assert!(log[2].starts_with("mkdir -p /o && cd /o && tar -xf /t/"));
    assert!(log[3].starts_with("rm /t/"));
}

#[test]
fn docker_copy_pauses_between_copies_and_always_unpauses() {
    let plan = create_docker_volumes_archive(&config(), "docker-volumes", "/t/w/u").unwrap();
    let log = RefCell::new(Vec::new());
    let perform = |fail: &'static str| {
        let log = &log;
        move |step: &Step<DockerHook>| match step {
            Step::Shell(c) => {
                log.borrow_mut().push(c.clone());
                if c.starts_with(fail) { Err(CustomError::from_message(c)) } else { Ok(()) }
            }
            Step::Hook(DockerHook::Copy { command }) => {
                log.borrow_mut().push(command.clone());
                Ok(())
            }
        }
    };
    assert!(run_docker_volumes_copy(&plan, "a1\nb2\n", perform("none")).is_ok());
    assert_eq!(*log.borrow(), vec![
        plan.copy.clone(),
        "docker pause a1 b2 ".to_string(),
        plan.copy.clone(),
        "docker unpause a1 b2 ".to_string(),
    ]);
    log.borrow_mut().clear();
    let res = run_docker_volumes_copy(&plan, "a1\n", perform("docker pause"));
    assert_eq!(message(&res.unwrap_err()), "docker pause a1 ");
    assert_eq!(*log.borrow(), vec![plan.copy.clone(), "docker pause a1 ".to_string(), "docker unpause a1 ".to_string()]);
}

const VM_XML: &str = r#"<domain type='kvm'>
  <devices>
    <disk type='file' device='disk'>
      <driver name='qemu' type='qcow2'/>
      <source file='/img/web.qcow2'/>
      <target dev='vda' bus='virtio'/>
    </disk>
  </devices>
</domain>"#;

#[test]
fn kvm_cleanup_runs_after_a_failed_body_and_stops_at_its_first_failure() {
    let plan = create_kvm_machine_archive(&config(), "vm1", "/t/w/u", VM_XML).unwrap();
    let log = RefCell::new(Vec::new());
    let res = run_kvm_machine_archive(plan, VM_XML, |step: &Step<KvmHook>| match step {
        Step::Shell(c) => {
            log.borrow_mut().push(c.clone());
            if c.starts_with("qemu-img convert") || c.starts_with("virsh blockcommit") {
                Err(CustomError::from_message(c))
            } else {
                Ok(())
            }
        }
        Step::Hook(KvmHook::WriteDefinition { path, .. }) => {
            log.borrow_mut().push(format!("write {}", path));
            Ok(())
        }
    });
    assert_eq!(message(&res.unwrap_err()), "qemu-img convert -O qcow2 /img/web.qcow2 /t/w/web.qcow2");
    assert_eq!(*log.borrow(), vec![
        "virsh snapshot-create-as --domain web backup-snapshot --disk-only --atomic".to_string(),
        "write /t/w/u/machine.xml".to_string(),
        "qemu-img convert -O qcow2 /img/web.qcow2 /t/w/web.qcow2".to_string(),
        "virsh blockcommit web vda --active --pivot".to_string(),
    ]);
}

#[test]
fn create_command_stops_at_the_first_failing_step() {
    let log = RefCell::new(Vec::new());
    let res = run_create_command(|step: &Step<CreateCommandStep>| {
        if let Step::Hook(h) = step {
            log.borrow_mut().push(*h);
            if *h == CreateCommandStep::ClearCache {
                return Err(CustomError::from_message("clear failed"));
            }
        }
        Ok(())
    });
    assert_eq!(message(&res.unwrap_err()), "clear failed");
    assert!(*log.borrow() == vec![CreateCommandStep::CreateArchive, CreateCommandStep::ClearCache]);
}

#[test]
fn clear_remote_cache_command_clears_every_type() {
    let log = RefCell::new(Vec::new());
    let options = ClearRemoteCacheCommandOptions { archive_type: None };
    let res = run_clear_remote_cache_command(&options, |step: &Step<ArchiveType>| {
        if let Step::Hook(t) = step {
            log.borrow_mut().push(*t);
        }
        Err(CustomError::from_message("remote down"))
    });
    assert_eq!(message(&res.unwrap_err()), "remote down");
    assert_eq!(*log.borrow(), vec![ArchiveType::DockerVolumes]);
}

#[test]
fn clear_cache_command_clears_once_or_not_at_all() {
    let log = RefCell::new(Vec::new());
    let perform = |step: &Step<Option<ArchiveType>>| {
        if let Step::Hook(t) = step {
            log.borrow_mut().push(*t);
        }
        Ok(())
    };
    let err = run_clear_cache_command(Some("tape"), perform).unwrap_err();
    assert_eq!(message(&err), "user: Archive type not found: tape");
    assert!(log.borrow().is_empty());
    assert!(run_clear_cache_command(Some("docker-volumes"), perform).is_ok());
    assert!(run_clear_cache_command(None, perform).is_ok());
    assert_eq!(*log.borrow(), vec![Some(ArchiveType::DockerVolumes), None]);
}

#[test]
fn copy_is_retried_while_files_vanish() {
    let runs = RefCell::new(0u32);
    let result = |success: bool, stderr: &str| CommandResult {
        status_code: Some(if success { 0 } else { 24 }),
        stdout: String::new(),
        stderr: stderr.to_string(),
        command: "rsync".to_string(),
        success,
    };
    let res = run_copy_files("rsync", |_c: &str| {
        *runs.borrow_mut() += 1;
        Ok(result(*runs.borrow() == 3, "file has vanished"))
    });
    assert!(res.is_ok());
    assert_eq!(*runs.borrow(), 3);

    *runs.borrow_mut() = 0;
    let res = run_copy_files("rsync", |_c: &str| {
        *runs.borrow_mut() += 1;
        Ok(result(false, "file has vanished"))
    });
    assert_eq!(message(&res.unwrap_err()), "The files keep vanishing.");
    assert_eq!(*runs.borrow(), 11);

    *runs.borrow_mut() = 0;
    let res = run_copy_files("rsync", |_c: &str| {
        *runs.borrow_mut() += 1;
        Ok(result(false, "permission denied"))
    });
    assert_eq!(message(&res.unwrap_err()), "A command exited with a non 0 exit code or with a signal. 'rsync'");
    assert_eq!(*runs.borrow(), 1);
}

#[test]
fn uploads_try_every_remote_and_report_the_first_failure() {
    let remote = |name: &str| RemoteConfig {
        remote_name: name.to_string(),
        remote_path: "p".to_string(),
        cache_expiry_days: 30,
        min_archive_count: 0,
    };
    let mut c = config();
    c.docker_config = Some(vec![(
        "docker-volumes".to_string(),
        DockerConfig { volumes_path: "/v".to_string(), archive_config: None, remote_config: Some(vec![remote("a"), remote("b")]) },
    )]);
    let now = 1577836800;
    let locals = vec![
        ArchiveMetadata { archive_type: ArchiveType::DockerVolumes, archive_date: now, full_path: "/c/d/docker-volumes.x.1577836800.backup".to_string() },
        ArchiveMetadata { archive_type: ArchiveType::DockerVolumes, archive_date: now, full_path: "/c/d/docker-volumes.x.1577836801.backup".to_string() },
    ];
    let log = RefCell::new(Vec::new());
    let res = run_upload_command(&c, &locals, &vec![], now, |step: &Step<NoHook>| match step {
        Step::Shell(cmd) => {
            log.borrow_mut().push(cmd.clone());
            if cmd.ends_with("a:p/") { Err(CustomError::from_message(cmd)) } else { Ok(()) }
        }
        Step::Hook(_) => Ok(()),
    });
    assert_eq!(message(&res.unwrap_err()), "rclone copy -P /c/d/docker-volumes.x.1577836800.backup a:p/");
    assert_eq!(*log.borrow(), vec![
        "rclone copy -P /c/d/docker-volumes.x.1577836800.backup a:p/".to_string(),
        "rclone copy -P /c/d/docker-volumes.x.1577836800.backup b:p/".to_string(),
        "rclone copy -P /c/d/docker-volumes.x.1577836801.backup b:p/".to_string(),
    ]);
}
