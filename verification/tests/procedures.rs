use xdxd_backup::app_config::{AppConfig, ArchiveConfig, CustomArchiveConfig, DirectoryConfig, DockerConfig, EmailConfig, KvmMachineConfig};
use xdxd_backup::bash_shell::CommandResult;
use xdxd_backup::directory_archive::{create_directory_archive, restore_directory_archive};
use xdxd_backup::docker_volumes::{
    container_ids, copy_files_step, create_docker_volumes_archive, pause_commands, restore_docker_volumes_archive, CopyStep,
};
use xdxd_backup::errors::CustomErrorKind;
use xdxd_backup::kvm_machine::{
    create_kvm_machine_archive, disks_of_nodes, dump_xml_command, get_disks, restore_kvm_machine_archive, XmlNode,
};

fn config() -> AppConfig {
    AppConfig {
        hostname: "host-1".to_string(),
        sentry_dsn: String::new(),
        email_config: EmailConfig {
            notification_emails: vec![],
            smtp_username: String::new(),
            smtp_password: String::new(),
            smtp_host: String::new(),
            smtp_port: 25,
        },
        archive_config: ArchiveConfig {
            cache_path: "/c".to_string(),
            temp_path: "/t".to_string(),
            gpg_key_name: "k".to_string(),
            cache_expiry_days: 3,
            rar_compression_level: 6,
        },
        docker_config: Some(vec![(
            "main".to_string(),
            DockerConfig {
                volumes_path: "/var/lib/docker/volumes".to_string(),
                archive_config: Some(CustomArchiveConfig {
                    cache_path: None,
                    temp_path: Some("/fast".to_string()),
                    gpg_key_name: None,
                    cache_expiry_days: None,
                    rar_compression_level: None,
                }),
                remote_config: None,
            },
        )]),
        directory_config: Some(vec![("docs".to_string(), DirectoryConfig { directory_path: "/srv/docs".to_string() })]),
        kvm_machine_config: Some(vec![(
            "vm1".to_string(),
            KvmMachineConfig { vm_name: "web".to_string(), device_names: vec!["vda".to_string()] },
        )]),
        remote_config: None,
    }
}

fn message(kind: &CustomErrorKind) -> String {
    match kind {
        CustomErrorKind::ErrorMessage(m) => m.clone(),
        CustomErrorKind::UserError(m) => format!("user: {}", m),
        CustomErrorKind::XmlError(_) => "xml".to_string(),
    }
}

#[test]
fn docker_volumes_plan() {
    let plan = create_docker_volumes_archive(&config(), "main", "/t/w/uncompressed-archive").unwrap();
    assert_eq!(plan.lock_name, "/fast/docker-volumes.lock");
    assert_eq!(plan.list_containers, "docker ps --filter=\"status=running\" -q");
    assert_eq!(plan.copy, "rsync -a --delete --filter=\"dir-merge,- .backupignore\" /var/lib/docker/volumes/ /t/w/uncompressed-archive/");
    let err = create_docker_volumes_archive(&config(), "other", "/w").err().unwrap();
    assert_eq!(message(&err.kind), "`DockerVolumes` archiving is not configured.");
    assert_eq!(container_ids("abc\ndef\n"), "abc def ");
    let (pause, unpause) = pause_commands("abc def ");
    assert_eq!(pause, "docker pause abc def ");
    assert_eq!(unpause, "docker unpause abc def ");
}

#[test]
fn docker_volumes_restore_commands() {
    let cmds = restore_docker_volumes_archive(&config(), "main", "/t/w", "/t/w/c.tar.gz").unwrap();
    assert_eq!(cmds, vec![
        "systemctl stop docker".to_string(),
        "rm /var/lib/docker/volumes -rf && mkdir -p /var/lib/docker/volumes".to_string(),
        "cd /var/lib/docker/volumes && tar -xf /t/w/c.tar.gz".to_string(),
        "systemctl start docker".to_string(),
    ]);
}

fn outcome(success: bool, stderr: &str) -> CommandResult {
    CommandResult { status_code: Some(if success { 0 } else { 23 }), stdout: String::new(), stderr: stderr.to_string(), command: "rsync x".to_string(), success }
}

#[test]
fn copy_retries_only_while_files_vanish() {
    assert!(matches!(copy_files_step(0, &outcome(true, "")), CopyStep::Done));
    assert!(matches!(copy_files_step(3, &outcome(false, "ERR | file has vanished: x")), CopyStep::Retry));
    match copy_files_step(10, &outcome(false, "file has vanished")) {
        CopyStep::Failed(e) => assert_eq!(message(&e.kind), "The files keep vanishing."),
        _ => panic!("expected a failure"),
    }
    match copy_files_step(0, &outcome(false, "permission denied")) {
        CopyStep::Failed(e) => assert_eq!(message(&e.kind), "A command exited with a non 0 exit code or with a signal. 'rsync x'"),
        _ => panic!("expected a failure"),
    }
}

#[test]
fn command_result_as_result() {
    assert!(outcome(true, "").as_result().is_ok());
    assert!(outcome(false, "").as_result().is_err());
}

#[test]
fn directory_plans() {
    let cmds = create_directory_archive(&config(), "docs", "/t/w").unwrap();
    assert_eq!(cmds, vec![
        "mkdir -p /srv/docs".to_string(),
        "rsync -a --delete --filter=\"dir-merge,- .backupignore\" /srv/docs/ /t/w/".to_string(),
    ]);
    let cmds = restore_directory_archive(&config(), "docs", "/t/w", "/t/w/c.tar.gz").unwrap();
    assert_eq!(cmds[1], "cd /srv/docs && tar -xf /t/w/c.tar.gz --use-compress-program=pigz");
    let err = create_directory_archive(&config(), "nope", "/t/w").err().unwrap();
    assert_eq!(message(&err.kind), "`Directory` archiving is not configured.");
}

const VM_XML: &str = r#"<domain type='kvm'>
  <name>web</name>
  <devices>
    <disk type='file' device='disk'>
      <driver name='qemu' type='qcow2'/>
      <source file='/var/lib/libvirt/images/web.qcow2'/>
      <target dev='vda' bus='virtio'/>
    </disk>
    <disk type='file' device='disk'>
      <driver name='qemu' type='qcow2'/>
      <source file='/var/lib/libvirt/images/data.qcow2'/>
      <target dev='vdb' bus='virtio'/>
    </disk>
    <disk type='file' device='cdrom'>
      <driver name='qemu' type='raw'/>
      <source file='/iso/install.iso'/>
      <target dev='hdc' bus='ide'/>
    </disk>
  </devices>
</domain>"#;

#[test]
fn disks_of_a_machine() {
    let disks = get_disks(VM_XML).unwrap();
    assert_eq!(disks.len(), 3);
    assert_eq!(disks[0].device_name, "vda");
    assert_eq!(disks[0].file_path, "/var/lib/libvirt/images/web.qcow2");
    assert_eq!(disks[0].disk_format, "qcow2");
    assert_eq!(disks[0].disk_device, "disk");
    assert_eq!(disks[2].disk_format, "raw");
    assert_eq!(disks[2].disk_device, "cdrom");
}

#[test]
fn disks_errors() {
    assert_eq!(message(&get_disks("<domain>").err().unwrap().kind), "xml");
    assert_eq!(message(&get_disks("<domain/>").err().unwrap().kind), "No `devices` tag found in the xml definition of the vm.");
    let no_target = "<domain><devices><disk device='disk'><driver type='raw'/></disk></devices></domain>";
    assert_eq!(message(&get_disks(no_target).err().unwrap().kind), "No `target` tag found in the `disk` tag.");
    let no_device = "<domain><devices><disk/></devices></domain>";
    assert_eq!(message(&get_disks(no_device).err().unwrap().kind), "No `device` attribute found on the `disk` tag.");
}

#[test]
fn kvm_machine_plan() {
    assert_eq!(dump_xml_command(&config(), "vm1").unwrap(), "virsh dumpxml web");
    let plan = create_kvm_machine_archive(&config(), "vm1", "/t/w/uncompressed-archive", VM_XML).unwrap();
    assert_eq!(plan.xml_file_name, "/t/w/uncompressed-archive/machine.xml");
    assert_eq!(plan.snapshot, "virsh snapshot-create-as --domain web backup-snapshot --disk-only --atomic");
    assert_eq!(plan.copies, vec![
        "qemu-img convert -O qcow2 /var/lib/libvirt/images/web.qcow2 /t/w/web.qcow2".to_string(),
        "qemu-img check /t/w/web.qcow2".to_string(),
    ]);
    assert!(plan.copy_error.is_none());
    assert_eq!(plan.cleanup, vec![
        "virsh blockcommit web vda --active --pivot".to_string(),
        "rm /var/lib/libvirt/images/web.backup-snapshot -f".to_string(),
        "virsh blockcommit web vdb --active --pivot".to_string(),
        "rm /var/lib/libvirt/images/data.backup-snapshot -f".to_string(),
        "virsh snapshot-delete web --metadata backup-snapshot".to_string(),
    ]);
    let err = create_kvm_machine_archive(&config(), "vm2", "/t/w", VM_XML).err().unwrap();
    assert_eq!(message(&err.kind), "`KvmMachine` archiving is not configured.");
    assert!(restore_kvm_machine_archive("vm1", "/t/w", "/t/w/c").is_err());
}

#[test]
fn disks_of_parsed_nodes() {
    let err = disks_of_nodes(&vec![]).err().unwrap();
    assert_eq!(message(&err.kind), "No `devices` tag found in the xml definition of the vm.");
    let node = |id: usize, parent: Option<usize>, tag: &str, attributes: Vec<(&str, &str)>| XmlNode {
        id,
        parent,
        is_element: true,
        tag_name: tag.to_string(),
        attributes: attributes.into_iter().map(|(a, b)| (a.to_string(), b.to_string())).collect(),
    };
    let nodes = vec![
        node(0, None, "domain", vec![]),
        node(1, Some(0), "devices", vec![]),
        node(2, Some(1), "disk", vec![("device", "disk")]),
        node(3, Some(2), "driver", vec![("type", "qcow2")]),
        node(4, Some(2), "source", vec![("file", "/img/a.qcow2")]),
        node(5, Some(2), "target", vec![("dev", "vda")]),
    ];
    let disks = disks_of_nodes(&nodes).unwrap();
    assert_eq!(disks.len(), 1);
    assert_eq!(disks[0].device_name, "vda");
    assert_eq!(disks[0].file_path, "/img/a.qcow2");
    assert_eq!(disks[0].disk_format, "qcow2");
    assert_eq!(disks[0].disk_device, "disk");
}
