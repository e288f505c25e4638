use carve::config::{AppConfig, Box as BoxConfig, Competition, RedisConfig, RegistrationType, Team};
use carve::model::IdentitySources;
use carve::vm::{
    backing_format, disk_image_args, qemu_args, response_complete, restore_command, sidecar_vxlan_address,
    snapshot_command, EnvConfig, VmManager,
};

fn competition(name: &str) -> Competition {
    Competition {
        name: name.to_string(),
        redis: RedisConfig { host: "redis".to_string(), port: 6379, db: 0 },
        oidc_provider_name: "idp".to_string(),
        cidr: None,
        dns_host: None,
        vtep_host: None,
        boxes: vec![
            BoxConfig { name: "web".to_string(), labels: "".to_string(), cores: Some(4), ram_mb: None, backing_image: "nbd://disks/web".to_string() },
            BoxConfig { name: "db".to_string(), labels: "".to_string(), cores: None, ram_mb: Some(2048), backing_image: "/disk/db.qcow2".to_string() },
        ],
        teams: vec![Team { name: "red".to_string() }],
        checks: vec![],
        flag_checks: vec![],
        admin_group: None,
        description: None,
        duration: None,
        registration_type: RegistrationType::Join,
        identity_sources: vec![IdentitySources::OIDC],
        create_default_admin: false,
        dns_upstream_service: None,
        restore_cooldown: None,
        allow_non_admins_to_generate_join_codes: false,
    }
}

fn manager(comp: &str, b: &str) -> VmManager {
    VmManager::new(
        EnvConfig { competition: comp.to_string(), box_name: b.to_string(), team_name: "red".to_string() },
        AppConfig { competitions: vec![competition("other"), competition("ctf")] },
    )
}

#[test]
fn the_box_configuration_is_found_by_name() {
    let m = manager("ctf", "db");
    assert_eq!(m.get_competition_config().unwrap().name, "ctf");
    assert_eq!(m.get_box_config().unwrap().ram_mb, Some(2048));
    assert_eq!(manager("nope", "db").get_competition_config().unwrap_err(), "Competition 'nope' not found");
    assert_eq!(manager("nope", "db").get_box_config().unwrap_err(), "Competition 'nope' not found");
    assert_eq!(manager("ctf", "mail").get_box_config().unwrap_err(), "Box 'mail' not found");
}

#[test]
fn disks_on_network_block_devices_are_raw() {
    assert_eq!(backing_format("nbd://disks/web"), "raw");
    assert_eq!(backing_format("/disk/db.qcow2"), "qcow2");
    assert_eq!(
        disk_image_args("nbd://disks/web"),
        vec!["create", "-f", "qcow2", "-F", "raw", "-b", "nbd://disks/web", "/tmp/disk.img"]
    );
}

#[test]
fn the_emulator_gets_the_boxs_resources_or_the_defaults() {
    let c = competition("ctf");
    let args = qemu_args(&c.boxes[0], "/tmp/disk.img", "/tmp/cloud-init.iso", "52:54:00:01:02:03");
    assert_eq!(
        args,
        vec![
            "-enable-kvm", "-m", "1024", "-cpu", "host", "-smp", "4", "-drive", "file=/tmp/disk.img,format=qcow2",
            "-drive", "file=/tmp/cloud-init.iso,index=1,media=cdrom", "-net", "nic,model=virtio,macaddr=52:54:00:01:02:03",
            "-net", "bridge,br=br0", "-display", "vnc=0.0.0.0:0,websocket=5700,power-control=on", "-daemonize",
            "-pidfile", "/tmp/qemu.pid", "-monitor", "unix:/run/qemu-monitor.sock,server,nowait",
        ]
    );
    let args = qemu_args(&c.boxes[1], "d", "i", "m");
    assert_eq!((args[2].as_str(), args[6].as_str()), ("2048", "2"));
}

#[test]
fn monitor_commands_and_prompt() {
    assert_eq!(snapshot_command("red", "web"), "savevm red_web\n");
    assert_eq!(restore_command("red", "web"), "loadvm red_web\n");
    assert!(response_complete(&b"QEMU 8.0 monitor\n(qemu) ".to_vec()));
    assert!(!response_complete(&b"(qemu)".to_vec()));
    assert!(!response_complete(&b"loading\n".to_vec()));
    assert_eq!(sidecar_vxlan_address("red", "web"), "vxlan-sidecar-red-web:4789");
}
