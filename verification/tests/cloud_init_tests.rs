use carve::cloud_init::{
    box_keypair, box_login, cloud_init_seed, mac_address_from, meta_data, network_config, new_box_password,
    public_key_line, random_mac_address, user_data, vendor_data, BOX_PASSWORD_LEN,
};

#[test]
fn meta_and_vendor_data() {
    assert_eq!(meta_data("web"), "instance-id: web\nlocal-hostname: web\n");
    assert_eq!(vendor_data(), "#cloud-config\n");
}

#[test]
fn mac_addresses_are_in_the_qemu_range() {
    assert_eq!(mac_address_from(0x12, 0xab, 0x00), "52:54:00:12:ab:00");
    let mac = random_mac_address();
    assert_eq!(mac.len(), 17);
    assert!(mac.starts_with("52:54:00:"));
    assert!(mac[9..].chars().all(|c| c == ':' || (c.is_ascii_hexdigit() && !c.is_ascii_uppercase())));
}

#[test]
fn network_config_matches_the_mac_address() {
    assert_eq!(
        network_config("52:54:00:01:02:03"),
        "#cloud-config\nversion: 2\nethernets:\n  eth0:\n    mtu: 1400\n    dhcp4: true\n    match:\n      macaddress: 52:54:00:01:02:03\n"
    );
}

#[test]
fn the_key_is_the_last_line_of_the_trimmed_public_key() {
    assert_eq!(public_key_line("ssh-ed25519 AAAA comment\n"), "ssh-ed25519 AAAA comment");
    assert_eq!(public_key_line("# header\nssh-ed25519 BBBB\n\n"), "ssh-ed25519 BBBB");
    assert_eq!(public_key_line("   "), "");
}

#[test]
fn user_data_creates_the_team_user() {
    let expected = "#cloud-config\nssh_pwauth: True\npackage_update: true\npackage_upgrade: true\nruncmd:\n    - [ systemctl, enable, --now, ssh ]\nusers:\n  - name: red\n    shell: /bin/bash\n    lock_passwd: false\n    hashed_passwd: $6$hash\n    sudo: \"ALL=(ALL) NOPASSWD:ALL\"\n    groups: sudo\n    ssh_authorized_keys:\n      - ssh-ed25519 AAAA\n";
    assert_eq!(user_data("red", "$6$hash\n", "ssh-ed25519 AAAA\n"), expected);
    let seed = cloud_init_seed("web", "red", "52:54:00:01:02:03", "$6$hash\n", "ssh-ed25519 AAAA\n");
    assert_eq!(seed.user_data, expected);
    assert_eq!(seed.meta_data, meta_data("web"));
    assert_eq!(seed.network_config, network_config("52:54:00:01:02:03"));
    assert_eq!(seed.vendor_data, "#cloud-config\n");
}

#[test]
fn logins_are_kept_or_made_for_the_team() {
    assert_eq!(
        box_login(Some(("u".to_string(), "p".to_string())), "red", "fresh".to_string()),
        ("u".to_string(), "p".to_string(), false)
    );
    assert_eq!(box_login(None, "red", "fresh".to_string()), ("red".to_string(), "fresh".to_string(), true));
    let p = new_box_password();
    assert_eq!(p.len(), BOX_PASSWORD_LEN);
    assert!(p.chars().all(|c| c.is_ascii_alphabetic()));
}

#[test]
fn a_stored_key_gives_back_its_public_key() {
    let (private, public, fresh) = box_keypair(None).unwrap();
    assert!(fresh);
    assert!(private.contains("OPENSSH PRIVATE KEY"));
    assert!(public.starts_with("ssh-ed25519 "));
    let (private2, public2, fresh2) = box_keypair(Some(private.clone())).unwrap();
    assert!(!fresh2);
    assert_eq!(private2, private);
    assert_eq!(public2, public);
    let expected = ssh_key::PrivateKey::from_openssh("not a key").unwrap_err().to_string();
    assert_eq!(box_keypair(Some("not a key".to_string())), Err(expected));
}
