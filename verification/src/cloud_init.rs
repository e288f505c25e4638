//! The cloud-init seed of a team's virtual machine: host name, network
//! configuration with a random MAC address, the team's login and SSH key.
use vstd::prelude::*;
use crate::model::opt_str;
use crate::random::{generate_alphabetic_string, is_ascii_letter, random_byte};
use crate::text::{concat_all, flatten, hex_byte, push_hex_byte, split_char, split_spec, trim, trim_spec};

verus! {

/// The four files of a cloud-init seed.
#[derive(Clone)]
pub struct CloudInit {
    pub user_data: String,
    pub meta_data: String,
    pub vendor_data: String,
    pub network_config: String,
}

/// `meta-data`: the instance id and host name, both the box's name.
pub open spec fn meta_data_text(box_name: Seq<char>) -> Seq<char> {
    "instance-id: "@ + box_name + "\nlocal-hostname: "@ + box_name + "\n"@
}

/// The `meta-data` file for a box.
pub fn meta_data(box_name: &str) -> (s: String)
    ensures
        s@ == meta_data_text(box_name@),
{
    let v = vec!["instance-id: ", box_name, "\nlocal-hostname: ", box_name, "\n"];
    let s = concat_all(&v);
    proof {
        reveal_with_fuel(flatten, 6);
        assert(v@.map_values(|p: &str| p@) =~= seq!["instance-id: "@, box_name@, "\nlocal-hostname: "@, box_name@, "\n"@]);
    }
    s
}

/// The `vendor-data` file: an empty cloud-config.
pub fn vendor_data() -> (s: String)
    ensures
        s@ == "#cloud-config\n"@,
{
    "#cloud-config\n".to_owned()
}

/// A MAC address in QEMU's locally administered range, with the last
/// three bytes given.
pub open spec fn mac_text(a: u8, b: u8, c: u8) -> Seq<char> {
    "52:54:00:"@ + hex_byte(a) + ":"@ + hex_byte(b) + ":"@ + hex_byte(c)
}

/// The MAC address `52:54:00:aa:bb:cc` with the given last bytes.
pub fn mac_address_from(a: u8, b: u8, c: u8) -> (s: String)
    ensures
        s@ == mac_text(a, b, c),
{
    let mut s = "52:54:00:".to_owned();
    push_hex_byte(&mut s, a);
    s.append(":");
    push_hex_byte(&mut s, b);
    s.append(":");
    push_hex_byte(&mut s, c);
    proof {
        reveal_strlit(":");
    }
    s
}

/// A random MAC address in QEMU's range.
pub fn random_mac_address() -> (s: String)
    ensures
        exists|a: u8, b: u8, c: u8| s@ == mac_text(a, b, c),
{
    let a = random_byte();
    let b = random_byte();
    let c = random_byte();
    mac_address_from(a, b, c)
}

/// `network-config`: DHCP on the interface with the given MAC address.
pub open spec fn network_config_text(mac: Seq<char>) -> Seq<char> {
    "#cloud-config\nversion: 2\nethernets:\n  eth0:\n    mtu: 1400\n    dhcp4: true\n    match:\n      macaddress: "@
        + mac + "\n"@
}

/// The `network-config` file.
pub fn network_config(mac_address: &str) -> (s: String)
    ensures
        s@ == network_config_text(mac_address@),
{
    let v = vec![
        "#cloud-config\nversion: 2\nethernets:\n  eth0:\n    mtu: 1400\n    dhcp4: true\n    match:\n      macaddress: ",
        mac_address,
        "\n",
    ];
    let s = concat_all(&v);
    proof {
        reveal_with_fuel(flatten, 4);
        assert(v@.map_values(|p: &str| p@) =~= seq![
            "#cloud-config\nversion: 2\nethernets:\n  eth0:\n    mtu: 1400\n    dhcp4: true\n    match:\n      macaddress: "@,
            mac_address@,
            "\n"@,
        ]);
    }
    s
}

/// The last line of a public key file once trimmed (the key itself), or
/// nothing for an empty file.
pub open spec fn key_line(public_key: Seq<char>) -> Seq<char> {
    let lines = split_spec(trim_spec(public_key), '\n');
    lines[lines.len() - 1]
}

/// The line of a public key file that holds the key.
pub fn public_key_line(public_key: &str) -> (s: String)
    ensures
        s@ == key_line(public_key@),
{
    let t = trim(public_key);
    let lines = split_char(t.as_str(), '\n');
    let n = lines.len();
    assert(n >= 1);
    assert(lines@[n - 1]@ == split_spec(t@, '\n')[n - 1]);
    lines[n - 1].clone()
}

/// `user-data`: a sudo user named after the team, with the password hash
/// and the SSH key, SSH password login enabled.
pub open spec fn user_data_text(team_name: Seq<char>, password_hash: Seq<char>, public_key: Seq<char>) -> Seq<char> {
    "#cloud-config\nssh_pwauth: True\npackage_update: true\npackage_upgrade: true\nruncmd:\n    - [ systemctl, enable, --now, ssh ]\nusers:\n  - name: "@
        + team_name
        + "\n    shell: /bin/bash\n    lock_passwd: false\n    hashed_passwd: "@
        + trim_spec(password_hash)
        + "\n    sudo: \"ALL=(ALL) NOPASSWD:ALL\"\n    groups: sudo\n    ssh_authorized_keys:\n      - "@
        + key_line(public_key)
        + "\n"@
}

/// The `user-data` file.
pub fn user_data(team_name: &str, password_hash: &str, public_key: &str) -> (s: String)
    ensures
        s@ == user_data_text(team_name@, password_hash@, public_key@),
{
    let hash = trim(password_hash);
    let key = public_key_line(public_key);
    let v = vec![
        "#cloud-config\nssh_pwauth: True\npackage_update: true\npackage_upgrade: true\nruncmd:\n    - [ systemctl, enable, --now, ssh ]\nusers:\n  - name: ",
        team_name,
        "\n    shell: /bin/bash\n    lock_passwd: false\n    hashed_passwd: ",
        hash.as_str(),
        "\n    sudo: \"ALL=(ALL) NOPASSWD:ALL\"\n    groups: sudo\n    ssh_authorized_keys:\n      - ",
        key.as_str(),
        "\n",
    ];
    let s = concat_all(&v);
    proof {
        reveal_with_fuel(flatten, 8);
        assert(v@.map_values(|p: &str| p@) =~= seq![
            "#cloud-config\nssh_pwauth: True\npackage_update: true\npackage_upgrade: true\nruncmd:\n    - [ systemctl, enable, --now, ssh ]\nusers:\n  - name: "@,
            team_name@,
            "\n    shell: /bin/bash\n    lock_passwd: false\n    hashed_passwd: "@,
            hash@,
            "\n    sudo: \"ALL=(ALL) NOPASSWD:ALL\"\n    groups: sudo\n    ssh_authorized_keys:\n      - "@,
            key@,
            "\n"@,
        ]);
    }
    s
}

/// The whole seed of a box.
pub fn cloud_init_seed(box_name: &str, team_name: &str, mac_address: &str, password_hash: &str, public_key: &str) -> (c:
    CloudInit)
    ensures
        c.meta_data@ == meta_data_text(box_name@),
        c.vendor_data@ == "#cloud-config\n"@,
        c.network_config@ == network_config_text(mac_address@),
        c.user_data@ == user_data_text(team_name@, password_hash@, public_key@),
{
    CloudInit {
        user_data: user_data(team_name, password_hash, public_key),
        meta_data: meta_data(box_name),
        vendor_data: vendor_data(),
        network_config: network_config(mac_address),
    }
}

// ---------------------------------------------------------------------------
// Login and SSH key
// ---------------------------------------------------------------------------

/// Number of letters of a generated box password.
pub const BOX_PASSWORD_LEN: usize = 8;

/// The login of a box: the stored one, else the team's name with `fresh`
/// as password; the flag says whether it must be stored.
pub fn box_login(stored: Option<(String, String)>, team_name: &str, fresh: String) -> (r: (String, String, bool))
    ensures
        stored matches Some(p) ==> r.0@ == p.0@ && r.1@ == p.1@ && !r.2,
        stored is None ==> r.0@ == team_name@ && r.1@ == fresh@ && r.2,
{
    match stored {
        Some((u, p)) => (u, p, false),
        None => (team_name.to_owned(), fresh, true),
    }
}

/// A new box password: eight random ASCII letters.
pub fn new_box_password() -> (s: String)
    ensures
        s@.len() == BOX_PASSWORD_LEN,
        forall|i: int| 0 <= i < s@.len() ==> is_ascii_letter(#[trigger] s@[i]),
{
    generate_alphabetic_string(BOX_PASSWORD_LEN)
}

/// The OpenSSH public key of an OpenSSH private key, or the text of the
/// `ssh-key` error met while reading the key or writing its public key.
pub uninterp spec fn openssh_public_key(private_key: Seq<char>) -> Result<Seq<char>, Seq<char>>;

/// Reads an OpenSSH private key with `ssh_key::PrivateKey::from_openssh`
/// and writes its public key with `PublicKey::to_openssh`; an error is
/// given as its text. The result is named `openssh_public_key`; the key
/// formats are not stated here.
#[verifier::external_body]
fn public_key_of(private_key: &str) -> (r: Result<String, String>)
    ensures
        match r {
            Ok(p) => openssh_public_key(private_key@) == Ok::<Seq<char>, Seq<char>>(p@),
            Err(e) => openssh_public_key(private_key@) == Err::<Seq<char>, Seq<char>>(e@),
        },
{
    match ssh_key::PrivateKey::from_openssh(private_key) {
        Ok(key) => key.public_key().to_openssh().map_err(|e| e.to_string()),
        Err(e) => Err(e.to_string()),
    }
}

/// Makes a random Ed25519 key pair with `ssh_key::PrivateKey::random` and
/// the operating system's random source, and writes both halves in OpenSSH
/// form; an error is given as its text. The public half is the private
/// key's `public_key().to_openssh()`, which `ssh-key` writes as
/// `ssh-ed25519 <base64>`; reading the private text back with
/// `PrivateKey::from_openssh` gives the same key, so its public key is that
/// same text. Which key is drawn is not stated.
#[verifier::external_body]
fn random_ed25519_keypair() -> (r: Result<(String, String), String>)
    ensures
        r matches Ok(t) ==> (openssh_public_key(t.0@) matches Ok(p) && p == t.1@),
        r matches Ok(t) ==> "ssh-ed25519 "@.is_prefix_of(t.1@),
{
    let key = ssh_key::PrivateKey::random(&mut ssh_key::rand_core::OsRng, ssh_key::Algorithm::Ed25519)
        .map_err(|e| e.to_string())?;
    let private = key.to_openssh(ssh_key::LineEnding::default()).map_err(|e| e.to_string())?;
    let public = key.public_key().to_openssh().map_err(|e| e.to_string())?;
    Ok((private.to_string(), public))
}

/// The SSH key pair of a box: the stored private key with its public key,
/// or a new random Ed25519 pair when none is stored (the flag says so); the
/// public half is always the private key's own public key. `Err`, with
/// `ssh-key`'s error text, when the stored key cannot be read or a new pair
/// cannot be made.
pub fn box_keypair(stored: Option<String>) -> (r: Result<(String, String, bool), String>)
    ensures
        stored matches Some(k) ==> match openssh_public_key(k@) {
            Ok(p) => r matches Ok(t) && t.0@ == k@ && t.1@ == p && !t.2,
            Err(e) => r matches Err(m) && m@ == e,
        },
        stored is None ==> (r matches Ok(t) ==> {
            &&& t.2
            &&& openssh_public_key(t.0@) matches Ok(p) && p == t.1@
            &&& "ssh-ed25519 "@.is_prefix_of(t.1@)
        }),
{
    match stored {
        Some(key) => match public_key_of(key.as_str()) {
            Ok(public) => Ok((key, public, false)),
            Err(e) => Err(e),
        },
        None => match random_ed25519_keypair() {
            Ok((private, public)) => Ok((private, public, true)),
            Err(e) => Err(e),
        },
    }
}

} // verus!
