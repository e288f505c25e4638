//! A team's virtual machine: which configuration it runs with and how its
//! disk, emulator and monitor are driven.
use vstd::prelude::*;
use crate::config::{AppConfig, Box, Competition};
use crate::model::strs;
use crate::text::{concat, concat3, concat_all, decimal, flatten, has_prefix, starts_with, str_eq, u64_to_decimal};

verus! {

/// What a box's process learns from its environment.
#[derive(Clone)]
pub struct EnvConfig {
    pub competition: String,
    pub box_name: String,
    pub team_name: String,
}

/// The configuration a box's process works from.
pub struct VmManager {
    pub env_config: EnvConfig,
    pub app_config: AppConfig,
}

/// Whether the competition at position `i` is the first one called `name`.
pub open spec fn first_competition_named(competitions: Seq<Competition>, i: int, name: Seq<char>) -> bool {
    &&& 0 <= i < competitions.len()
    &&& competitions[i].name@ == name
    &&& forall|j: int| 0 <= j < i ==> competitions[j].name@ != name
}

/// Whether the box at position `i` is the first one called `name`.
pub open spec fn first_box_named(boxes: Seq<Box>, i: int, name: Seq<char>) -> bool {
    &&& 0 <= i < boxes.len()
    &&& boxes[i].name@ == name
    &&& forall|j: int| 0 <= j < i ==> boxes[j].name@ != name
}

impl VmManager {
    /// Holds the environment and the loaded configuration.
    pub fn new(env_config: EnvConfig, app_config: AppConfig) -> (m: Self)
        ensures
            m.env_config == env_config,
            m.app_config == app_config,
    {
        VmManager { env_config, app_config }
    }

    /// The competition the box belongs to: the first one with its name.
    pub fn get_competition_config(&self) -> (r: Result<&Competition, String>)
        ensures
            match r {
                Ok(c) => exists|i: int|
                    first_competition_named(self.app_config.competitions@, i, self.env_config.competition@)
                        && *c == self.app_config.competitions@[i],
                Err(e) => e@ == "Competition '"@ + self.env_config.competition@ + "' not found"@
                    && forall|j: int|
                    0 <= j < self.app_config.competitions@.len() ==> self.app_config.competitions@[j].name@
                        != self.env_config.competition@,
            },
    {
        let n = self.app_config.competitions.len();
        for i in 0..n
            invariant
                n == self.app_config.competitions@.len(),
                forall|j: int|
                    0 <= j < i ==> self.app_config.competitions@[j].name@ != self.env_config.competition@,
        {
            if str_eq(self.app_config.competitions[i].name.as_str(), self.env_config.competition.as_str()) {
                assert(first_competition_named(self.app_config.competitions@, i as int, self.env_config.competition@));
                return Ok(&self.app_config.competitions[i]);
            }
        }
        Err(concat3("Competition '", self.env_config.competition.as_str(), "' not found"))
    }

    /// The configuration of the box: the first box of the competition with
    /// its name.
    pub fn get_box_config(&self) -> (r: Result<&Box, String>)
        ensures
            match r {
                Ok(b) => exists|i: int, k: int|
                    first_competition_named(self.app_config.competitions@, i, self.env_config.competition@)
                        && first_box_named(self.app_config.competitions@[i].boxes@, k, self.env_config.box_name@)
                        && *b == self.app_config.competitions@[i].boxes@[k],
                Err(e) => (forall|j: int|
                    0 <= j < self.app_config.competitions@.len() ==> self.app_config.competitions@[j].name@
                        != self.env_config.competition@) && e@ == "Competition '"@ + self.env_config.competition@
                    + "' not found"@ || (exists|i: int|
                    first_competition_named(self.app_config.competitions@, i, self.env_config.competition@)
                        && forall|k: int|
                        0 <= k < self.app_config.competitions@[i].boxes@.len()
                            ==> self.app_config.competitions@[i].boxes@[k].name@ != self.env_config.box_name@)
                    && e@ == "Box '"@ + self.env_config.box_name@ + "' not found"@,
            },
    {
        let competition = match self.get_competition_config() {
            Ok(c) => c,
            Err(e) => {
                return Err(e);
            },
        };
        let ghost ci = choose|i: int|
            first_competition_named(self.app_config.competitions@, i, self.env_config.competition@)
                && *competition == self.app_config.competitions@[i];
        let n = competition.boxes.len();
        for k in 0..n
            invariant
                n == competition.boxes@.len(),
                first_competition_named(self.app_config.competitions@, ci, self.env_config.competition@),
                *competition == self.app_config.competitions@[ci],
                forall|j: int| 0 <= j < k ==> competition.boxes@[j].name@ != self.env_config.box_name@,
        {
            if str_eq(competition.boxes[k].name.as_str(), self.env_config.box_name.as_str()) {
                assert(first_box_named(competition.boxes@, k as int, self.env_config.box_name@));
                assert(first_competition_named(self.app_config.competitions@, ci, self.env_config.competition@)
                    && first_box_named(self.app_config.competitions@[ci].boxes@, k as int, self.env_config.box_name@)
                    && competition.boxes@[k as int] == self.app_config.competitions@[ci].boxes@[k as int]);
                return Ok(&competition.boxes[k]);
            }
        }
        Err(concat3("Box '", self.env_config.box_name.as_str(), "' not found"))
    }
}

/// The format of a backing image: network block devices are raw, files
/// are qcow2.
pub fn backing_format(image: &str) -> (f: &'static str)
    ensures
        has_prefix(image@, "nbd://"@) ==> f@ == "raw"@,
        !has_prefix(image@, "nbd://"@) ==> f@ == "qcow2"@,
{
    proof { reveal_strlit("nbd://"); }
    if starts_with(image, "nbd://") {
        "raw"
    } else {
        "qcow2"
    }
}

/// The overlay disk the machine writes to.
pub open spec fn overlay_disk() -> Seq<char> {
    "/tmp/disk.img"@
}

/// The arguments of `qemu-img` that create the overlay on the backing
/// image.
pub fn disk_image_args(image: &str) -> (args: Vec<String>)
    ensures
        strs(args@) == seq![
            "create"@, "-f"@, "qcow2"@, "-F"@,
            (if has_prefix(image@, "nbd://"@) { "raw"@ } else { "qcow2"@ }),
            "-b"@, image@, overlay_disk(),
        ],
{
    let format = backing_format(image);
    let args = vec![
        "create".to_owned(),
        "-f".to_owned(),
        "qcow2".to_owned(),
        "-F".to_owned(),
        format.to_owned(),
        "-b".to_owned(),
        image.to_owned(),
        "/tmp/disk.img".to_owned(),
    ];
    assert(strs(args@) =~= seq![
        "create"@, "-f"@, "qcow2"@, "-F"@,
        (if has_prefix(image@, "nbd://"@) { "raw"@ } else { "qcow2"@ }),
        "-b"@, image@, overlay_disk(),
    ]);
    args
}

/// Cores of a machine whose configuration names none.
pub const DEFAULT_CORES: u32 = 2;

/// Memory in megabytes of a machine whose configuration names none.
pub const DEFAULT_RAM_MB: u32 = 1024;

/// The emulator's arguments: cores and memory from the box (or the
/// defaults), the overlay disk, the seed as a CD, a virtio NIC with the MAC
/// address on bridge `br0`, VNC over a WebSocket on port 5700, the monitor
/// on a Unix socket.
pub open spec fn qemu_args_spec(box_cfg: Box, disk: Seq<char>, iso: Seq<char>, mac: Seq<char>) -> Seq<Seq<char>> {
    let cores = match box_cfg.cores { Some(c) => c, None => DEFAULT_CORES };
    let ram = match box_cfg.ram_mb { Some(r) => r, None => DEFAULT_RAM_MB };
    seq![
        "-enable-kvm"@, "-m"@, decimal(ram as nat), "-cpu"@, "host"@, "-smp"@, decimal(cores as nat),
        "-drive"@, "file="@ + disk + ",format=qcow2"@,
        "-drive"@, "file="@ + iso + ",index=1,media=cdrom"@,
        "-net"@, "nic,model=virtio,macaddr="@ + mac,
        "-net"@, "bridge,br=br0"@,
        "-display"@, "vnc=0.0.0.0:0,websocket=5700,power-control=on"@,
        "-daemonize"@, "-pidfile"@, "/tmp/qemu.pid"@,
        "-monitor"@, "unix:/run/qemu-monitor.sock,server,nowait"@,
    ]
}

/// The arguments that start a box's machine.
pub fn qemu_args(box_cfg: &Box, disk: &str, iso: &str, mac: &str) -> (args: Vec<String>)
    ensures
        strs(args@) == qemu_args_spec(*box_cfg, disk@, iso@, mac@),
{
    let cores = match box_cfg.cores {
        Some(c) => c,
        None => DEFAULT_CORES,
    };
    let ram = match box_cfg.ram_mb {
        Some(r) => r,
        None => DEFAULT_RAM_MB,
    };
    let args = vec![
        "-enable-kvm".to_owned(),
        "-m".to_owned(),
        u64_to_decimal(ram as u64),
        "-cpu".to_owned(),
        "host".to_owned(),
        "-smp".to_owned(),
        u64_to_decimal(cores as u64),
        "-drive".to_owned(),
        concat3("file=", disk, ",format=qcow2"),
        "-drive".to_owned(),
        concat3("file=", iso, ",index=1,media=cdrom"),
        "-net".to_owned(),
        concat("nic,model=virtio,macaddr=", mac),
        "-net".to_owned(),
        "bridge,br=br0".to_owned(),
        "-display".to_owned(),
        "vnc=0.0.0.0:0,websocket=5700,power-control=on".to_owned(),
        "-daemonize".to_owned(),
        "-pidfile".to_owned(),
        "/tmp/qemu.pid".to_owned(),
        "-monitor".to_owned(),
        "unix:/run/qemu-monitor.sock,server,nowait".to_owned(),
    ];
    assert(strs(args@) =~= qemu_args_spec(*box_cfg, disk@, iso@, mac@));
    args
}

/// The monitor command that saves or loads the team's snapshot:
/// `<verb> <team>_<box>` and a newline.
pub open spec fn monitor_command_text(verb: Seq<char>, team_name: Seq<char>, box_name: Seq<char>) -> Seq<char> {
    verb + " "@ + team_name + "_"@ + box_name + "\n"@
}

/// The monitor command for a snapshot.
pub fn snapshot_command(team_name: &str, box_name: &str) -> (c: String)
    ensures
        c@ == monitor_command_text("savevm"@, team_name@, box_name@),
{
    monitor_command("savevm", team_name, box_name)
}

/// The monitor command for a restore.
pub fn restore_command(team_name: &str, box_name: &str) -> (c: String)
    ensures
        c@ == monitor_command_text("loadvm"@, team_name@, box_name@),
{
    monitor_command("loadvm", team_name, box_name)
}

fn monitor_command(verb: &str, team_name: &str, box_name: &str) -> (c: String)
    ensures
        c@ == monitor_command_text(verb@, team_name@, box_name@),
{
    let v = vec![verb, " ", team_name, "_", box_name, "\n"];
    let c = concat_all(&v);
    proof {
        reveal_with_fuel(flatten, 7);
        assert(v@.map_values(|p: &str| p@) =~= seq![verb@, " "@, team_name@, "_"@, box_name@, "\n"@]);
    }
    c
}

/// The monitor's prompt, as bytes.
pub open spec fn prompt_bytes() -> Seq<u8> {
    seq![40u8, 113u8, 101u8, 109u8, 117u8, 41u8, 32u8]
}

/// Whether the monitor's answer is complete: it ends with its prompt
/// `(qemu) `.
pub fn response_complete(response: &Vec<u8>) -> (r: bool)
    ensures
        r == (response@.len() >= 7 && response@.subrange(response@.len() - 7, response@.len() as int) == prompt_bytes()),
{
    let n = response.len();
    if n < 7 {
        return false;
    }
    let prompt: Vec<u8> = vec![40u8, 113u8, 101u8, 109u8, 117u8, 41u8, 32u8];
    assert(prompt@ =~= prompt_bytes());
    for i in 0..7usize
        invariant
            n == response@.len(),
            n >= 7,
            prompt@ == prompt_bytes(),
            forall|k: int| 0 <= k < i ==> response@[n - 7 + k] == prompt@[k],
    {
        if response[n - 7 + i] != prompt[i] {
            assert(response@.subrange(n - 7, n as int)[i as int] != prompt_bytes()[i as int]);
            return false;
        }
    }
    assert(response@.subrange(n - 7, n as int) =~= prompt_bytes());
    true
}

/// The address of a box's sidecar on the VXLAN port:
/// `vxlan-sidecar-<team>-<box>:4789`.
pub fn sidecar_vxlan_address(team_name: &str, box_name: &str) -> (s: String)
    ensures
        s@ == crate::network::sidecar_host_text(team_name@, box_name@) + ":4789"@,
{
    let h = crate::network::sidecar_host(team_name, box_name);
    concat(h.as_str(), ":4789")
}

} // verus!
