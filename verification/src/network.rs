//! The competition network: address plan of the VXLAN tunnel endpoint,
//! interface names, subnet records and forwarding entries.
use vstd::prelude::*;
use crate::model::opt_str;
use vstd::arithmetic::power2::pow2;
use crate::config::{Competition, Team};
use crate::text::{
    chars_of, concat, concat3, concat_all, contains, contains_seq, decimal, flatten, split_char, split_spec,
    split_whitespace, str_eq, trim, trim_spec, u64_to_decimal, ws_tokens,
};

verus! {

// ---------------------------------------------------------------------------
// IPv4 addresses
// ---------------------------------------------------------------------------

/// An ASCII decimal digit.
pub open spec fn is_ascii_digit(c: char) -> bool {
    '0' <= c <= '9'
}

/// The value of an ASCII digit.
pub open spec fn digit_value(c: char) -> nat {
    (c as nat - '0' as nat) as nat
}

/// The value of a dotted-quad octet as `std::net::Ipv4Addr` reads it: one
/// to three digits, no leading zero (but "0" itself), at most 255.
pub open spec fn octet_value(s: Seq<char>) -> Option<u8> {
    if 1 <= s.len() <= 3 && (forall|i: int| 0 <= i < s.len() ==> is_ascii_digit(#[trigger] s[i]))
        && !(s.len() > 1 && s[0] == '0') {
        let v = if s.len() == 1 {
            digit_value(s[0])
        } else if s.len() == 2 {
            digit_value(s[0]) * 10 + digit_value(s[1])
        } else {
            digit_value(s[0]) * 100 + digit_value(s[1]) * 10 + digit_value(s[2])
        };
        if v <= 255 {
            Some(v as u8)
        } else {
            None
        }
    } else {
        None
    }
}

/// The address (as a number, first octet highest) of a dotted-quad text,
/// as `"a.b.c.d".parse::<Ipv4Addr>()` reads it.
pub open spec fn ipv4_value(s: Seq<char>) -> Option<u32> {
    let parts = split_spec(s, '.');
    if parts.len() == 4 && octet_value(parts[0]) is Some && octet_value(parts[1]) is Some
        && octet_value(parts[2]) is Some && octet_value(parts[3]) is Some {
        Some(
            (octet_value(parts[0])->0 as nat * 16777216 + octet_value(parts[1])->0 as nat * 65536
                + octet_value(parts[2])->0 as nat * 256 + octet_value(parts[3])->0 as nat) as u32,
        )
    } else {
        None
    }
}

/// Reads one octet.
fn parse_octet(s: &str) -> (r: Option<u8>)
    ensures
        r == octet_value(s@),
{
    let v = chars_of(s);
    let n = v.len();
    if n < 1 || n > 3 {
        return None;
    }
    for i in 0..n
        invariant
            n == v@.len(),
            v@ == s@,
            forall|j: int| 0 <= j < i ==> is_ascii_digit(#[trigger] v@[j]),
    {
        if !('0' <= v[i] && v[i] <= '9') {
            return None;
        }
    }
    if n > 1 && v[0] == '0' {
        return None;
    }
    let d0 = (v[0] as u32) - ('0' as u32);
    let value: u32 = if n == 1 {
        d0
    } else if n == 2 {
        d0 * 10 + ((v[1] as u32) - ('0' as u32))
    } else {
        d0 * 100 + ((v[1] as u32) - ('0' as u32)) * 10 + ((v[2] as u32) - ('0' as u32))
    };
    if value <= 255 {
        Some(value as u8)
    } else {
        None
    }
}

/// Reads a dotted-quad IPv4 address.
pub fn parse_ipv4(s: &str) -> (r: Option<u32>)
    ensures
        r == ipv4_value(s@),
{
    let parts = split_char(s, '.');
    if parts.len() != 4 {
        return None;
    }
    let ghost ps = split_spec(s@, '.');
    assert(parts@[0]@ == ps[0]);
    assert(parts@[1]@ == ps[1]);
    assert(parts@[2]@ == ps[2]);
    assert(parts@[3]@ == ps[3]);
    let a = parse_octet(parts[0].as_str());
    let b = parse_octet(parts[1].as_str());
    let c = parse_octet(parts[2].as_str());
    let d = parse_octet(parts[3].as_str());
    match (a, b, c, d) {
        (Some(a), Some(b), Some(c), Some(d)) => Some(
            (a as u32) * 16777216 + (b as u32) * 65536 + (c as u32) * 256 + (d as u32),
        ),
        _ => None,
    }
}

/// The dotted-quad text of an address, as `Ipv4Addr` displays it.
pub open spec fn ipv4_text(ip: u32) -> Seq<char> {
    decimal((ip / 16777216) as nat) + "."@ + decimal(((ip / 65536) % 256) as nat) + "."@ + decimal(
        ((ip / 256) % 256) as nat,
    ) + "."@ + decimal((ip % 256) as nat)
}

/// Writes an address as a dotted quad.
pub fn ipv4_to_string(ip: u32) -> (s: String)
    ensures
        s@ == ipv4_text(ip),
{
    let a = u64_to_decimal((ip / 16777216) as u64);
    let b = u64_to_decimal(((ip / 65536) % 256) as u64);
    let c = u64_to_decimal(((ip / 256) % 256) as u64);
    let d = u64_to_decimal((ip % 256) as u64);
    let v = vec![a.as_str(), ".", b.as_str(), ".", c.as_str(), ".", d.as_str()];
    let s = concat_all(&v);
    proof {
        reveal_with_fuel(flatten, 8);
        assert(v@.map_values(|p: &str| p@) =~= seq![a@, "."@, b@, "."@, c@, "."@, d@]);
    }
    s
}

// ---------------------------------------------------------------------------
// Address plan
// ---------------------------------------------------------------------------

/// What `<address>/<prefix length>` reads as, or the error: the text must
/// have exactly one `/`, an IPv4 address before it and a byte after it.
pub open spec fn cidr_value(cidr: Seq<char>) -> Result<(u32, u8), Seq<char>> {
    let parts = split_spec(cidr, '/');
    if parts.len() != 2 {
        Err("Invalid CIDR format: "@ + cidr)
    } else if ipv4_value(parts[0]) is None {
        Err("Invalid IP in CIDR"@)
    } else if crate::validation::parsed_u64(parts[1]) is None || crate::validation::parsed_u64(parts[1])->0 > 255 {
        Err("Invalid prefix in CIDR"@)
    } else {
        Ok((ipv4_value(parts[0])->0, crate::validation::parsed_u64(parts[1])->0 as u8))
    }
}

/// Reads a CIDR block.
pub fn parse_cidr(cidr: &str) -> (r: Result<(u32, u8), String>)
    ensures
        match r {
            Ok(v) => cidr_value(cidr@) == Ok::<(u32, u8), Seq<char>>(v),
            Err(e) => cidr_value(cidr@) == Err::<(u32, u8), Seq<char>>(e@),
        },
{
    let parts = split_char(cidr, '/');
    if parts.len() != 2 {
        return Err(crate::text::concat("Invalid CIDR format: ", cidr));
    }
    assert(parts@[0]@ == split_spec(cidr@, '/')[0]);
    assert(parts@[1]@ == split_spec(cidr@, '/')[1]);
    let ip = match parse_ipv4(parts[0].as_str()) {
        Some(ip) => ip,
        None => {
            return Err("Invalid IP in CIDR".to_owned());
        },
    };
    match crate::validation::parse_u64(parts[1].as_str()) {
        Some(p) => if p <= 255 {
            Ok((ip, p as u8))
        } else {
            Err("Invalid prefix in CIDR".to_owned())
        },
        None => Err("Invalid prefix in CIDR".to_owned()),
    }
}

/// Distance between consecutive subnets carved out of a block with the
/// given prefix: blocks eight bits longer (a /24 out of a /16).
pub open spec fn subnet_step(prefix: u8) -> nat {
    vstd::arithmetic::power2::pow2((32 - (prefix + 8)) as nat)
}

/// Whether `num` subnets fit after `base`: the prefix leaves room for
/// eight more bits, and the address after the last subnet is still an
/// address.
pub open spec fn subnets_fit(base: u32, prefix: u8, num: nat) -> bool {
    &&& prefix <= 24
    &&& base + num * subnet_step(prefix) <= u32::MAX
}

/// The step between subnets.
fn step_for(prefix: u8) -> (s: u32)
    requires
        prefix <= 24,
    ensures
        s == subnet_step(prefix),
        1 <= s,
{
    let shift: u32 = 32 - (prefix as u32 + 8);
    proof {
        vstd::arithmetic::power2::lemma_pow2_pos(shift as nat);
        vstd::arithmetic::power2::lemma_pow2_strictly_increases(shift as nat, 32);
        vstd::arithmetic::power2::lemma2_to64();
        assert(1 * pow2(shift as nat) <= u32::MAX);
        vstd::bits::lemma_u32_shl_is_mul(1, shift);
    }
    1u32 << shift
}

/// `num` consecutive subnets starting at `base`.
pub fn allocate_subnets(base: u32, prefix: u8, num: usize) -> (subnets: Vec<u32>)
    requires
        subnets_fit(base, prefix, num as nat),
    ensures
        subnets@.len() == num,
        forall|i: int| 0 <= i < num ==> subnets@[i] == base + i * subnet_step(prefix),
{
    let step = step_for(prefix);
    let mut subnets: Vec<u32> = Vec::new();
    let mut current = base;
    for i in 0..num
        invariant
            step == subnet_step(prefix),
            subnets_fit(base, prefix, num as nat),
            subnets@.len() == i,
            current == base + i * step,
            forall|k: int| 0 <= k < i ==> subnets@[k] == base + k * subnet_step(prefix),
    {
        subnets.push(current);
        assert(base + (i + 1) * step <= u32::MAX) by (nonlinear_arith)
            requires
                i + 1 <= num,
                base + num * step <= u32::MAX,
                step >= 0;
        assert((i + 1) * step == i * step + step) by (nonlinear_arith);
        current = current + step;
    }
    subnets
}

/// The subnets handed out do not overlap: each block of `subnet_step`
/// addresses ends before the next one starts, so the management block and
/// every team's block are distinct.
pub proof fn lemma_subnets_disjoint(base: u32, prefix: u8, i: int, j: int)
    requires
        0 <= i < j,
    ensures
        base + i * subnet_step(prefix) + subnet_step(prefix) <= base + j * subnet_step(prefix),
{
    assert(i * subnet_step(prefix) + subnet_step(prefix) <= j * subnet_step(prefix)) by (nonlinear_arith)
        requires
            i < j,
            subnet_step(prefix) >= 0;
}

/// The subnets of a competition: management first, then one per team.
pub struct NetworkConfig {
    pub mgmt_subnet: u32,
    pub team_subnets: Vec<u32>,
}

impl NetworkConfig {
    /// The address plan for `num_teams` teams inside `cidr`.
    pub fn new(cidr: &str, num_teams: usize) -> (r: Result<NetworkConfig, String>)
        requires
            cidr_value(cidr@) matches Ok(v) ==> subnets_fit(v.0, v.1, (num_teams + 1) as nat),
        ensures
            match cidr_value(cidr@) {
                Err(e) => r matches Err(m) && m@ == e,
                Ok(v) => r matches Ok(n) && n.mgmt_subnet == v.0 && n.team_subnets@.len() == num_teams
                    && forall|i: int| 0 <= i < num_teams ==> n.team_subnets@[i] == v.0 + (i + 1) * subnet_step(v.1),
            },
    {
        let (base, prefix) = match parse_cidr(cidr) {
            Ok(v) => v,
            Err(e) => {
                return Err(e);
            },
        };
        assert(num_teams < usize::MAX) by {
            assert(subnets_fit(base, prefix, (num_teams + 1) as nat));
            vstd::arithmetic::power2::lemma_pow2_pos((32 - (prefix + 8)) as nat);
            assert((num_teams + 1) * subnet_step(prefix) >= num_teams + 1) by (nonlinear_arith)
                requires
                    subnet_step(prefix) >= 1;
        }
        let mut subnets = allocate_subnets(base, prefix, num_teams + 1);
        let mgmt = subnets.remove(0);
        assert forall|i: int| 0 <= i < num_teams implies subnets@[i] == base + (i + 1) * subnet_step(prefix) by {
        }
        Ok(NetworkConfig { mgmt_subnet: mgmt, team_subnets: subnets })
    }
}

/// The gateway of a subnet: its first host address.
pub fn gateway_of(subnet: u32) -> (g: u32)
    requires
        subnet < u32::MAX,
    ensures
        g == subnet + 1,
{
    subnet + 1
}

// ---------------------------------------------------------------------------
// Interfaces and records of the tunnel endpoint
// ---------------------------------------------------------------------------

/// The VXLAN id of the management network.
pub const MGMT_VXLAN_ID: u32 = 1337;

/// The VXLAN id of the first team's network; the others follow.
pub const FIRST_TEAM_VXLAN_ID: u32 = 1338;

/// The VXLAN id of the team at position `team_index`.
pub fn team_vxlan_id(team_index: usize) -> (id: u32)
    requires
        team_index <= u32::MAX - FIRST_TEAM_VXLAN_ID,
    ensures
        id == FIRST_TEAM_VXLAN_ID + team_index,
{
    FIRST_TEAM_VXLAN_ID + team_index as u32
}

/// `<prefix><a>` with `a` in decimal.
fn name_with_index(prefix: &str, a: usize) -> (s: String)
    ensures
        s@ == prefix@ + decimal(a as nat),
{
    let d = u64_to_decimal(a as u64);
    concat(prefix, d.as_str())
}

/// `<prefix><a>_<b>` with `a` and `b` in decimal.
fn name_with_indices(prefix: &str, a: usize, b: usize) -> (s: String)
    ensures
        s@ == prefix@ + decimal(a as nat) + "_"@ + decimal(b as nat),
{
    let da = u64_to_decimal(a as u64);
    let db = u64_to_decimal(b as u64);
    let v = vec![prefix, da.as_str(), "_", db.as_str()];
    let s = concat_all(&v);
    proof {
        reveal_with_fuel(flatten, 5);
        assert(v@.map_values(|p: &str| p@) =~= seq![prefix@, da@, "_"@, db@]);
    }
    s
}

/// The management VXLAN interface of a competition: `vxlan_mgmt_<n>`.
pub fn mgmt_vxlan_name(competition_index: usize) -> (s: String)
    ensures
        s@ == "vxlan_mgmt_"@ + decimal(competition_index as nat),
{
    name_with_index("vxlan_mgmt_", competition_index)
}

/// A team's VXLAN interface: `vxlan_<competition>_<team>`.
pub fn team_vxlan_name(competition_index: usize, team_index: usize) -> (s: String)
    ensures
        s@ == "vxlan_"@ + decimal(competition_index as nat) + "_"@ + decimal(team_index as nat),
{
    name_with_indices("vxlan_", competition_index, team_index)
}

/// A team's bridge: `br_<competition>_<team>`.
pub fn team_bridge_name(competition_index: usize, team_index: usize) -> (s: String)
    ensures
        s@ == "br_"@ + decimal(competition_index as nat) + "_"@ + decimal(team_index as nat),
{
    name_with_indices("br_", competition_index, team_index)
}

/// An address with a /24 prefix length: `<a.b.c.d>/24`.
pub fn address_slash_24(ip: u32) -> (s: String)
    ensures
        s@ == ipv4_text(ip) + "/24"@,
{
    let t = ipv4_to_string(ip);
    concat(t.as_str(), "/24")
}

/// A subnet record: `<subnet>/24,<name>,<vxlan id>`.
pub open spec fn subnet_record(subnet: u32, name: Seq<char>, vxlan_id: nat) -> Seq<char> {
    ipv4_text(subnet) + "/24,"@ + name + ","@ + decimal(vxlan_id)
}

/// The record of one subnet.
fn subnet_record_text(subnet: u32, name: &str, vxlan_id: u32) -> (s: String)
    ensures
        s@ == subnet_record(subnet, name@, vxlan_id as nat),
{
    let ip = ipv4_to_string(subnet);
    let id = u64_to_decimal(vxlan_id as u64);
    let v = vec![ip.as_str(), "/24,", name, ",", id.as_str()];
    let s = concat_all(&v);
    proof {
        reveal_with_fuel(flatten, 6);
        assert(v@.map_values(|p: &str| p@) =~= seq![ip@, "/24,"@, name@, ","@, id@]);
    }
    s
}

/// The subnet records stored for a competition, in the order they are
/// written: management first, then each team with its VXLAN id (a later
/// record replaces an earlier one of the same name).
pub open spec fn subnet_records(mgmt: u32, teams: Seq<Team>, subnets: Seq<u32>) -> Seq<(Seq<char>, Seq<char>)> {
    seq![("MGMT"@, subnet_record(mgmt, "MGMT"@, MGMT_VXLAN_ID as nat))] + Seq::new(
        teams.len(),
        |i: int| (teams[i].name@, subnet_record(subnets[i], teams[i].name@, (FIRST_TEAM_VXLAN_ID + i) as nat)),
    )
}

/// The subnet records of a competition.
pub fn subnet_entries(mgmt: u32, teams: &Vec<Team>, subnets: &Vec<u32>) -> (r: Vec<(String, String)>)
    requires
        teams@.len() == subnets@.len(),
        teams@.len() <= u32::MAX - FIRST_TEAM_VXLAN_ID,
    ensures
        crate::text::pairs_view(r@) == subnet_records(mgmt, teams@, subnets@),
{
    let mut r: Vec<(String, String)> = Vec::new();
    r.push(("MGMT".to_owned(), subnet_record_text(mgmt, "MGMT", MGMT_VXLAN_ID)));
    let n = teams.len();
    for i in 0..n
        invariant
            n == teams@.len(),
            teams@.len() == subnets@.len(),
            n <= u32::MAX - FIRST_TEAM_VXLAN_ID,
            r@.len() == i + 1,
            crate::text::pairs_view(r@)[0] == ("MGMT"@, subnet_record(mgmt, "MGMT"@, MGMT_VXLAN_ID as nat)),
            forall|k: int| 0 <= k < i ==> crate::text::pairs_view(r@)[k + 1] == (
                teams@[k].name@,
                subnet_record(subnets@[k], teams@[k].name@, (FIRST_TEAM_VXLAN_ID + k) as nat),
            ),
    {
        let id = team_vxlan_id(i);
        let rec = subnet_record_text(subnets[i], teams[i].name.as_str(), id);
        r.push((teams[i].name.clone(), rec));
    }
    assert(crate::text::pairs_view(r@) =~= subnet_records(mgmt, teams@, subnets@));
    r
}

/// The rule that masquerades traffic leaving through a team's bridge.
pub fn snat_rule(bridge_name: &str) -> (s: String)
    ensures
        s@ == "-o "@ + bridge_name@ + " -j MASQUERADE"@,
{
    concat3("-o ", bridge_name, " -j MASQUERADE")
}

/// The rule that resets the TTL of traffic entering from a team's bridge.
pub fn ttl_rule(bridge_name: &str) -> (s: String)
    ensures
        s@ == "-i "@ + bridge_name@ + " -j TTL --ttl-set 64"@,
{
    concat3("-i ", bridge_name, " -j TTL --ttl-set 64")
}

/// The rule that gives boxes internet access before the competition.
pub fn outbound_nat_rule() -> (s: &'static str)
    ensures
        s@ == "-o eth0 -j MASQUERADE"@,
{
    "-o eth0 -j MASQUERADE"
}

/// The address of the first line of `ip -4 addr show` output that
/// contains `inet `: its second whitespace-separated field, up to a `/`.
pub open spec fn inet_address(output: Seq<char>) -> Option<Seq<char>> {
    let lines = split_spec(output, '\n');
    if exists|i: int| 0 <= i < lines.len() && contains_seq(#[trigger] lines[i], "inet "@) {
        let i = choose|i: int|
            0 <= i < lines.len() && contains_seq(lines[i], "inet "@) && forall|j: int|
                0 <= j < i ==> !contains_seq(#[trigger] lines[j], "inet "@);
        let fields = ws_tokens(lines[i]);
        if fields.len() >= 2 {
            Some(split_spec(fields[1], '/')[0])
        } else {
            None
        }
    } else {
        None
    }
}

/// Reads the interface address out of `ip -4 addr show dev eth0`.
pub fn inet_address_of(output: &str) -> (r: Option<String>)
    ensures
        opt_str(r) == inet_address(output@),
{
    let lines = split_char(output, '\n');
    let ghost ls = split_spec(output@, '\n');
    let n = lines.len();
    proof { reveal_strlit("inet "); }
    for i in 0..n
        invariant
            n == lines@.len(),
            lines@.map_values(|p: String| p@) == ls,
            ls == split_spec(output@, '\n'),
            forall|j: int| 0 <= j < i ==> !contains_seq(#[trigger] ls[j], "inet "@),
    {
        assert(lines@[i as int]@ == ls[i as int]);
        if contains(lines[i].as_str(), "inet ") {
            let ghost w = choose|k: int|
                0 <= k < ls.len() && contains_seq(ls[k], "inet "@) && forall|j: int|
                    0 <= j < k ==> !contains_seq(#[trigger] ls[j], "inet "@);
            assert(w == i) by {
                assert(0 <= i < ls.len() && contains_seq(ls[i as int], "inet "@) && forall|j: int|
                    0 <= j < i ==> !contains_seq(#[trigger] ls[j], "inet "@));
                if w < i {
                } else if w > i {
                }
            }
            let fields = split_whitespace(lines[i].as_str());
            if fields.len() >= 2 {
                let pieces = split_char(fields[1].as_str(), '/');
                assert(fields@[1]@ == ws_tokens(ls[i as int])[1]);
                assert(pieces@[0]@ == split_spec(fields@[1]@, '/')[0]);
                return Some(pieces[0].clone());
            } else {
                return None;
            }
        }
    }
    None
}

// ---------------------------------------------------------------------------
// Forwarding entries
// ---------------------------------------------------------------------------

/// The all-zero MAC address used for flooding.
pub open spec fn broadcast_mac() -> Seq<char> {
    "00:00:00:00:00:00"@
}

/// The forwarding entries the tunnel endpoint appends for a team's known
/// MAC addresses, skipping its own: for each other MAC its entry, then the
/// flooding entry to the same endpoint.
pub open spec fn endpoint_appends(entries: Seq<(Seq<char>, Seq<char>)>, own_mac: Seq<char>) -> Seq<(Seq<char>, Seq<char>)>
    decreases entries.len(),
{
    if entries.len() == 0 {
        Seq::empty()
    } else {
        let rest = endpoint_appends(entries.drop_last(), own_mac);
        let (mac, addr) = entries.last();
        if mac == own_mac {
            rest
        } else {
            rest + seq![(mac, addr), (broadcast_mac(), addr)]
        }
    }
}

/// The forwarding entries to append on the tunnel endpoint.
pub fn endpoint_fdb_appends(entries: &Vec<(String, String)>, own_mac: &str) -> (r: Vec<(String, String)>)
    ensures
        crate::text::pairs_view(r@) == endpoint_appends(crate::text::pairs_view(entries@), own_mac@),
{
    let ghost all = crate::text::pairs_view(entries@);
    let mut r: Vec<(String, String)> = Vec::new();
    let n = entries.len();
    for i in 0..n
        invariant
            n == entries@.len(),
            all == crate::text::pairs_view(entries@),
            crate::text::pairs_view(r@) == endpoint_appends(all.take(i as int), own_mac@),
    {
        assert(all.take(i + 1).drop_last() =~= all.take(i as int));
        assert(all.take(i + 1).last() == all[i as int]);
        let (mac, addr) = (&entries[i].0, &entries[i].1);
        if !str_eq(mac.as_str(), own_mac) {
            let ghost before = crate::text::pairs_view(r@);
            r.push((mac.clone(), addr.clone()));
            r.push(("00:00:00:00:00:00".to_owned(), addr.clone()));
            assert(crate::text::pairs_view(r@) =~= before + seq![(mac@, addr@), (broadcast_mac(), addr@)]);
        }
    }
    assert(all.take(n as int) =~= all);
    r
}

/// The address at which a team's tunnel endpoint is reached:
/// `<host>:4789`.
pub fn vtep_endpoint(host: &str) -> (s: String)
    ensures
        s@ == host@ + ":4789"@,
{
    concat(host, ":4789")
}

/// The name of the sidecar of a team's box: `vxlan-sidecar-<team>-<box>`.
pub open spec fn sidecar_host_text(team_name: Seq<char>, box_name: Seq<char>) -> Seq<char> {
    "vxlan-sidecar-"@ + team_name + "-"@ + box_name
}

/// The host name of a box's sidecar.
pub fn sidecar_host(team_name: &str, box_name: &str) -> (s: String)
    ensures
        s@ == sidecar_host_text(team_name@, box_name@),
{
    let v = vec!["vxlan-sidecar-", team_name, "-", box_name];
    let s = concat_all(&v);
    proof {
        reveal_with_fuel(flatten, 5);
        assert(v@.map_values(|p: &str| p@) =~= seq!["vxlan-sidecar-"@, team_name@, "-"@, box_name@]);
    }
    s
}

/// The VXLAN id of a box's sidecar: that of the team called exactly
/// `team_name`, if there is one.
pub fn sidecar_vxlan_id(competition: &Competition, team_name: &str) -> (r: Option<u32>)
    requires
        competition.teams@.len() <= u32::MAX - FIRST_TEAM_VXLAN_ID,
    ensures
        match r {
            Some(id) => exists|i: int|
                0 <= i < competition.teams@.len() && competition.teams@[i].name@ == team_name@
                    && (forall|j: int| 0 <= j < i ==> competition.teams@[j].name@ != team_name@)
                    && id == FIRST_TEAM_VXLAN_ID + i,
            None => forall|j: int| 0 <= j < competition.teams@.len() ==> competition.teams@[j].name@ != team_name@,
        },
{
    let n = competition.teams.len();
    for i in 0..n
        invariant
            n == competition.teams@.len(),
            n <= u32::MAX - FIRST_TEAM_VXLAN_ID,
            forall|j: int| 0 <= j < i ==> competition.teams@[j].name@ != team_name@,
    {
        if str_eq(competition.teams[i].name.as_str(), team_name) {
            return Some(team_vxlan_id(i));
        }
    }
    None
}

/// The endpoint a sidecar floods to: the configured tunnel host, else the
/// local host.
pub fn sidecar_remote(competition: &Competition) -> (s: String)
    ensures
        s@ == (match competition.vtep_host {
            Some(h) => h@,
            None => "127.0.0.1"@,
        }),
{
    match &competition.vtep_host {
        Some(h) => h.clone(),
        None => "127.0.0.1".to_owned(),
    }
}

/// A sidecar skips the forwarding entry that points at itself.
pub fn skip_own_entry(entry_ip: &str, own_ip: Option<&str>) -> (r: bool)
    ensures
        r == (own_ip matches Some(o) && o@ == entry_ip@),
{
    match own_ip {
        Some(o) => str_eq(o, entry_ip),
        None => false,
    }
}

/// A sidecar renews its flooding entry when the tunnel host's address
/// changed (or was never known).
pub fn remote_changed(last: Option<u32>, current: u32) -> (r: bool)
    ensures
        r == (last != Some(current)),
{
    match last {
        Some(prev) => prev != current,
        None => true,
    }
}

} // verus!
