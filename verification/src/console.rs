//! The reverse proxy in front of the boxes' consoles: which DNS server it
//! asks and the nginx configuration that routes each team's console code
//! to its boxes.
use vstd::prelude::*;
use crate::model::opt_str;
use crate::text::{concat_all, flatten, has_prefix, split_char, split_spec, split_whitespace, starts_with, ws_tokens};

verus! {

/// What the first `nameserver` line of a resolver file gives: `Ok(Some)`
/// with its second field, `Err` when that line has none, `Ok(None)` when
/// there is no such line.
pub open spec fn first_nameserver(contents: Seq<char>) -> Result<Option<Seq<char>>, ()> {
    let lines = split_spec(contents, '\n');
    if exists|i: int| 0 <= i < lines.len() && has_prefix(#[trigger] lines[i], "nameserver"@) {
        let i = choose|i: int|
            0 <= i < lines.len() && has_prefix(lines[i], "nameserver"@) && forall|j: int|
                0 <= j < i ==> !has_prefix(#[trigger] lines[j], "nameserver"@);
        let fields = ws_tokens(lines[i]);
        if fields.len() >= 2 {
            Ok(Some(fields[1]))
        } else {
            Err(())
        }
    } else {
        Ok(None)
    }
}

/// Reads the name server out of `/etc/resolv.conf`.
pub fn nameserver_of(contents: &str) -> (r: Result<Option<String>, ()>)
    ensures
        match first_nameserver(contents@) {
            Ok(Some(ns)) => r matches Ok(Some(s)) && s@ == ns,
            Ok(None) => r matches Ok(None),
            Err(()) => r is Err,
        },
{
    let lines = split_char(contents, '\n');
    let ghost ls = split_spec(contents@, '\n');
    let n = lines.len();
    proof { reveal_strlit("nameserver"); }
    for i in 0..n
        invariant
            n == lines@.len(),
            lines@.map_values(|p: String| p@) == ls,
            ls == split_spec(contents@, '\n'),
            forall|j: int| 0 <= j < i ==> !has_prefix(#[trigger] ls[j], "nameserver"@),
    {
        assert(lines@[i as int]@ == ls[i as int]);
        if starts_with(lines[i].as_str(), "nameserver") {
            let ghost w = choose|k: int|
                0 <= k < ls.len() && has_prefix(ls[k], "nameserver"@) && forall|j: int|
                    0 <= j < k ==> !has_prefix(#[trigger] ls[j], "nameserver"@);
            assert(w == i) by {
                assert(0 <= i < ls.len() && has_prefix(ls[i as int], "nameserver"@) && forall|j: int|
                    0 <= j < i ==> !has_prefix(#[trigger] ls[j], "nameserver"@));
                if w < i {
                } else if w > i {
                }
            }
            let fields = split_whitespace(lines[i].as_str());
            if fields.len() >= 2 {
                return Ok(Some(fields[1].clone()));
            } else {
                return Err(());
            }
        }
    }
    Ok(None)
}

/// The DNS server the proxy asks: the configured upstream service, else
/// what the resolver file names, else none (empty).
pub fn choose_resolver(upstream: Option<String>, from_resolv_conf: Option<String>) -> (s: String)
    ensures
        s@ == (match upstream {
            Some(u) => u@,
            None => match from_resolv_conf {
                Some(r) => r@,
                None => Seq::<char>::empty(),
            },
        }),
{
    match upstream {
        Some(u) => u,
        None => match from_resolv_conf {
            Some(r) => r,
            None => String::new(),
        },
    }
}

/// The start of the configuration: the WebSocket upgrade map and the
/// opening of the server block.
pub open spec fn config_head() -> Seq<char> {
    "# Nginx configuration for Carve competition\nmap $http_upgrade $connection_upgrade { default upgrade; '' close; }\n server { listen  80 default_server; keepalive_timeout       70;"@
}

/// The headers every console location sets.
pub open spec fn proxy_headers() -> Seq<char> {
    "proxy_http_version 1.1; proxy_set_header Upgrade $http_upgrade; proxy_set_header Connection $connection_upgrade; proxy_set_header Host $host; proxy_set_header X-Real-IP $remote_addr; proxy_set_header X-Forwarded-For $proxy_add_x_forwarded_for; proxy_set_header X-Forwarded-Proto $scheme; proxy_set_header Cf-Connecting-Ip \"\"; proxy_set_header Cf-Pseudo-IPv4 \"\"; proxy_set_header Cf-Connecting-Ipv6 \"\"; proxy_set_header X-Original-Forwarded-For \"\"; }\n"@
}

/// One location: `/<kind>/<code>/<team>-<box>` proxied to the box's sidecar
/// on `port`, with the prefix removed.
#[verifier::opaque]
pub open spec fn location_block(
    kind: Seq<char>,
    port: Seq<char>,
    code: Seq<char>,
    team: Seq<char>,
    box_name: Seq<char>,
    resolver: Seq<char>,
) -> Seq<char> {
    "location /"@ + kind + "/"@ + code + "/"@ + team + "-"@ + box_name + " { resolver "@ + resolver
        + " valid=10s; error_log /var/log/nginx/"@ + kind + ".log notice; proxy_pass http://vxlan-sidecar-"@ + team
        + "-"@ + box_name + ":"@ + port + "; rewrite_log on; rewrite ^/"@ + kind + "/"@ + code + "/"@ + team
        + "-"@ + box_name + "(/.*)?$ /$1 break; "@ + proxy_headers()
}

/// The two locations of a box: its VNC console and its terminal.
pub open spec fn box_locations(code: Seq<char>, team: Seq<char>, box_name: Seq<char>, resolver: Seq<char>) -> Seq<char> {
    location_block("novnc"@, "5700"@, code, team, box_name, resolver) + location_block(
        "xtermjs"@,
        "9999"@,
        code,
        team,
        box_name,
        resolver,
    )
}

/// The locations of one team, box after box.
pub open spec fn team_locations(code: Seq<char>, team: Seq<char>, boxes: Seq<Seq<char>>, resolver: Seq<char>) -> Seq<char>
    decreases boxes.len(),
{
    if boxes.len() == 0 {
        Seq::empty()
    } else {
        team_locations(code, team, boxes.drop_last(), resolver) + box_locations(code, team, boxes.last(), resolver)
    }
}

/// The locations of every team, team after team.
pub open spec fn all_locations(
    codes: Seq<Seq<char>>,
    teams: Seq<Seq<char>>,
    boxes: Seq<Seq<char>>,
    resolver: Seq<char>,
) -> Seq<char>
    decreases teams.len(),
{
    if teams.len() == 0 {
        Seq::empty()
    } else {
        all_locations(codes, teams.drop_last(), boxes, resolver) + team_locations(
            codes[teams.len() - 1],
            teams.last(),
            boxes,
            resolver,
        )
    }
}

/// The whole configuration.
pub open spec fn nginx_text(
    codes: Seq<Seq<char>>,
    teams: Seq<Seq<char>>,
    boxes: Seq<Seq<char>>,
    resolver: Seq<char>,
) -> Seq<char> {
    config_head() + all_locations(codes, teams, boxes, resolver) + "}\n"@
}

/// Appends one location.
fn push_location(config: &mut String, kind: &str, port: &str, code: &str, team: &str, box_name: &str, resolver: &str)
    ensures
        final(config)@ == old(config)@ + location_block(kind@, port@, code@, team@, box_name@, resolver@),
{
    let v = vec![
        "location /", kind, "/", code, "/", team, "-", box_name, " { resolver ", resolver,
        " valid=10s; error_log /var/log/nginx/", kind, ".log notice; proxy_pass http://vxlan-sidecar-", team, "-",
        box_name, ":", port, "; rewrite_log on; rewrite ^/", kind, "/", code, "/", team, "-", box_name,
        "(/.*)?$ /$1 break; ",
        "proxy_http_version 1.1; proxy_set_header Upgrade $http_upgrade; proxy_set_header Connection $connection_upgrade; proxy_set_header Host $host; proxy_set_header X-Real-IP $remote_addr; proxy_set_header X-Forwarded-For $proxy_add_x_forwarded_for; proxy_set_header X-Forwarded-Proto $scheme; proxy_set_header Cf-Connecting-Ip \"\"; proxy_set_header Cf-Pseudo-IPv4 \"\"; proxy_set_header Cf-Connecting-Ipv6 \"\"; proxy_set_header X-Original-Forwarded-For \"\"; }\n",
    ];
    let block = concat_all(&v);
    proof {
        reveal(location_block);
        reveal_with_fuel(flatten, 29);
        assert(v@.map_values(|p: &str| p@) =~= seq![
            "location /"@, kind@, "/"@, code@, "/"@, team@, "-"@, box_name@, " { resolver "@, resolver@,
            " valid=10s; error_log /var/log/nginx/"@, kind@, ".log notice; proxy_pass http://vxlan-sidecar-"@,
            team@, "-"@, box_name@, ":"@, port@, "; rewrite_log on; rewrite ^/"@, kind@, "/"@, code@, "/"@, team@,
            "-"@, box_name@, "(/.*)?$ /$1 break; "@, proxy_headers(),
        ]);
    }
    config.append(block.as_str());
}

/// Appends both locations of a box.
fn push_box_locations(config: &mut String, code: &str, team: &str, box_name: &str, resolver: &str)
    ensures
        final(config)@ == old(config)@ + box_locations(code@, team@, box_name@, resolver@),
{
    push_location(config, "novnc", "5700", code, team, box_name, resolver);
    push_location(config, "xtermjs", "9999", code, team, box_name, resolver);
    assert(config@ =~= old(config)@ + box_locations(code@, team@, box_name@, resolver@));
}

/// The nginx configuration routing `/novnc/<code>/<team>-<box>` and
/// `/xtermjs/<code>/<team>-<box>` to each team's boxes; `codes[i]` is the
/// console code of team `i`.
pub fn nginx_config(codes: &Vec<String>, teams: &Vec<String>, boxes: &Vec<String>, resolver: &str) -> (s: String)
    requires
        codes@.len() == teams@.len(),
    ensures
        s@ == nginx_text(
            codes@.map_values(|c: String| c@),
            teams@.map_values(|t: String| t@),
            boxes@.map_values(|b: String| b@),
            resolver@,
        ),
{
    let ghost cs = codes@.map_values(|c: String| c@);
    let ghost ts = teams@.map_values(|t: String| t@);
    let ghost bs = boxes@.map_values(|b: String| b@);
    let mut config = "# Nginx configuration for Carve competition\nmap $http_upgrade $connection_upgrade { default upgrade; '' close; }\n server { listen  80 default_server; keepalive_timeout       70;".to_owned();
    let nt = teams.len();
    let nb = boxes.len();
    assert(ts.take(0) =~= Seq::<Seq<char>>::empty());
    for i in 0..nt
        invariant
            nt == teams@.len(),
            nb == boxes@.len(),
            codes@.len() == teams@.len(),
            cs == codes@.map_values(|c: String| c@),
            ts == teams@.map_values(|t: String| t@),
            bs == boxes@.map_values(|b: String| b@),
            config@ == config_head() + all_locations(cs, ts.take(i as int), bs, resolver@),
    {
        let ghost before = config@;
        assert(bs.take(0) =~= Seq::<Seq<char>>::empty());
        assert(before + team_locations(cs[i as int], ts[i as int], bs.take(0), resolver@) =~= before);
        for j in 0..nb
            invariant
                nb == boxes@.len(),
                i < nt,
                nt == teams@.len(),
                codes@.len() == teams@.len(),
                cs == codes@.map_values(|c: String| c@),
                ts == teams@.map_values(|t: String| t@),
                bs == boxes@.map_values(|b: String| b@),
                config@ == before + team_locations(cs[i as int], ts[i as int], bs.take(j as int), resolver@),
        {
            let code = codes[i].as_str();
            let team = teams[i].as_str();
            let b = boxes[j].as_str();
            assert(bs.take(j + 1).drop_last() =~= bs.take(j as int));
            push_box_locations(&mut config, code, team, b, resolver);
            assert(config@ =~= before + team_locations(cs[i as int], ts[i as int], bs.take(j + 1), resolver@));
        }
        assert(bs.take(nb as int) =~= bs);
        assert(ts.take(i + 1).drop_last() =~= ts.take(i as int));
        assert(ts.take(i + 1).last() == ts[i as int]);
        assert(config@ =~= config_head() + all_locations(cs, ts.take(i + 1), bs, resolver@));
    }
    assert(ts.take(nt as int) =~= ts);
    config.append("}\n");
    config
}

} // verus!
