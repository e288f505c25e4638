use carve::console::{choose_resolver, nameserver_of, nginx_config};

#[test]
fn the_first_nameserver_line_names_the_resolver() {
    assert_eq!(nameserver_of("# generated\nsearch local\nnameserver 10.96.0.10\nnameserver 8.8.8.8\n"), Ok(Some("10.96.0.10".to_string())));
    assert_eq!(nameserver_of("search local\n"), Ok(None));
    assert_eq!(nameserver_of("nameserver\nnameserver 1.1.1.1"), Err(()));
    assert_eq!(nameserver_of(" nameserver 1.1.1.1"), Ok(None));
}

#[test]
fn the_upstream_service_wins_over_resolv_conf() {
    assert_eq!(choose_resolver(Some("dns.svc".to_string()), Some("1.1.1.1".to_string())), "dns.svc");
    assert_eq!(choose_resolver(None, Some("1.1.1.1".to_string())), "1.1.1.1");
    assert_eq!(choose_resolver(None, None), "");
}

fn location(kind: &str, port: &str, code: &str, team: &str, b: &str, r: &str) -> String {
    format!(
        "location /{kind}/{code}/{team}-{b} {{ resolver {r} valid=10s; error_log /var/log/nginx/{kind}.log notice; proxy_pass http://vxlan-sidecar-{team}-{b}:{port}; rewrite_log on; rewrite ^/{kind}/{code}/{team}-{b}(/.*)?$ /$1 break; proxy_http_version 1.1; proxy_set_header Upgrade $http_upgrade; proxy_set_header Connection $connection_upgrade; proxy_set_header Host $host; proxy_set_header X-Real-IP $remote_addr; proxy_set_header X-Forwarded-For $proxy_add_x_forwarded_for; proxy_set_header X-Forwarded-Proto $scheme; proxy_set_header Cf-Connecting-Ip \"\"; proxy_set_header Cf-Pseudo-IPv4 \"\"; proxy_set_header Cf-Connecting-Ipv6 \"\"; proxy_set_header X-Original-Forwarded-For \"\"; }}\n"
    )
}

#[test]
fn each_box_gets_a_vnc_and_a_terminal_location() {
    let head = "# Nginx configuration for Carve competition\n\
    map $http_upgrade $connection_upgrade { \
        default upgrade; \
        '' close; \
}\n \
 \
server { \
        listen  80 default_server; \
        keepalive_timeout       70;";
    let config = nginx_config(
        &vec!["c0de".to_string(), "k3y".to_string()],
        &vec!["red".to_string(), "blue".to_string()],
        &vec!["web".to_string(), "db".to_string()],
        "10.96.0.10",
    );
    let mut expected = head.to_string();
    for (code, team) in [("c0de", "red"), ("k3y", "blue")] {
        for b in ["web", "db"] {
            expected += &location("novnc", "5700", code, team, b, "10.96.0.10");
            expected += &location("xtermjs", "9999", code, team, b, "10.96.0.10");
        }
    }
    expected += "}\n";
    assert_eq!(config, expected);
    assert_eq!(nginx_config(&vec![], &vec![], &vec!["web".to_string()], "r"), format!("{}}}\n", head));
}
