use carve::checks::{
    evaluate_http_response, evaluate_nix, evaluate_ping, evaluate_ssh, http_body, http_content_type, http_url,
    nix_preload_packages, nix_run_command, nix_script_with_hostname, ssh_address, ssh_login, NixRun, SshLogin,
};
use carve::config::{HttpCheckSpec, HttpMethods, NixCheckSpec, SshCheckSpec};

fn http(regex: &str) -> HttpCheckSpec {
    HttpCheckSpec {
        url: "/status".to_string(),
        code: 200,
        regex: regex.to_string(),
        method: HttpMethods::Get,
        forms: None,
    }
}

#[test]
fn http_requests() {
    let spec = http("online");
    assert_eq!(http_url("10.0.0.5", &spec), "http://10.0.0.5/status");
    assert_eq!(http_content_type(HttpMethods::Post), "application/x-www-form-urlencoded");
    assert_eq!(http_content_type(HttpMethods::Get), "application/json");
    assert_eq!(http_body(&spec), "");
    let mut with_form = spec.clone();
    with_form.forms = Some("a=1".to_string());
    assert_eq!(http_body(&with_form), "a=1");
}

#[test]
fn http_answers_are_judged_by_status_then_body() {
    let spec = http("on+line");
    assert_eq!(
        evaluate_http_response(&spec, "http://h/status", 500, "online"),
        Err("HTTP status code mismatch: expected 200, got 500".to_string())
    );
    assert_eq!(
        evaluate_http_response(&spec, "http://h/status", 200, "offline"),
        Err("Response body does not match regex: on+line".to_string())
    );
    assert_eq!(
        evaluate_http_response(&spec, "http://h/status", 200, "we are onnnline"),
        Ok("HTTP check successful: http://h/status".to_string())
    );
    assert_eq!(
        evaluate_http_response(&http("(unclosed"), "http://h/status", 200, "x"),
        Err("Invalid regex pattern".to_string())
    );
}

#[test]
fn pings() {
    assert_eq!(evaluate_ping("h", true, 0), Ok("ICMP check successful: h".to_string()));
    assert_eq!(evaluate_ping("h", false, 1), Ok("ICMP check successful: h".to_string()));
    assert_eq!(evaluate_ping("h", false, 0), Err("ICMP check failed: expected code 0, got 1".to_string()));
    assert_eq!(evaluate_ping("h", true, 3), Err("ICMP check failed: expected code 3, got 0".to_string()));
}

#[test]
fn ssh_logins_prefer_the_password() {
    let mut spec = SshCheckSpec {
        port: 22,
        username: "root".to_string(),
        password: Some("pw".to_string()),
        key_path: Some("/k".to_string()),
    };
    assert!(matches!(ssh_login(&spec), Ok(SshLogin::Password(p)) if p == "pw"));
    spec.password = None;
    assert!(matches!(ssh_login(&spec), Ok(SshLogin::KeyFile(k)) if k == "/k"));
    spec.key_path = None;
    assert!(matches!(ssh_login(&spec), Err(e) if e == "No SSH authentication method provided"));
    assert_eq!(ssh_address("h", 2222), "h:2222");
    assert_eq!(evaluate_ssh("h", 22, true), Ok("SSH check successful: h:22".to_string()));
    assert_eq!(evaluate_ssh("h", 22, false), Err("SSH authentication failed".to_string()));
}

#[test]
fn nix_checks() {
    let spec = NixCheckSpec { script: "curl -s".to_string(), packages: None, timeout: 10 };
    let with_host = nix_script_with_hostname(&spec, "10.0.0.5");
    assert_eq!(with_host, "curl -s 10.0.0.5");
    assert_eq!(nix_run_command(&with_host), "bash -c 'curl -s 10.0.0.5'");
    assert_eq!(nix_preload_packages(&spec), vec!["nixpkgs".to_string()]);
    let spec2 = NixCheckSpec { packages: Some(vec!["curl".to_string(), "jq".to_string()]), ..spec };
    assert_eq!(nix_preload_packages(&spec2), vec!["curl".to_string(), "jq".to_string()]);
    assert_eq!(evaluate_nix(NixRun::TimedOut), Err("Nix check command timed out".to_string()));
    assert_eq!(
        evaluate_nix(NixRun::LaunchFailed),
        Err("Nix check command failed: Failed to execute Nix check command".to_string())
    );
    assert_eq!(
        evaluate_nix(NixRun::Finished { success: true, stdout: "ok\n".to_string(), stderr: "".to_string() }),
        Ok("Nix check successful: ok\n".to_string())
    );
    assert_eq!(
        evaluate_nix(NixRun::Finished { success: false, stdout: "".to_string(), stderr: "boom".to_string() }),
        Err("Nix check failed: boom".to_string())
    );
}
