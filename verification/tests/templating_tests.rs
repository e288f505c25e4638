use carve::config::{CheckSpec, HttpCheckSpec, HttpMethods, IcmpCheckSpec, NixCheckSpec, SshCheckSpec};
use carve::templating::{apply_template_substitution, apply_template_to_string, template_vars};

fn vars() -> Vec<(String, String)> {
    template_vars("red", "web", "ctf", "10.0.1.5", "admin", "s3cret")
}

#[test]
fn the_six_variables_are_named() {
    let names: Vec<String> = vars().into_iter().map(|(k, _)| k).collect();
    assert_eq!(names, vec!["team_name", "box_name", "competition_name", "ip_address", "username", "password"]);
}

#[test]
fn strings_are_rendered_with_minijinja() {
    assert_eq!(
        apply_template_to_string("http://{{ ip_address }}/{{ team_name }}", &vars()),
        Ok("http://10.0.1.5/red".to_string())
    );
    assert_eq!(apply_template_to_string("plain", &vars()), Ok("plain".to_string()));
    assert!(apply_template_to_string("{{ unclosed", &vars()).is_err());
}

#[test]
fn check_specs_are_templated_field_by_field() {
    let spec = CheckSpec::Http(HttpCheckSpec {
        url: "/{{ box_name }}".to_string(),
        code: 200,
        regex: "{{ competition_name }}".to_string(),
        method: HttpMethods::Post,
        forms: Some("user={{ username }}&pw={{ password }}".to_string()),
    });
    match apply_template_substitution(&spec, &vars()).unwrap() {
        CheckSpec::Http(h) => {
            assert_eq!(h.url, "/web");
            assert_eq!(h.regex, "ctf");
            assert_eq!(h.code, 200);
            assert_eq!(h.forms, Some("user=admin&pw=s3cret".to_string()));
        },
        _ => panic!("kind changed"),
    }
    let spec = CheckSpec::Ssh(SshCheckSpec {
        port: 22,
        username: "{{ username }}".to_string(),
        password: Some("{{ password }}".to_string()),
        key_path: None,
    });
    match apply_template_substitution(&spec, &vars()).unwrap() {
        CheckSpec::Ssh(s) => {
            assert_eq!(s.username, "admin");
            assert_eq!(s.password, Some("s3cret".to_string()));
            assert_eq!(s.key_path, None);
        },
        _ => panic!("kind changed"),
    }
    match apply_template_substitution(&CheckSpec::Icmp(IcmpCheckSpec { code: 0 }), &vars()).unwrap() {
        CheckSpec::Icmp(i) => assert_eq!(i.code, 0),
        _ => panic!("kind changed"),
    }
    let spec = CheckSpec::Nix(NixCheckSpec { script: "ping {{ ip_address }}".to_string(), packages: None, timeout: 5 });
    match apply_template_substitution(&spec, &vars()).unwrap() {
        CheckSpec::Nix(n) => assert_eq!(n.script, "ping 10.0.1.5"),
        _ => panic!("kind changed"),
    }
}

#[test]
fn a_broken_template_fails_the_check_but_a_broken_form_is_emptied() {
    let spec = CheckSpec::Http(HttpCheckSpec {
        url: "{{ broken".to_string(),
        code: 200,
        regex: "x".to_string(),
        method: HttpMethods::Get,
        forms: None,
    });
    assert!(apply_template_substitution(&spec, &vars()).is_err());
    let spec = CheckSpec::Http(HttpCheckSpec {
        url: "/ok".to_string(),
        code: 200,
        regex: "x".to_string(),
        method: HttpMethods::Get,
        forms: Some("{{ broken".to_string()),
    });
    match apply_template_substitution(&spec, &vars()).unwrap() {
        CheckSpec::Http(h) => assert_eq!(h.forms, Some(String::new())),
        _ => panic!("kind changed"),
    }
}
