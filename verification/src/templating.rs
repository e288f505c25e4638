//! Jinja templating of check specifications: the string fields of a check
//! may mention the team, the box, the competition, the box's address and the
//! box's credentials.
use crate::config::{CheckSpec, HttpCheckSpec, NixCheckSpec, SshCheckSpec};
use crate::model::{clone_strings, opt_str, strs};
use crate::text::{concat, decimal, u64_to_decimal};
use std::hash::{Hash, Hasher};
use vstd::prelude::*;

verus! {

/// What `DefaultHasher::new()` yields for the string (`str::hash`, then
/// `finish`).
pub uninterp spec fn default_str_hash(s: Seq<char>) -> u64;

/// What minijinja gives when the template `source`, registered under `name`
/// in a fresh environment, is rendered with the given variables: the text,
/// or the error's text.
pub uninterp spec fn minijinja_render(name: Seq<char>, source: Seq<char>, vars: Seq<(Seq<char>, Seq<char>)>) -> Result<Seq<char>, Seq<char>>;

/// Hashes a string with a new `DefaultHasher`. The result is named
/// `default_str_hash`; the hash function itself is not stated.
#[verifier::external_body]
fn default_hash(s: &str) -> (h: u64)
    ensures
        h == default_str_hash(s@),
{
    let mut hasher = std::collections::hash_map::DefaultHasher::new();
    s.hash(&mut hasher);
    hasher.finish()
}

/// The variables as (name, value) views.
pub open spec fn vars_view(vars: Seq<(String, String)>) -> Seq<(Seq<char>, Seq<char>)> {
    vars.map_values(|v: (String, String)| (v.0@, v.1@))
}

/// Renders `source`, registered as `name` in a fresh minijinja environment,
/// with the variables. The result, text or error text, is named
/// `minijinja_render`; minijinja's template language is not stated here.
#[verifier::external_body]
fn render_template(name: &str, source: &str, vars: &Vec<(String, String)>) -> (r: Result<String, String>)
    ensures
        match r {
            Ok(text) => minijinja_render(name@, source@, vars_view(vars@)) == Ok::<Seq<char>, Seq<char>>(text@),
            Err(e) => minijinja_render(name@, source@, vars_view(vars@)) == Err::<Seq<char>, Seq<char>>(e@),
        },
{
    let context: std::collections::BTreeMap<&str, &str> =
        vars.iter().map(|(k, v)| (k.as_str(), v.as_str())).collect();
    let mut env = minijinja::Environment::new();
    env.add_template(name, source).map_err(|e| e.to_string())?;
    let template = env.get_template(name).map_err(|e| e.to_string())?;
    template.render(&context).map_err(|e| e.to_string())
}

/// The name under which a template is registered: `tmpl_<hash>`.
pub open spec fn template_name(source: Seq<char>) -> Seq<char> {
    "tmpl_"@ + decimal(default_str_hash(source) as nat)
}

/// The result of rendering one string field with the variables.
pub open spec fn render_spec(source: Seq<char>, vars: Seq<(Seq<char>, Seq<char>)>) -> Result<Seq<char>, Seq<char>> {
    minijinja_render(template_name(source), source, vars)
}

/// Renders one string field of a check.
pub fn apply_template_to_string(source: &str, vars: &Vec<(String, String)>) -> (r: Result<String, String>)
    ensures
        match r {
            Ok(text) => render_spec(source@, vars_view(vars@)) == Ok::<Seq<char>, Seq<char>>(text@),
            Err(e) => render_spec(source@, vars_view(vars@)) == Err::<Seq<char>, Seq<char>>(e@),
        },
{
    let hash = default_hash(source);
    let digits = u64_to_decimal(hash);
    let name = concat("tmpl_", digits.as_str());
    render_template(name.as_str(), source, vars)
}

/// The variables available to check templates.
pub open spec fn template_vars_spec(
    team_name: Seq<char>,
    box_name: Seq<char>,
    competition_name: Seq<char>,
    ip_address: Seq<char>,
    username: Seq<char>,
    password: Seq<char>,
) -> Seq<(Seq<char>, Seq<char>)> {
    seq![
        ("team_name"@, team_name),
        ("box_name"@, box_name),
        ("competition_name"@, competition_name),
        ("ip_address"@, ip_address),
        ("username"@, username),
        ("password"@, password),
    ]
}

/// The variables available to check templates, by name.
pub fn template_vars(
    team_name: &str,
    box_name: &str,
    competition_name: &str,
    ip_address: &str,
    username: &str,
    password: &str,
) -> (v: Vec<(String, String)>)
    ensures
        vars_view(v@) == template_vars_spec(team_name@, box_name@, competition_name@, ip_address@, username@, password@),
{
    let v = vec![
        ("team_name".to_owned(), team_name.to_owned()),
        ("box_name".to_owned(), box_name.to_owned()),
        ("competition_name".to_owned(), competition_name.to_owned()),
        ("ip_address".to_owned(), ip_address.to_owned()),
        ("username".to_owned(), username.to_owned()),
        ("password".to_owned(), password.to_owned()),
    ];
    assert(vars_view(v@) =~= template_vars_spec(team_name@, box_name@, competition_name@, ip_address@, username@, password@));
    v
}

/// A rendered field equals the rendering of the original field.
pub open spec fn renders_to(source: Seq<char>, vars: Seq<(Seq<char>, Seq<char>)>, out: Seq<char>) -> bool {
    render_spec(source, vars) == Ok::<Seq<char>, Seq<char>>(out)
}

/// The optional field rendered, an error failing the whole check.
pub open spec fn opt_renders_to(source: Option<String>, vars: Seq<(Seq<char>, Seq<char>)>, out: Option<String>) -> bool {
    match source {
        None => out is None,
        Some(s) => out is Some && renders_to(s@, vars, out->0@),
    }
}

/// The first rendering error among the fields, in field order.
pub open spec fn first_error(fields: Seq<Option<Seq<char>>>, vars: Seq<(Seq<char>, Seq<char>)>) -> Option<Seq<char>>
    decreases fields.len(),
{
    if fields.len() == 0 {
        None
    } else {
        match fields[0] {
            Some(f) => match render_spec(f, vars) {
                Err(e) => Some(e),
                Ok(_) => first_error(fields.drop_first(), vars),
            },
            None => first_error(fields.drop_first(), vars),
        }
    }
}

/// The string fields of a check that are templated and can fail it, in the
/// order in which they are rendered (the HTTP body never fails it).
pub open spec fn failing_fields(spec: CheckSpec) -> Seq<Option<Seq<char>>> {
    match spec {
        CheckSpec::Http(h) => seq![Some(h.url@), Some(h.regex@)],
        CheckSpec::Icmp(_) => Seq::empty(),
        CheckSpec::Ssh(s) => seq![Some(s.username@), opt_str(s.password), opt_str(s.key_path)],
        CheckSpec::Nix(n) => seq![Some(n.script@)],
    }
}

/// The check after templating, field by field.
pub open spec fn templated_spec(spec: CheckSpec, vars: Seq<(Seq<char>, Seq<char>)>, out: CheckSpec) -> bool {
    match (spec, out) {
        (CheckSpec::Http(h), CheckSpec::Http(o)) => {
            &&& renders_to(h.url@, vars, o.url@)
            &&& o.code == h.code
            &&& renders_to(h.regex@, vars, o.regex@)
            &&& o.method == h.method
            &&& match h.forms {
                None => o.forms is None,
                Some(f) => o.forms is Some && o.forms->0@ == (match render_spec(f@, vars) {
                    Ok(t) => t,
                    Err(_) => Seq::<char>::empty(),
                }),
            }
        },
        (CheckSpec::Icmp(i), CheckSpec::Icmp(o)) => o.code == i.code,
        (CheckSpec::Ssh(s), CheckSpec::Ssh(o)) => {
            &&& o.port == s.port
            &&& renders_to(s.username@, vars, o.username@)
            &&& opt_renders_to(s.password, vars, o.password)
            &&& opt_renders_to(s.key_path, vars, o.key_path)
        },
        (CheckSpec::Nix(n), CheckSpec::Nix(o)) => {
            &&& renders_to(n.script@, vars, o.script@)
            &&& match (n.packages, o.packages) {
                (None, None) => true,
                (Some(p), Some(q)) => strs(p@) == strs(q@),
                _ => false,
            }
            &&& o.timeout == n.timeout
        },
        _ => false,
    }
}

fn render_optional(source: &Option<String>, vars: &Vec<(String, String)>) -> (r: Result<Option<String>, String>)
    ensures
        match source {
            None => r == Ok::<Option<String>, String>(None),
            Some(s) => match render_spec(s@, vars_view(vars@)) {
                Ok(t) => r is Ok && r->Ok_0 is Some && r->Ok_0->0@ == t,
                Err(e) => r is Err && r->Err_0@ == e,
            },
        },
{
    match source {
        None => Ok(None),
        Some(s) => match apply_template_to_string(s.as_str(), vars) {
            Ok(t) => Ok(Some(t)),
            Err(e) => Err(e),
        },
    }
}

/// The check with each of its string fields rendered as a Jinja template
/// with the given variables. The first field that fails to render fails
/// the whole check, except the HTTP body, which becomes empty.
pub fn apply_template_substitution(spec: &CheckSpec, vars: &Vec<(String, String)>) -> (r: Result<CheckSpec, String>)
    ensures
        r is Err <==> first_error(failing_fields(*spec), vars_view(vars@)) is Some,
        r is Err ==> r->Err_0@ == first_error(failing_fields(*spec), vars_view(vars@))->0,
        r is Ok ==> templated_spec(*spec, vars_view(vars@), r->Ok_0),
{
    let ghost vv = vars_view(vars@);
    match spec {
        CheckSpec::Http(h) => {
            proof {
                reveal_with_fuel(first_error, 3);
                assert(failing_fields(*spec).drop_first() =~= seq![Some(h.regex@)]);
                assert(seq![Some(h.regex@)].drop_first() =~= Seq::<Option<Seq<char>>>::empty());
            }
            let url = apply_template_to_string(h.url.as_str(), vars)?;
            let regex = apply_template_to_string(h.regex.as_str(), vars)?;
            let forms = match &h.forms {
                Some(f) => match apply_template_to_string(f.as_str(), vars) {
                    Ok(t) => Some(t),
                    Err(_) => Some(String::new()),
                },
                None => None,
            };
            Ok(CheckSpec::Http(HttpCheckSpec { url, code: h.code, regex, method: h.method, forms }))
        },
        CheckSpec::Icmp(i) => {
            Ok(CheckSpec::Icmp(crate::config::IcmpCheckSpec { code: i.code }))
        },
        CheckSpec::Ssh(s) => {
            proof {
                reveal_with_fuel(first_error, 4);
                assert(failing_fields(*spec).drop_first() =~= seq![opt_str(s.password), opt_str(s.key_path)]);
                assert(seq![opt_str(s.password), opt_str(s.key_path)].drop_first() =~= seq![opt_str(s.key_path)]);
                assert(seq![opt_str(s.key_path)].drop_first() =~= Seq::<Option<Seq<char>>>::empty());
            }
            let username = apply_template_to_string(s.username.as_str(), vars)?;
            let password = render_optional(&s.password, vars)?;
            let key_path = render_optional(&s.key_path, vars)?;
            Ok(CheckSpec::Ssh(SshCheckSpec { port: s.port, username, password, key_path }))
        },
        CheckSpec::Nix(n) => {
            proof {
                reveal_with_fuel(first_error, 2);
                assert(failing_fields(*spec).drop_first() =~= Seq::<Option<Seq<char>>>::empty());
            }
            let script = apply_template_to_string(n.script.as_str(), vars)?;
            let packages = match &n.packages {
                Some(p) => Some(clone_strings(p)),
                None => None,
            };
            Ok(CheckSpec::Nix(NixCheckSpec { script, packages, timeout: n.timeout }))
        },
    }
}

} // verus!
