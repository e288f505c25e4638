//! The scoring checks (HTTP, ping, SSH, Nix script): how each request is
//! formed and how its outcome is judged.
use crate::config::{HttpCheckSpec, HttpMethods, NixCheckSpec, SshCheckSpec};
use crate::text::{concat, concat3, concat_all, decimal, u64_to_decimal};
use vstd::prelude::*;

verus! {

/// Whether the regular expression `pattern` matches somewhere in `text`,
/// or `None` when `pattern` is not a valid expression.
pub uninterp spec fn regex_match(pattern: Seq<char>, text: Seq<char>) -> Option<bool>;

/// Compiles `pattern` with `regex::Regex::new` and tests `is_match` on
/// `text`. The outcome is named `regex_match`; the regular expression
/// language is not stated here.
#[verifier::external_body]
pub(crate) fn regex_is_match(pattern: &str, text: &str) -> (r: Option<bool>)
    ensures
        r == regex_match(pattern@, text@),
{
    match regex::Regex::new(pattern) {
        Ok(re) => Some(re.is_match(text)),
        Err(_) => None,
    }
}

/// `http://<host><path>`.
pub fn http_url(hostname: &str, spec: &HttpCheckSpec) -> (u: String)
    ensures
        u@ == "http://"@ + hostname@ + spec.url@,
{
    concat3("http://", hostname, spec.url.as_str())
}

/// The content type sent with a check request: form data for POST, JSON
/// otherwise.
pub fn http_content_type(method: HttpMethods) -> (t: &'static str)
    ensures
        method == HttpMethods::Post ==> t@ == "application/x-www-form-urlencoded"@,
        method != HttpMethods::Post ==> t@ == "application/json"@,
{
    if method == HttpMethods::Post {
        "application/x-www-form-urlencoded"
    } else {
        "application/json"
    }
}

/// The request body: the configured form data, or nothing.
pub fn http_body(spec: &HttpCheckSpec) -> (b: String)
    ensures
        b@ == (match spec.forms {
            Some(f) => f@,
            None => Seq::<char>::empty(),
        }),
{
    match &spec.forms {
        Some(f) => f.clone(),
        None => String::new(),
    }
}

/// The verdict on an HTTP answer: the status must be the expected one and
/// the body must match the configured expression.
pub open spec fn http_verdict(spec: HttpCheckSpec, url: Seq<char>, status: u16, body: Seq<char>) -> Result<Seq<char>, Seq<char>> {
    if status != spec.code {
        Err("HTTP status code mismatch: expected "@ + decimal(spec.code as nat) + ", got "@ + decimal(status as nat))
    } else {
        match regex_match(spec.regex@, body) {
            None => Err("Invalid regex pattern"@),
            Some(false) => Err("Response body does not match regex: "@ + spec.regex@),
            Some(true) => Ok("HTTP check successful: "@ + url),
        }
    }
}

/// The view of a check result.
pub open spec fn result_view(r: Result<String, String>) -> Result<Seq<char>, Seq<char>> {
    match r {
        Ok(s) => Ok(s@),
        Err(e) => Err(e@),
    }
}

/// Judges the answer to an HTTP check sent to `url`.
pub fn evaluate_http_response(spec: &HttpCheckSpec, url: &str, status: u16, body: &str) -> (r: Result<String, String>)
    ensures
        result_view(r) == http_verdict(*spec, url@, status, body@),
{
    if status != spec.code {
        let expected = u64_to_decimal(spec.code as u64);
        let got = u64_to_decimal(status as u64);
        let v = vec!["HTTP status code mismatch: expected ", expected.as_str(), ", got ", got.as_str()];
        let m = concat_all(&v);
        proof {
            reveal_with_fuel(crate::text::flatten, 5);
            assert(v@.map_values(|p: &str| p@) =~= seq!["HTTP status code mismatch: expected "@, expected@, ", got "@, got@]);
        }
        return Err(m);
    }
    match regex_is_match(spec.regex.as_str(), body) {
        None => Err("Invalid regex pattern".to_owned()),
        Some(false) => Err(concat("Response body does not match regex: ", spec.regex.as_str())),
        Some(true) => Ok(concat("HTTP check successful: ", url)),
    }
}

/// The verdict on a ping: code 0 expects an answer, any other code expects
/// none.
pub open spec fn ping_verdict(hostname: Seq<char>, answered: bool, code: u8) -> Result<Seq<char>, Seq<char>> {
    if (answered && code == 0) || (!answered && code != 0) {
        Ok("ICMP check successful: "@ + hostname)
    } else {
        Err("ICMP check failed: expected code "@ + decimal(code as nat) + ", got "@ + (if answered { "0"@ } else { "1"@ }))
    }
}

/// Judges a ping of `hostname`.
pub fn evaluate_ping(hostname: &str, answered: bool, code: u8) -> (r: Result<String, String>)
    ensures
        result_view(r) == ping_verdict(hostname@, answered, code),
{
    if (answered && code == 0) || (!answered && code != 0) {
        Ok(concat("ICMP check successful: ", hostname))
    } else {
        let expected = u64_to_decimal(code as u64);
        let got = if answered { "0" } else { "1" };
        let v = vec!["ICMP check failed: expected code ", expected.as_str(), ", got ", got];
        let m = concat_all(&v);
        proof {
            reveal_with_fuel(crate::text::flatten, 5);
            assert(v@.map_values(|p: &str| p@) =~= seq!["ICMP check failed: expected code "@, expected@, ", got "@, got@]);
        }
        Err(m)
    }
}

/// `<host>:<port>`.
pub open spec fn host_port(hostname: Seq<char>, port: u16) -> Seq<char> {
    hostname + ":"@ + decimal(port as nat)
}

/// The address an SSH check connects to.
pub fn ssh_address(hostname: &str, port: u16) -> (a: String)
    ensures
        a@ == host_port(hostname@, port),
{
    let p = u64_to_decimal(port as u64);
    concat3(hostname, ":", p.as_str())
}

/// How an SSH check logs in.
#[derive(Debug, Clone)]
pub enum SshLogin {
    Password(String),
    KeyFile(String),
}

/// The login of an SSH check: the password when one is set, else the key
/// file, else the check fails.
pub fn ssh_login(spec: &SshCheckSpec) -> (r: Result<SshLogin, String>)
    ensures
        match spec.password {
            Some(p) => r matches Ok(SshLogin::Password(q)) && q@ == p@,
            None => match spec.key_path {
                Some(k) => r matches Ok(SshLogin::KeyFile(q)) && q@ == k@,
                None => r matches Err(e) && e@ == "No SSH authentication method provided"@,
            },
        },
{
    match &spec.password {
        Some(p) => Ok(SshLogin::Password(p.clone())),
        None => match &spec.key_path {
            Some(k) => Ok(SshLogin::KeyFile(k.clone())),
            None => Err("No SSH authentication method provided".to_owned()),
        },
    }
}

/// Judges an SSH login to `hostname` on `port`.
pub fn evaluate_ssh(hostname: &str, port: u16, authenticated: bool) -> (r: Result<String, String>)
    ensures
        authenticated ==> result_view(r) == Ok::<Seq<char>, Seq<char>>("SSH check successful: "@ + host_port(hostname@, port)),
        !authenticated ==> result_view(r) == Err::<Seq<char>, Seq<char>>("SSH authentication failed"@),
{
    if authenticated {
        let a = ssh_address(hostname, port);
        Ok(concat("SSH check successful: ", a.as_str()))
    } else {
        Err("SSH authentication failed".to_owned())
    }
}

/// The script of a Nix check followed by the host it checks.
pub fn nix_script_with_hostname(spec: &NixCheckSpec, hostname: &str) -> (s: String)
    ensures
        s@ == spec.script@ + " "@ + hostname@,
{
    concat3(spec.script.as_str(), " ", hostname)
}

/// The command run inside `nix-shell --run`: the script and host, quoted
/// for `bash -c`.
pub fn nix_run_command(script_with_hostname: &str) -> (c: String)
    ensures
        c@ == "bash -c '"@ + script_with_hostname@ + "'"@,
{
    concat3("bash -c '", script_with_hostname, "'")
}

/// How a Nix check's command ended.
#[derive(Debug, Clone)]
pub enum NixRun {
    /// The command did not finish within the check's timeout.
    TimedOut,
    /// The command could not be started.
    LaunchFailed,
    /// The command finished; its output, decoded leniently.
    Finished { success: bool, stdout: String, stderr: String },
}

/// Judges a Nix check's run.
pub fn evaluate_nix(run: NixRun) -> (r: Result<String, String>)
    ensures
        match run {
            NixRun::TimedOut => result_view(r) == Err::<Seq<char>, Seq<char>>("Nix check command timed out"@),
            NixRun::LaunchFailed => result_view(r) == Err::<Seq<char>, Seq<char>>(
                "Nix check command failed: Failed to execute Nix check command"@,
            ),
            NixRun::Finished { success, stdout, stderr } => if success {
                result_view(r) == Ok::<Seq<char>, Seq<char>>("Nix check successful: "@ + stdout@)
            } else {
                result_view(r) == Err::<Seq<char>, Seq<char>>("Nix check failed: "@ + stderr@)
            },
        },
{
    match run {
        NixRun::TimedOut => Err("Nix check command timed out".to_owned()),
        NixRun::LaunchFailed => Err("Nix check command failed: Failed to execute Nix check command".to_owned()),
        NixRun::Finished { success, stdout, stderr } => {
            if success {
                Ok(concat("Nix check successful: ", stdout.as_str()))
            } else {
                Err(concat("Nix check failed: ", stderr.as_str()))
            }
        },
    }
}

/// The packages a Nix check is preloaded with: the configured ones, else
/// `nixpkgs`.
pub fn nix_preload_packages(spec: &NixCheckSpec) -> (p: Vec<String>)
    ensures
        crate::model::strs(p@) == (match spec.packages {
            Some(v) => crate::model::strs(v@),
            None => seq!["nixpkgs"@],
        }),
{
    match &spec.packages {
        Some(v) => crate::model::clone_strings(v),
        None => {
            let p = vec!["nixpkgs".to_owned()];
            assert(crate::model::strs(p@) =~= seq!["nixpkgs"@]);
            p
        },
    }
}

} // verus!
