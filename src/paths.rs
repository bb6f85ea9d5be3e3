//! Paths of the agent's files, and the host facts that defaults come from.
use vstd::prelude::*;
use vstd::string::StrSliceExecFns;
use vstd::string::StringExecFns;

verus! {

/// `rel` appended to `base` as a path: with one '/' between them unless
/// `base` is empty or already ends in '/'.
pub open spec fn path_join(base: Seq<char>, rel: Seq<char>) -> Seq<char> {
    if base.len() == 0 {
        rel
    } else if base.last() == '/' {
        base + rel
    } else {
        base + "/"@ + rel
    }
}

pub fn join_path(base: &str, rel: &str) -> (r: String)
    ensures
        r@ == path_join(base@, rel@),
{
    let n = base.unicode_len();
    if n == 0 {
        String::from_str(rel)
    } else if base.get_char(n - 1) == '/' {
        String::from_str(base).concat(rel)
    } else {
        String::from_str(base).concat("/").concat(rel)
    }
}

/// The TLS private key's default place under the data directory.
pub fn default_key_path(data_dir: &str) -> (r: String)
    ensures
        r@ == path_join(data_dir@, "config/krustlet.key"@),
{
    join_path(data_dir, "config/krustlet.key")
}

/// The TLS certificate's default place under the data directory.
pub fn default_cert_path(data_dir: &str) -> (r: String)
    ensures
        r@ == path_join(data_dir@, "config/krustlet.crt"@),
{
    join_path(data_dir, "config/krustlet.crt")
}

/// What `str::to_lowercase` makes of a string.
pub uninterp spec fn lowercase_of(s: Seq<char>) -> Seq<char>;

/// Relies on `str::to_lowercase`: the result depends on the characters alone.
#[verifier::external_body]
fn lowercase(s: &str) -> (r: String)
    ensures
        r@ == lowercase_of(s@),
{
    s.to_lowercase()
}

/// A node name from a host name: lower-cased, nothing else changed.
pub fn sanitize_hostname(hostname: &str) -> (r: String)
    ensures
        r@ == lowercase_of(hostname@),
{
    lowercase(hostname)
}

/// Relies on `hostname::get`: the machine's host name, `None` inside `Ok`
/// where it is not UTF-8, or the text of the system error.
#[verifier::external_body]
fn machine_hostname() -> (r: Result<Option<String>, String>) {
    hostname::get().map(|h| h.into_string().ok()).map_err(|e| e.to_string())
}

/// Relies on `dirs::home_dir`: the user's home directory where one is known
/// and is UTF-8.
#[verifier::external_body]
fn home_directory() -> (r: Option<String>) {
    dirs::home_dir().and_then(|p| p.into_os_string().into_string().ok())
}

pub open spec fn non_utf8_hostname_message() -> Seq<char> {
    "invalid utf-8 hostname string"@
}

pub open spec fn no_home_message() -> Seq<char> {
    "Unable to get home directory"@
}

/// The machine's host name, from the raw outcome of asking the system:
/// the name, a name that is not UTF-8, or the system's error.
pub fn hostname_from(raw: Result<Option<String>, String>) -> (r: Result<String, String>)
    ensures
        match raw {
            Ok(Some(h)) => r == Ok::<String, String>(h),
            Ok(None) => r matches Err(e) && e@ == non_utf8_hostname_message(),
            Err(e) => r == Err::<String, String>(e),
        },
{
    match raw {
        Ok(Some(h)) => Ok(h),
        Ok(None) => Err(String::from_str("invalid utf-8 hostname string")),
        Err(e) => Err(e),
    }
}

/// The machine's host name. What the system reports is not known here;
/// `hostname_from` states what is made of each report.
pub fn default_hostname() -> (r: Result<String, String>) {
    hostname_from(machine_hostname())
}

/// The data directory: `.krustlet` under the user's home directory.
pub fn default_data_dir() -> (r: Result<String, String>)
    ensures
        match r {
            Ok(d) => exists|home: Seq<char>| d@ == path_join(home, ".krustlet"@),
            Err(e) => e@ == no_home_message(),
        },
{
    match home_directory() {
        Some(home) => Ok(join_path(home.as_str(), ".krustlet")),
        None => Err(String::from_str("Unable to get home directory")),
    }
}

/// The configuration file's default place under the user's home directory,
/// `None` where no home directory is known.
pub fn default_config_file_path() -> (r: Option<String>)
    ensures
        r matches Some(p) ==> exists|home: Seq<char>|
            p@ == path_join(home, ".krustlet/config/config.json"@),
{
    match home_directory() {
        Some(home) => Some(join_path(home.as_str(), ".krustlet/config/config.json")),
        None => None,
    }
}

} // verus!
