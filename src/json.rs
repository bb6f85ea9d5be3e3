//! Reading a partial configuration from a JSON configuration file's text.
use vstd::prelude::*;
use vstd::string::StringExecFns;
use crate::address::{IpAddress, ip_address_of, parse_ip_address};
use crate::config::{ConfigBuilder, ConfigModel};
use crate::error::ConfigError;
use crate::field::{FieldModel, FieldState};
use crate::labels::{Labels, with_label};

verus! {

/// What `serde_json::from_str` makes of a text read as a JSON object: its
/// members, each value written back as compact JSON text, or the parser's
/// message.
pub uninterp spec fn json_members_of(text: Seq<char>) -> Result<
    Seq<(Seq<char>, Seq<char>)>,
    Seq<char>,
>;

/// What `serde_json::from_str` makes of a JSON text read as a string.
pub uninterp spec fn json_string_of(raw: Seq<char>) -> Result<Seq<char>, Seq<char>>;

/// What `serde_json::from_str` makes of a JSON text read as a `u16`.
pub uninterp spec fn json_u16_of(raw: Seq<char>) -> Result<u16, Seq<char>>;

/// What `serde_json::from_str` makes of a JSON text read as an object of
/// strings: its members in key order, or the parser's message.
pub uninterp spec fn json_string_map_of(raw: Seq<char>) -> Result<
    Seq<(Seq<char>, Seq<char>)>,
    Seq<char>,
>;

pub open spec fn pairs_view(v: Seq<(String, String)>) -> Seq<(Seq<char>, Seq<char>)> {
    v.map_values(|p: (String, String)| (p.0@, p.1@))
}

pub open spec fn pairs_result_view(r: Result<Vec<(String, String)>, String>) -> Result<
    Seq<(Seq<char>, Seq<char>)>,
    Seq<char>,
> {
    match r {
        Ok(v) => Ok(pairs_view(v@)),
        Err(e) => Err(e@),
    }
}

/// Relies on `serde_json::from_str` into a `serde_json::Map`, and on
/// `serde_json::Value`'s `to_string` for each member's value.
#[verifier::external_body]
fn json_object_members(text: &str) -> (r: Result<Vec<(String, String)>, String>)
    ensures
        pairs_result_view(r) == json_members_of(text@),
{
    serde_json::from_str::<serde_json::Map<String, serde_json::Value>>(text).map(
        |m| m.into_iter().map(|(k, v)| (k, v.to_string())).collect(),
    ).map_err(|e| e.to_string())
}

/// Relies on `serde_json::from_str` into a `String`.
#[verifier::external_body]
fn json_string(raw: &str) -> (r: Result<String, String>)
    ensures
        match r {
            Ok(s) => json_string_of(raw@) == Ok::<Seq<char>, Seq<char>>(s@),
            Err(e) => json_string_of(raw@) == Err::<Seq<char>, Seq<char>>(e@),
        },
{
    serde_json::from_str::<String>(raw).map_err(|e| e.to_string())
}

/// Relies on `serde_json::from_str` into a `u16`.
#[verifier::external_body]
fn json_u16(raw: &str) -> (r: Result<u16, String>)
    ensures
        match r {
            Ok(n) => json_u16_of(raw@) == Ok::<u16, Seq<char>>(n),
            Err(e) => json_u16_of(raw@) == Err::<u16, Seq<char>>(e@),
        },
{
    serde_json::from_str::<u16>(raw).map_err(|e| e.to_string())
}

/// Relies on `serde_json::from_str` into a `BTreeMap<String, String>`.
#[verifier::external_body]
fn json_string_map(raw: &str) -> (r: Result<Vec<(String, String)>, String>)
    ensures
        pairs_result_view(r) == json_string_map_of(raw@),
{
    serde_json::from_str::<std::collections::BTreeMap<String, String>>(raw).map(
        |m| m.into_iter().collect(),
    ).map_err(|e| e.to_string())
}

pub open spec fn is_null(raw: Seq<char>) -> bool {
    raw == "null"@
}

/// A text field: `null` counts as absent; anything but a string spoils the
/// whole file.
pub open spec fn text_field(raw: Seq<char>) -> Result<FieldModel<Seq<char>>, Seq<char>> {
    if is_null(raw) {
        Ok(FieldModel::Absent)
    } else {
        match json_string_of(raw) {
            Ok(s) => Ok(FieldModel::Valid(s)),
            Err(e) => Err(e),
        }
    }
}

/// A number field: what is not a `u16` is kept as an unusable value.
pub open spec fn u16_field(raw: Seq<char>) -> FieldModel<u16> {
    match json_u16_of(raw) {
        Ok(n) => FieldModel::Valid(n),
        Err(e) => FieldModel::Invalid(e),
    }
}

pub open spec fn bad_address_message() -> Seq<char> {
    "invalid IP address syntax"@
}

/// An address field: it must be a string; one that is no address is kept as
/// an unusable value.
pub open spec fn address_field(raw: Seq<char>) -> Result<FieldModel<IpAddress>, Seq<char>> {
    match json_string_of(raw) {
        Ok(s) => match ip_address_of(s) {
            Some(a) => Ok(FieldModel::Valid(a)),
            None => Ok(FieldModel::Invalid(bad_address_message())),
        },
        Err(e) => Err(e),
    }
}

/// The mapping of a list of pairs, later keys winning.
pub open spec fn labels_of_pairs(p: Seq<(Seq<char>, Seq<char>)>) -> Seq<(Seq<char>, Seq<char>)>
    decreases p.len(),
{
    if p.len() == 0 {
        Seq::empty()
    } else {
        with_label(labels_of_pairs(p.drop_last()), p.last().0, p.last().1)
    }
}

/// A label field: `null` counts as absent; anything but an object of strings
/// spoils the whole file.
pub open spec fn labels_field(raw: Seq<char>) -> Result<
    FieldModel<Seq<(Seq<char>, Seq<char>)>>,
    Seq<char>,
> {
    if is_null(raw) {
        Ok(FieldModel::Absent)
    } else {
        match json_string_map_of(raw) {
            Ok(p) => Ok(FieldModel::Valid(labels_of_pairs(p))),
            Err(e) => Err(e),
        }
    }
}

/// One member of the file applied to the configuration read so far; members
/// with other keys are ignored.
pub open spec fn apply_member(m: ConfigModel, key: Seq<char>, raw: Seq<char>) -> Result<
    ConfigModel,
    Seq<char>,
> {
    if key == "nodeIP"@ {
        match address_field(raw) {
            Ok(f) => Ok(ConfigModel { node_ip: f, ..m }),
            Err(e) => Err(e),
        }
    } else if key == "hostname"@ {
        match text_field(raw) {
            Ok(f) => Ok(ConfigModel { hostname: f, ..m }),
            Err(e) => Err(e),
        }
    } else if key == "nodeName"@ {
        match text_field(raw) {
            Ok(f) => Ok(ConfigModel { node_name: f, ..m }),
            Err(e) => Err(e),
        }
    } else if key == "dataDir"@ {
        match text_field(raw) {
            Ok(f) => Ok(ConfigModel { data_dir: f, ..m }),
            Err(e) => Err(e),
        }
    } else if key == "nodeLabels"@ {
        match labels_field(raw) {
            Ok(f) => Ok(ConfigModel { node_labels: f, ..m }),
            Err(e) => Err(e),
        }
    } else if key == "maxPods"@ {
        Ok(ConfigModel { max_pods: u16_field(raw), ..m })
    } else if key == "listenerAddress"@ {
        match address_field(raw) {
            Ok(f) => Ok(ConfigModel { server_addr: f, ..m }),
            Err(e) => Err(e),
        }
    } else if key == "listenerPort"@ {
        Ok(ConfigModel { server_port: u16_field(raw), ..m })
    } else if key == "tlsCertificateFile"@ {
        match text_field(raw) {
            Ok(f) => Ok(ConfigModel { server_tls_cert_file: f, ..m }),
            Err(e) => Err(e),
        }
    } else if key == "tlsPrivateKeyFile"@ {
        match text_field(raw) {
            Ok(f) => Ok(ConfigModel { server_tls_private_key_file: f, ..m }),
            Err(e) => Err(e),
        }
    } else {
        Ok(m)
    }
}

/// The configuration that a file's members give, starting from nothing.
pub open spec fn model_of_members(ms: Seq<(Seq<char>, Seq<char>)>) -> Result<
    ConfigModel,
    Seq<char>,
>
    decreases ms.len(),
{
    if ms.len() == 0 {
        Ok(crate::config::empty_model())
    } else {
        match model_of_members(ms.drop_last()) {
            Ok(m) => apply_member(m, ms.last().0, ms.last().1),
            Err(e) => Err(e),
        }
    }
}

/// The configuration that a file's text gives.
pub open spec fn model_of_json(text: Seq<char>) -> Result<ConfigModel, Seq<char>> {
    match json_members_of(text) {
        Ok(ms) => model_of_members(ms),
        Err(e) => Err(e),
    }
}

proof fn lemma_failure_persists(ms: Seq<(Seq<char>, Seq<char>)>, i: int, e: Seq<char>)
    requires
        0 <= i <= ms.len(),
        model_of_members(ms.subrange(0, i)) == Err::<ConfigModel, Seq<char>>(e),
    ensures
        model_of_members(ms) == Err::<ConfigModel, Seq<char>>(e),
    decreases ms.len() - i,
{
    if i < ms.len() {
        assert(ms.subrange(0, i + 1).drop_last() =~= ms.subrange(0, i));
        lemma_failure_persists(ms, i + 1, e);
    } else {
        assert(ms.subrange(0, i) =~= ms);
    }
}

fn text_state(raw: &str) -> (r: Result<FieldState<String>, String>)
    ensures
        match r {
            Ok(f) => text_field(raw@) == Ok::<FieldModel<Seq<char>>, Seq<char>>(f@),
            Err(e) => text_field(raw@) == Err::<FieldModel<Seq<char>>, Seq<char>>(e@),
        },
{
    let null = String::from_str("null");
    if String::from_str(raw) == null {
        return Ok(FieldState::Absent);
    }
    match json_string(raw) {
        Ok(s) => Ok(FieldState::Valid(s)),
        Err(e) => Err(e),
    }
}

fn u16_state(raw: &str) -> (r: FieldState<u16>)
    ensures
        r@ == u16_field(raw@),
{
    match json_u16(raw) {
        Ok(n) => FieldState::Valid(n),
        Err(e) => FieldState::Invalid(e),
    }
}

fn address_state(raw: &str) -> (r: Result<FieldState<IpAddress>, String>)
    ensures
        match r {
            Ok(f) => address_field(raw@) == Ok::<FieldModel<IpAddress>, Seq<char>>(f@),
            Err(e) => address_field(raw@) == Err::<FieldModel<IpAddress>, Seq<char>>(e@),
        },
{
    match json_string(raw) {
        Ok(s) => match parse_ip_address(s.as_str()) {
            Some(a) => Ok(FieldState::Valid(a)),
            None => Ok(FieldState::Invalid(String::from_str("invalid IP address syntax"))),
        },
        Err(e) => Err(e),
    }
}

fn labels_state(raw: &str) -> (r: Result<FieldState<Labels>, String>)
    ensures
        r matches Ok(FieldState::Valid(l)) ==> l.wf(),
        match r {
            Ok(f) => labels_field(raw@) == Ok::<
                FieldModel<Seq<(Seq<char>, Seq<char>)>>,
                Seq<char>,
            >(f@),
            Err(e) => labels_field(raw@) == Err::<
                FieldModel<Seq<(Seq<char>, Seq<char>)>>,
                Seq<char>,
            >(e@),
        },
{
    let null = String::from_str("null");
    if String::from_str(raw) == null {
        return Ok(FieldState::Absent);
    }
    let pairs = match json_string_map(raw) {
        Ok(p) => p,
        Err(e) => {
            return Err(e);
        },
    };
    let ghost p = pairs_view(pairs@);
    let mut labels = Labels::new();
    let mut i: usize = 0;
    while i < pairs.len()
        invariant
            i <= pairs@.len(),
            p == pairs_view(pairs@),
            labels.wf(),
            labels@ == labels_of_pairs(p.subrange(0, i as int)),
        decreases pairs@.len() - i,
    {
        assert(p.subrange(0, i + 1).drop_last() =~= p.subrange(0, i as int));
        let k = pairs[i].0.clone();
        let v = pairs[i].1.clone();
        labels.insert(k, v);
        i = i + 1;
    }
    assert(p.subrange(0, pairs@.len() as int) =~= p);
    Ok(FieldState::Valid(labels))
}

impl ConfigBuilder {
    /// Reads a configuration file's text. Known keys fill their fields;
    /// others are ignored. A text that is no JSON object, or a member of the
    /// wrong JSON kind where a string or object of strings is needed, fails
    /// with the parser's message. A number or address that does not read as
    /// one is kept as an unusable field, to fail only if nothing overrides it.
    pub fn from_json_text(text: &str) -> (r: Result<ConfigBuilder, ConfigError>)
        ensures
            match r {
                Ok(b) => b.wf() && model_of_json(text@) == Ok::<ConfigModel, Seq<char>>(b@),
                Err(e) => e matches ConfigError::Source(m) && model_of_json(text@) == Err::<
                    ConfigModel,
                    Seq<char>,
                >(m@),
            },
    {
        let members = match json_object_members(text) {
            Ok(m) => m,
            Err(e) => {
                return Err(ConfigError::Source(e));
            },
        };
        let ghost ms = pairs_view(members@);
        let mut b = ConfigBuilder::empty();
        let mut i: usize = 0;
        while i < members.len()
            invariant
                i <= members@.len(),
                ms == pairs_view(members@),
                json_members_of(text@) == Ok::<Seq<(Seq<char>, Seq<char>)>, Seq<char>>(ms),
                b.wf(),
                model_of_members(ms.subrange(0, i as int)) == Ok::<ConfigModel, Seq<char>>(b@),
            decreases members@.len() - i,
        {
            assert(ms.subrange(0, i + 1).drop_last() =~= ms.subrange(0, i as int));
            let key = &members[i].0;
            let raw = members[i].1.as_str();
            let failed: Option<String>;
            if *key == String::from_str("nodeIP") {
                match address_state(raw) {
                    Ok(f) => { b.node_ip = f; failed = None; },
                    Err(e) => { failed = Some(e); },
                }
            } else if *key == String::from_str("hostname") {
                match text_state(raw) {
                    Ok(f) => { b.hostname = f; failed = None; },
                    Err(e) => { failed = Some(e); },
                }
            } else if *key == String::from_str("nodeName") {
                match text_state(raw) {
                    Ok(f) => { b.node_name = f; failed = None; },
                    Err(e) => { failed = Some(e); },
                }
            } else if *key == String::from_str("dataDir") {
                match text_state(raw) {
                    Ok(f) => { b.data_dir = f; failed = None; },
                    Err(e) => { failed = Some(e); },
                }
            } else if *key == String::from_str("nodeLabels") {
                match labels_state(raw) {
                    Ok(f) => { b.node_labels = f; failed = None; },
                    Err(e) => { failed = Some(e); },
                }
            } else if *key == String::from_str("maxPods") {
                b.max_pods = u16_state(raw);
                failed = None;
            } else if *key == String::from_str("listenerAddress") {
                match address_state(raw) {
                    Ok(f) => { b.server_addr = f; failed = None; },
                    Err(e) => { failed = Some(e); },
                }
            } else if *key == String::from_str("listenerPort") {
                b.server_port = u16_state(raw);
                failed = None;
            } else if *key == String::from_str("tlsCertificateFile") {
                match text_state(raw) {
                    Ok(f) => { b.server_tls_cert_file = f; failed = None; },
                    Err(e) => { failed = Some(e); },
                }
            } else if *key == String::from_str("tlsPrivateKeyFile") {
                match text_state(raw) {
                    Ok(f) => { b.server_tls_private_key_file = f; failed = None; },
                    Err(e) => { failed = Some(e); },
                }
            } else {
                failed = None;
            }
            if let Some(e) = failed {
                proof {
                    lemma_failure_persists(ms, i + 1, e@);
                    assert(ms.subrange(0, ms.len() as int) =~= ms);
                }
                return Err(ConfigError::Source(e));
            }
            i = i + 1;
        }
        assert(ms.subrange(0, members@.len() as int) =~= ms);
        Ok(b)
    }
}

} // verus!
