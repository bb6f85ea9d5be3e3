//! Command-line options as a source, and configurations built from sources.
use vstd::prelude::*;
use crate::address::{IpAddress, spec_unspecified_of};
use crate::config::{
    Config, ConfigBuilder, ConfigModel, Fallbacks,
    default_bootstrap_file, empty_model, fallbacks_callable, merged, resolves_to,
};
use crate::error::{ConfigError, FieldId};
use crate::field::{FieldModel, FieldState, ok_result_of};
use crate::json::model_of_json;
use crate::labels::{labels_from_tokens, labels_of};
use crate::paths::{
    default_cert_path, default_data_dir, default_hostname, default_key_path, lowercase_of,
    path_join,
};

verus! {

/// The options an operator can give on the command line or in the
/// environment. Labels are raw `key=value` tokens.
#[derive(Debug)]
pub struct Opts {
    pub addr: Option<IpAddress>,
    pub port: Option<u16>,
    pub max_pods: Option<u16>,
    pub tls_cert_file: Option<String>,
    pub tls_private_key_file: Option<String>,
    pub node_ip: Option<IpAddress>,
    pub node_labels: Vec<String>,
    pub hostname: Option<String>,
    pub node_name: Option<String>,
    pub data_dir: Option<String>,
    pub bootstrap_file: String,
}

pub open spec fn option_field<T: View>(o: Option<T>) -> FieldModel<T::V> {
    match o {
        Some(v) => FieldModel::Valid(v@),
        None => FieldModel::Absent,
    }
}

pub open spec fn labels_field_of_tokens(tokens: Seq<String>) -> FieldModel<
    Seq<(Seq<char>, Seq<char>)>,
> {
    let l = labels_of(tokens.map_values(|t: String| t@));
    if l.len() == 0 {
        FieldModel::Absent
    } else {
        FieldModel::Valid(l)
    }
}

/// The partial configuration that command-line options give: every option
/// given is usable; labels are absent when no token gives a pair.
pub open spec fn opts_model(opts: Opts) -> ConfigModel {
    ConfigModel {
        node_ip: option_field(opts.node_ip),
        hostname: option_field(opts.hostname),
        node_name: option_field(opts.node_name),
        data_dir: option_field(opts.data_dir),
        node_labels: labels_field_of_tokens(opts.node_labels@),
        max_pods: option_field(opts.max_pods),
        bootstrap_file: FieldModel::Valid(opts.bootstrap_file@),
        server_addr: option_field(opts.addr),
        server_port: option_field(opts.port),
        server_tls_cert_file: option_field(opts.tls_cert_file),
        server_tls_private_key_file: option_field(opts.tls_private_key_file),
    }
}

pub open spec fn text_of(t: Option<&str>) -> Option<Seq<char>> {
    match t {
        Some(s) => Some(s@),
        None => None,
    }
}

/// What a configuration file's text (or a missing file) gives.
pub open spec fn file_model(file_text: Option<Seq<char>>) -> Result<ConfigModel, Seq<char>> {
    match file_text {
        Some(t) => model_of_json(t),
        None => Ok(empty_model()),
    }
}

impl ConfigBuilder {
    pub fn from_opts(opts: Opts) -> (r: ConfigBuilder)
        ensures
            r.wf(),
            r@ == opts_model(opts),
    {
        let node_labels = labels_from_tokens(&opts.node_labels);
        ConfigBuilder {
            node_ip: ok_result_of(opts.node_ip),
            node_name: ok_result_of(opts.node_name),
            node_labels,
            hostname: ok_result_of(opts.hostname),
            data_dir: ok_result_of(opts.data_dir),
            max_pods: ok_result_of(opts.max_pods),
            bootstrap_file: FieldState::Valid(opts.bootstrap_file),
            server_addr: ok_result_of(opts.addr),
            server_port: ok_result_of(opts.port),
            server_tls_cert_file: ok_result_of(opts.tls_cert_file),
            server_tls_private_key_file: ok_result_of(opts.tls_private_key_file),
        }
    }

    /// What a configuration file gives: a missing file gives nothing.
    pub fn from_config_file(file_text: Option<&str>) -> (r: Result<ConfigBuilder, ConfigError>)
        ensures
            match r {
                Ok(b) => b.wf() && file_model(text_of(file_text)) == Ok::<
                    ConfigModel,
                    Seq<char>,
                >(b@),
                Err(e) => e matches ConfigError::Source(m) && file_model(text_of(file_text)) == Err::<ConfigModel, Seq<char>>(m@),
            },
    {
        match file_text {
            Some(t) => ConfigBuilder::from_json_text(t),
            None => Ok(ConfigBuilder::empty()),
        }
    }
}

fn cert_path_under(data_dir: String) -> (r: String)
    ensures
        r@ == path_join(data_dir@, "config/krustlet.crt"@),
{
    default_cert_path(data_dir.as_str())
}

fn key_path_under(data_dir: String) -> (r: String)
    ensures
        r@ == path_join(data_dir@, "config/krustlet.key"@),
{
    default_key_path(data_dir.as_str())
}

impl Config {
    /// The configuration that command-line options give over a configuration
    /// file (`None` where there is no file). A file that cannot be read
    /// fails even where the options would override all of it.
    pub fn new_from_file_and_flags<H, D, C, K, N>(
        file_text: Option<&str>,
        opts: Opts,
        fallbacks: Fallbacks<H, D, C, K, N>,
    ) -> (r: Result<Config, ConfigError>) where
        H: Fn() -> Result<String, String>,
        D: Fn() -> Result<String, String>,
        C: Fn(String) -> String,
        K: Fn(String) -> String,
        N: Fn(String, IpAddress) -> Result<IpAddress, String>,

        requires
            fallbacks_callable(fallbacks),
        ensures
            match file_model(text_of(file_text)) {
                Ok(f) => resolves_to(merged(f, opts_model(opts)), fallbacks, r),
                Err(m) => r matches Err(ConfigError::Source(e)) && e@ == m,
            },
    {
        let cli = ConfigBuilder::from_opts(opts);
        let file = match ConfigBuilder::from_config_file(file_text) {
            Ok(b) => b,
            Err(e) => {
                return Err(e);
            },
        };
        file.with_override(cli).build(fallbacks)
    }

    /// The configuration that a configuration file gives (`None` where
    /// there is no file), with fallbacks for what it leaves out.
    pub fn new_from_file<H, D, C, K, N>(
        file_text: Option<&str>,
        fallbacks: Fallbacks<H, D, C, K, N>,
    ) -> (r: Result<Config, ConfigError>) where
        H: Fn() -> Result<String, String>,
        D: Fn() -> Result<String, String>,
        C: Fn(String) -> String,
        K: Fn(String) -> String,
        N: Fn(String, IpAddress) -> Result<IpAddress, String>,

        requires
            fallbacks_callable(fallbacks),
        ensures
            match file_model(text_of(file_text)) {
                Ok(f) => resolves_to(f, fallbacks, r),
                Err(m) => r matches Err(ConfigError::Source(e)) && e@ == m,
            },
    {
        match ConfigBuilder::from_config_file(file_text) {
            Ok(b) => b.build(fallbacks),
            Err(e) => Err(e),
        }
    }

    /// The configuration that command-line options give, with fallbacks for
    /// what they leave out.
    pub fn new_from_flags<H, D, C, K, N>(opts: Opts, fallbacks: Fallbacks<H, D, C, K, N>) -> (r:
        Result<Config, ConfigError>) where
        H: Fn() -> Result<String, String>,
        D: Fn() -> Result<String, String>,
        C: Fn(String) -> String,
        K: Fn(String) -> String,
        N: Fn(String, IpAddress) -> Result<IpAddress, String>,

        requires
            fallbacks_callable(fallbacks),
        ensures
            resolves_to(opts_model(opts), fallbacks, r),
    {
        ConfigBuilder::from_opts(opts).build(fallbacks)
    }

    /// The configuration with every default: the machine's host name, the
    /// data directory under the home directory, files under it, the
    /// unspecified address of `preferred_ip_family`'s family, and the node IP
    /// that `node_ip` finds for the host name.
    pub fn default_config<N>(preferred_ip_family: &IpAddress, node_ip: N) -> (r: Result<
        Config,
        ConfigError,
    >) where N: Fn(String, IpAddress) -> Result<IpAddress, String>
        requires
            forall|h: String, a: IpAddress| node_ip.requires((h, a)),
        ensures
            match r {
                Ok(c) => {
                    &&& exists|home: Seq<char>| c.data_dir@ == path_join(home, ".krustlet"@)
                    &&& c.server_config.addr == spec_unspecified_of(*preferred_ip_family)
                    &&& c.server_config.port == 3000
                    &&& c.server_config.tls_cert_file@ == path_join(
                        c.data_dir@,
                        "config/krustlet.crt"@,
                    )
                    &&& c.server_config.tls_private_key_file@ == path_join(
                        c.data_dir@,
                        "config/krustlet.key"@,
                    )
                    &&& node_ip.ensures((c.hostname, c.server_config.addr), Ok(c.node_ip))
                    &&& c.node_name@ == lowercase_of(c.hostname@)
                    &&& c.max_pods == 110
                    &&& c.node_labels@.len() == 0
                    &&& c.bootstrap_file@ == default_bootstrap_file()
                },
                Err(e) => e matches ConfigError::InvalidField { field, cause } && (field
                    == FieldId::Hostname || field == FieldId::DataDir || field == FieldId::NodeIp),
            },
    {
        let fallbacks = Fallbacks {
            hostname: default_hostname,
            data_dir: default_data_dir,
            cert_path: cert_path_under,
            key_path: key_path_under,
            node_ip,
            preferred_ip_family: *preferred_ip_family,
        };
        ConfigBuilder::empty().build(fallbacks)
    }
}

} // verus!
