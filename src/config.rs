//! Partial configurations, their merge, and their resolution into a
//! finished configuration.
use vstd::prelude::*;
use vstd::string::StringExecFns;
use crate::address::{IpAddress, spec_unspecified_of, unspecified_of};
use crate::error::{ConfigError, FieldId, invalid_config_value_error};
use crate::field::{FieldModel, FieldState};
use crate::labels::Labels;
use crate::paths::{lowercase_of, sanitize_hostname};

verus! {

pub const DEFAULT_PORT: u16 = 3000;

pub const DEFAULT_MAX_PODS: u16 = 110;

pub open spec fn default_bootstrap_file() -> Seq<char> {
    "/etc/kubernetes/bootstrap-kubelet.conf"@
}

/// The compiled-in place of the TLS bootstrap file.
pub fn bootstrap_file_default() -> (r: String)
    ensures
        r@ == default_bootstrap_file(),
{
    String::from_str("/etc/kubernetes/bootstrap-kubelet.conf")
}

/// The Kubelet server's part of the configuration.
#[derive(Debug)]
pub struct ServerConfig {
    pub addr: IpAddress,
    pub port: u16,
    pub tls_cert_file: String,
    pub tls_private_key_file: String,
}

/// The finished configuration of a node agent; every field is usable.
#[derive(Debug)]
pub struct Config {
    pub node_ip: IpAddress,
    pub hostname: String,
    pub node_name: String,
    pub server_config: ServerConfig,
    pub data_dir: String,
    pub node_labels: Labels,
    pub max_pods: u16,
    pub bootstrap_file: String,
}

/// A configuration as one source (or a merge of sources) gave it: each field
/// absent, present but unusable, or present and usable.
#[derive(Debug)]
pub struct ConfigBuilder {
    pub node_ip: FieldState<IpAddress>,
    pub hostname: FieldState<String>,
    pub node_name: FieldState<String>,
    pub data_dir: FieldState<String>,
    pub node_labels: FieldState<Labels>,
    pub max_pods: FieldState<u16>,
    pub bootstrap_file: FieldState<String>,
    pub server_addr: FieldState<IpAddress>,
    pub server_port: FieldState<u16>,
    pub server_tls_cert_file: FieldState<String>,
    pub server_tls_private_key_file: FieldState<String>,
}

/// The meaning of a `ConfigBuilder`.
pub struct ConfigModel {
    pub node_ip: FieldModel<IpAddress>,
    pub hostname: FieldModel<Seq<char>>,
    pub node_name: FieldModel<Seq<char>>,
    pub data_dir: FieldModel<Seq<char>>,
    pub node_labels: FieldModel<Seq<(Seq<char>, Seq<char>)>>,
    pub max_pods: FieldModel<u16>,
    pub bootstrap_file: FieldModel<Seq<char>>,
    pub server_addr: FieldModel<IpAddress>,
    pub server_port: FieldModel<u16>,
    pub server_tls_cert_file: FieldModel<Seq<char>>,
    pub server_tls_private_key_file: FieldModel<Seq<char>>,
}

impl View for ConfigBuilder {
    type V = ConfigModel;

    open spec fn view(&self) -> ConfigModel {
        ConfigModel {
            node_ip: self.node_ip@,
            hostname: self.hostname@,
            node_name: self.node_name@,
            data_dir: self.data_dir@,
            node_labels: self.node_labels@,
            max_pods: self.max_pods@,
            bootstrap_file: self.bootstrap_file@,
            server_addr: self.server_addr@,
            server_port: self.server_port@,
            server_tls_cert_file: self.server_tls_cert_file@,
            server_tls_private_key_file: self.server_tls_private_key_file@,
        }
    }
}

/// The configuration in which no source gave anything.
pub open spec fn empty_model() -> ConfigModel {
    ConfigModel {
        node_ip: FieldModel::Absent,
        hostname: FieldModel::Absent,
        node_name: FieldModel::Absent,
        data_dir: FieldModel::Absent,
        node_labels: FieldModel::Absent,
        max_pods: FieldModel::Absent,
        bootstrap_file: FieldModel::Absent,
        server_addr: FieldModel::Absent,
        server_port: FieldModel::Absent,
        server_tls_cert_file: FieldModel::Absent,
        server_tls_private_key_file: FieldModel::Absent,
    }
}

/// `over` laid on `base`, field by field.
pub open spec fn merged(base: ConfigModel, over: ConfigModel) -> ConfigModel {
    ConfigModel {
        node_ip: base.node_ip.overridden_by(over.node_ip),
        hostname: base.hostname.overridden_by(over.hostname),
        node_name: base.node_name.overridden_by(over.node_name),
        data_dir: base.data_dir.overridden_by(over.data_dir),
        node_labels: base.node_labels.overridden_by(over.node_labels),
        max_pods: base.max_pods.overridden_by(over.max_pods),
        bootstrap_file: base.bootstrap_file.overridden_by(over.bootstrap_file),
        server_addr: base.server_addr.overridden_by(over.server_addr),
        server_port: base.server_port.overridden_by(over.server_port),
        server_tls_cert_file: base.server_tls_cert_file.overridden_by(over.server_tls_cert_file),
        server_tls_private_key_file: base.server_tls_private_key_file.overridden_by(
            over.server_tls_private_key_file,
        ),
    }
}

pub open spec fn cause_of<V>(s: FieldModel<V>) -> Option<Seq<char>> {
    match s {
        FieldModel::Invalid(c) => Some(c),
        _ => None,
    }
}

/// The failure reason of field `f`, where `f` is present but unusable.
pub open spec fn invalid_cause(m: ConfigModel, f: FieldId) -> Option<Seq<char>> {
    match f {
        FieldId::Hostname => cause_of(m.hostname),
        FieldId::DataDir => cause_of(m.data_dir),
        FieldId::ServerAddress => cause_of(m.server_addr),
        FieldId::TlsCertFile => cause_of(m.server_tls_cert_file),
        FieldId::TlsPrivateKeyFile => cause_of(m.server_tls_private_key_file),
        FieldId::ServerPort => cause_of(m.server_port),
        FieldId::NodeIp => cause_of(m.node_ip),
        FieldId::NodeName => cause_of(m.node_name),
        FieldId::MaxPods => cause_of(m.max_pods),
        FieldId::NodeLabels => cause_of(m.node_labels),
        FieldId::BootstrapFile => cause_of(m.bootstrap_file),
    }
}

/// Whether some source gave field `f`, usable or not.
pub open spec fn is_present(m: ConfigModel, f: FieldId) -> bool {
    match f {
        FieldId::Hostname => !(m.hostname is Absent),
        FieldId::DataDir => !(m.data_dir is Absent),
        FieldId::ServerAddress => !(m.server_addr is Absent),
        FieldId::TlsCertFile => !(m.server_tls_cert_file is Absent),
        FieldId::TlsPrivateKeyFile => !(m.server_tls_private_key_file is Absent),
        FieldId::ServerPort => !(m.server_port is Absent),
        FieldId::NodeIp => !(m.node_ip is Absent),
        FieldId::NodeName => !(m.node_name is Absent),
        FieldId::MaxPods => !(m.max_pods is Absent),
        FieldId::NodeLabels => !(m.node_labels is Absent),
        FieldId::BootstrapFile => !(m.bootstrap_file is Absent),
    }
}

/// The functions that supply a field no source gave. Those that depend on
/// other fields receive their resolved values. Absent bind addresses become
/// the unspecified address of `preferred_ip_family`'s family.
pub struct Fallbacks<H, D, C, K, N> {
    pub hostname: H,
    pub data_dir: D,
    pub cert_path: C,
    pub key_path: K,
    pub node_ip: N,
    pub preferred_ip_family: IpAddress,
}

/// A field's resolved value `v`: the source's value where it gave a usable
/// one, what `fallback` says where it gave none; never an unusable one.
pub open spec fn took<V>(s: FieldModel<V>, v: V, fallback: bool) -> bool {
    match s {
        FieldModel::Valid(x) => v == x,
        FieldModel::Absent => fallback,
        FieldModel::Invalid(_) => false,
    }
}

/// The fallbacks can be called on every argument.
pub open spec fn fallbacks_callable<H, D, C, K, N>(fb: Fallbacks<H, D, C, K, N>) -> bool where
    H: Fn() -> Result<String, String>,
    D: Fn() -> Result<String, String>,
    C: Fn(String) -> String,
    K: Fn(String) -> String,
    N: Fn(String, IpAddress) -> Result<IpAddress, String>,
 {
    &&& fb.hostname.requires(())
    &&& fb.data_dir.requires(())
    &&& forall|d: String| fb.cert_path.requires((d,))
    &&& forall|d: String| fb.key_path.requires((d,))
    &&& forall|h: String, a: IpAddress| fb.node_ip.requires((h, a))
}

/// `c` is what `b` resolves to: each field is the source's usable value or,
/// where absent, the fallback's (handed the resolved fields it depends on) or
/// the compiled-in default.
pub open spec fn built_from<H, D, C, K, N>(
    b: ConfigModel,
    fb: Fallbacks<H, D, C, K, N>,
    c: Config,
) -> bool where
    H: Fn() -> Result<String, String>,
    D: Fn() -> Result<String, String>,
    C: Fn(String) -> String,
    K: Fn(String) -> String,
    N: Fn(String, IpAddress) -> Result<IpAddress, String>,
 {
    &&& took(b.hostname, c.hostname@, fb.hostname.ensures((), Ok(c.hostname)))
    &&& took(b.data_dir, c.data_dir@, fb.data_dir.ensures((), Ok(c.data_dir)))
    &&& took(
        b.server_addr,
        c.server_config.addr,
        c.server_config.addr == spec_unspecified_of(fb.preferred_ip_family),
    )
    &&& took(
        b.server_tls_cert_file,
        c.server_config.tls_cert_file@,
        fb.cert_path.ensures((c.data_dir,), c.server_config.tls_cert_file),
    )
    &&& took(
        b.server_tls_private_key_file,
        c.server_config.tls_private_key_file@,
        fb.key_path.ensures((c.data_dir,), c.server_config.tls_private_key_file),
    )
    &&& took(b.server_port, c.server_config.port, c.server_config.port == DEFAULT_PORT)
    &&& took(
        b.node_ip,
        c.node_ip,
        fb.node_ip.ensures((c.hostname, c.server_config.addr), Ok(c.node_ip)),
    )
    &&& took(b.node_name, c.node_name@, c.node_name@ == lowercase_of(c.hostname@))
    &&& took(b.max_pods, c.max_pods, c.max_pods == DEFAULT_MAX_PODS)
    &&& took(b.node_labels, c.node_labels@, c.node_labels@.len() == 0)
    &&& took(b.bootstrap_file, c.bootstrap_file@, c.bootstrap_file@ == default_bootstrap_file())
    &&& c.node_labels.wf()
}

/// The fallback of field `f`, called because `f` is absent, failed with `cause`.
pub open spec fn fallback_failed<H, D, C, K, N>(
    b: ConfigModel,
    fb: Fallbacks<H, D, C, K, N>,
    f: FieldId,
    cause: Seq<char>,
) -> bool where
    H: Fn() -> Result<String, String>,
    D: Fn() -> Result<String, String>,
    C: Fn(String) -> String,
    K: Fn(String) -> String,
    N: Fn(String, IpAddress) -> Result<IpAddress, String>,
 {
    match f {
        FieldId::Hostname => b.hostname is Absent && exists|e: String|
            e@ == cause && #[trigger] fb.hostname.ensures((), Err(e)),
        FieldId::DataDir => b.data_dir is Absent && exists|e: String|
            e@ == cause && #[trigger] fb.data_dir.ensures((), Err(e)),
        FieldId::NodeIp => b.node_ip is Absent && exists|h: String, a: IpAddress, e: String|
            e@ == cause && #[trigger] fb.node_ip.ensures((h, a), Err(e)),
        _ => false,
    }
}

/// Resolution of `b` stops at field `f` with `cause`: no earlier field is
/// unusable, and `f` is unusable with that reason or its fallback failed so.
pub open spec fn fails_at<H, D, C, K, N>(
    b: ConfigModel,
    fb: Fallbacks<H, D, C, K, N>,
    f: FieldId,
    cause: Seq<char>,
) -> bool where
    H: Fn() -> Result<String, String>,
    D: Fn() -> Result<String, String>,
    C: Fn(String) -> String,
    K: Fn(String) -> String,
    N: Fn(String, IpAddress) -> Result<IpAddress, String>,
 {
    &&& forall|g: FieldId| g.rank() < f.rank() ==> invalid_cause(b, g) is None
    &&& (invalid_cause(b, f) == Some(cause) || fallback_failed(b, fb, f, cause))
}

/// What resolving `b` with `fb` may return.
pub open spec fn resolves_to<H, D, C, K, N>(
    b: ConfigModel,
    fb: Fallbacks<H, D, C, K, N>,
    r: Result<Config, ConfigError>,
) -> bool where
    H: Fn() -> Result<String, String>,
    D: Fn() -> Result<String, String>,
    C: Fn(String) -> String,
    K: Fn(String) -> String,
    N: Fn(String, IpAddress) -> Result<IpAddress, String>,
 {
    match r {
        Ok(c) => built_from(b, fb, c),
        Err(e) => e matches ConfigError::InvalidField { field, cause } && fails_at(
            b,
            fb,
            field,
            cause@,
        ),
    }
}

impl ConfigBuilder {
    pub open spec fn wf(&self) -> bool {
        self.node_labels matches FieldState::Valid(l) ==> l.wf()
    }

    /// The builder in which every field is absent.
    pub fn empty() -> (r: ConfigBuilder)
        ensures
            r@ == empty_model(),
            r.wf(),
    {
        ConfigBuilder {
            node_ip: FieldState::Absent,
            hostname: FieldState::Absent,
            node_name: FieldState::Absent,
            data_dir: FieldState::Absent,
            node_labels: FieldState::Absent,
            max_pods: FieldState::Absent,
            bootstrap_file: FieldState::Absent,
            server_addr: FieldState::Absent,
            server_port: FieldState::Absent,
            server_tls_cert_file: FieldState::Absent,
            server_tls_private_key_file: FieldState::Absent,
        }
    }

    /// `other` laid over `self`: each field present in `other`, usable or
    /// not, replaces `self`'s; each absent in `other` keeps `self`'s.
    pub fn with_override(self, other: Self) -> (r: Self)
        requires
            self.wf(),
            other.wf(),
        ensures
            r.wf(),
            r@ == merged(self@, other@),
            r@.hostname == (if other@.hostname is Absent {
                self@.hostname
            } else {
                other@.hostname
            }),
            r@.data_dir == (if other@.data_dir is Absent {
                self@.data_dir
            } else {
                other@.data_dir
            }),
            r@.server_addr == (if other@.server_addr is Absent {
                self@.server_addr
            } else {
                other@.server_addr
            }),
            r@.server_tls_cert_file == (if other@.server_tls_cert_file is Absent {
                self@.server_tls_cert_file
            } else {
                other@.server_tls_cert_file
            }),
            r@.server_tls_private_key_file == (if other@.server_tls_private_key_file is Absent {
                self@.server_tls_private_key_file
            } else {
                other@.server_tls_private_key_file
            }),
            r@.server_port == (if other@.server_port is Absent {
                self@.server_port
            } else {
                other@.server_port
            }),
            r@.node_ip == (if other@.node_ip is Absent {
                self@.node_ip
            } else {
                other@.node_ip
            }),
            r@.node_name == (if other@.node_name is Absent {
                self@.node_name
            } else {
                other@.node_name
            }),
            r@.max_pods == (if other@.max_pods is Absent {
                self@.max_pods
            } else {
                other@.max_pods
            }),
            r@.node_labels == (if other@.node_labels is Absent {
                self@.node_labels
            } else {
                other@.node_labels
            }),
            r@.bootstrap_file == (if other@.bootstrap_file is Absent {
                self@.bootstrap_file
            } else {
                other@.bootstrap_file
            }),
    {
        ConfigBuilder {
            node_ip: other.node_ip.over(self.node_ip),
            node_name: other.node_name.over(self.node_name),
            node_labels: other.node_labels.over(self.node_labels),
            hostname: other.hostname.over(self.hostname),
            data_dir: other.data_dir.over(self.data_dir),
            max_pods: other.max_pods.over(self.max_pods),
            bootstrap_file: other.bootstrap_file.over(self.bootstrap_file),
            server_addr: other.server_addr.over(self.server_addr),
            server_port: other.server_port.over(self.server_port),
            server_tls_cert_file: other.server_tls_cert_file.over(self.server_tls_cert_file),
            server_tls_private_key_file: other.server_tls_private_key_file.over(
                self.server_tls_private_key_file,
            ),
        }
    }

    /// Resolves every field in the fixed order hostname, data directory,
    /// server address, certificate, key, port, node IP, node name, maximum
    /// pods, labels, bootstrap file. The first unusable field (or failed
    /// fallback) ends resolution with an error naming that field.
    pub fn build<H, D, C, K, N>(self, fallbacks: Fallbacks<H, D, C, K, N>) -> (r: Result<
        Config,
        ConfigError,
    >) where
        H: Fn() -> Result<String, String>,
        D: Fn() -> Result<String, String>,
        C: Fn(String) -> String,
        K: Fn(String) -> String,
        N: Fn(String, IpAddress) -> Result<IpAddress, String>,

        requires
            self.wf(),
            fallbacks_callable(fallbacks),
        ensures
            resolves_to(self@, fallbacks, r),
    {
        let ghost b = self@;
        let hostname = match self.hostname {
            FieldState::Valid(v) => v,
            FieldState::Invalid(e) => {
                return Err(invalid_config_value_error(e, FieldId::Hostname));
            },
            FieldState::Absent => match (fallbacks.hostname)() {
                Ok(h) => h,
                Err(e) => {
                    assert(fallbacks.hostname.ensures((), Err(e)));
                    return Err(invalid_config_value_error(e, FieldId::Hostname));
                },
            },
        };
        let data_dir = match self.data_dir {
            FieldState::Valid(v) => v,
            FieldState::Invalid(e) => {
                return Err(invalid_config_value_error(e, FieldId::DataDir));
            },
            FieldState::Absent => match (fallbacks.data_dir)() {
                Ok(d) => d,
                Err(e) => {
                    assert(fallbacks.data_dir.ensures((), Err(e)));
                    return Err(invalid_config_value_error(e, FieldId::DataDir));
                },
            },
        };
        let server_addr = match self.server_addr {
            FieldState::Valid(v) => v,
            FieldState::Invalid(e) => {
                return Err(invalid_config_value_error(e, FieldId::ServerAddress));
            },
            FieldState::Absent => unspecified_of(&fallbacks.preferred_ip_family),
        };
        let tls_cert_file = match self.server_tls_cert_file {
            FieldState::Valid(v) => v,
            FieldState::Invalid(e) => {
                return Err(invalid_config_value_error(e, FieldId::TlsCertFile));
            },
            FieldState::Absent => (fallbacks.cert_path)(data_dir.clone()),
        };
        let tls_private_key_file = match self.server_tls_private_key_file {
            FieldState::Valid(v) => v,
            FieldState::Invalid(e) => {
                return Err(invalid_config_value_error(e, FieldId::TlsPrivateKeyFile));
            },
            FieldState::Absent => (fallbacks.key_path)(data_dir.clone()),
        };
        let port = match self.server_port {
            FieldState::Valid(v) => v,
            FieldState::Invalid(e) => {
                return Err(invalid_config_value_error(e, FieldId::ServerPort));
            },
            FieldState::Absent => DEFAULT_PORT,
        };
        let node_ip = match self.node_ip {
            FieldState::Valid(v) => v,
            FieldState::Invalid(e) => {
                return Err(invalid_config_value_error(e, FieldId::NodeIp));
            },
            FieldState::Absent => match (fallbacks.node_ip)(hostname.clone(), server_addr) {
                Ok(a) => a,
                Err(e) => {
                    assert(fallbacks.node_ip.ensures((hostname, server_addr), Err(e)));
                    return Err(invalid_config_value_error(e, FieldId::NodeIp));
                },
            },
        };
        let node_name = match self.node_name {
            FieldState::Valid(v) => v,
            FieldState::Invalid(e) => {
                return Err(invalid_config_value_error(e, FieldId::NodeName));
            },
            FieldState::Absent => sanitize_hostname(hostname.as_str()),
        };
        let max_pods = match self.max_pods {
            FieldState::Valid(v) => v,
            FieldState::Invalid(e) => {
                return Err(invalid_config_value_error(e, FieldId::MaxPods));
            },
            FieldState::Absent => DEFAULT_MAX_PODS,
        };
        let node_labels = match self.node_labels {
            FieldState::Valid(v) => v,
            FieldState::Invalid(e) => {
                return Err(invalid_config_value_error(e, FieldId::NodeLabels));
            },
            FieldState::Absent => Labels::new(),
        };
        let bootstrap_file = match self.bootstrap_file {
            FieldState::Valid(v) => v,
            FieldState::Invalid(e) => {
                return Err(invalid_config_value_error(e, FieldId::BootstrapFile));
            },
            FieldState::Absent => bootstrap_file_default(),
        };
        Ok(
            Config {
                node_ip,
                hostname,
                node_name,
                server_config: ServerConfig {
                    addr: server_addr,
                    port,
                    tls_cert_file,
                    tls_private_key_file,
                },
                data_dir,
                node_labels,
                max_pods,
                bootstrap_file,
            },
        )
    }
}

} // verus!
