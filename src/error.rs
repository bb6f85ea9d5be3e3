//! Errors of configuration resolution.
use vstd::prelude::*;
use vstd::string::StringExecFns;

verus! {

/// The logical configuration fields, named as an operator knows them.
#[derive(Clone, Copy, Debug, PartialEq, Eq, Structural)]
pub enum FieldId {
    Hostname,
    DataDir,
    ServerAddress,
    TlsCertFile,
    TlsPrivateKeyFile,
    ServerPort,
    NodeIp,
    NodeName,
    MaxPods,
    NodeLabels,
    BootstrapFile,
}

impl FieldId {
    pub open spec fn spec_name(self) -> Seq<char> {
        match self {
            FieldId::Hostname => "hostname"@,
            FieldId::DataDir => "data directory"@,
            FieldId::ServerAddress => "server address"@,
            FieldId::TlsCertFile => "TLS certificate file"@,
            FieldId::TlsPrivateKeyFile => "TLS private key file"@,
            FieldId::ServerPort => "server port"@,
            FieldId::NodeIp => "node IP"@,
            FieldId::NodeName => "node name"@,
            FieldId::MaxPods => "maximum pods"@,
            FieldId::NodeLabels => "node labels"@,
            FieldId::BootstrapFile => "bootstrap file"@,
        }
    }

    /// The position of the field in the fixed resolution order.
    pub open spec fn rank(self) -> nat {
        match self {
            FieldId::Hostname => 0,
            FieldId::DataDir => 1,
            FieldId::ServerAddress => 2,
            FieldId::TlsCertFile => 3,
            FieldId::TlsPrivateKeyFile => 4,
            FieldId::ServerPort => 5,
            FieldId::NodeIp => 6,
            FieldId::NodeName => 7,
            FieldId::MaxPods => 8,
            FieldId::NodeLabels => 9,
            FieldId::BootstrapFile => 10,
        }
    }

    pub fn name(&self) -> (r: &'static str)
        ensures
            r@ == self.spec_name(),
    {
        match self {
            FieldId::Hostname => "hostname",
            FieldId::DataDir => "data directory",
            FieldId::ServerAddress => "server address",
            FieldId::TlsCertFile => "TLS certificate file",
            FieldId::TlsPrivateKeyFile => "TLS private key file",
            FieldId::ServerPort => "server port",
            FieldId::NodeIp => "node IP",
            FieldId::NodeName => "node name",
            FieldId::MaxPods => "maximum pods",
            FieldId::NodeLabels => "node labels",
            FieldId::BootstrapFile => "bootstrap file",
        }
    }
}

/// Why a configuration could not be resolved.
#[derive(Debug)]
pub enum ConfigError {
    /// A source as a whole could not be read; the parser's own words.
    Source(String),
    /// The winning state of one field was unusable, or its fallback failed.
    InvalidField { field: FieldId, cause: String },
}

pub open spec fn field_error_text(field: FieldId, cause: Seq<char>) -> Seq<char> {
    "invalid "@ + field.spec_name() + " in configuration: "@ + cause
}

impl ConfigError {
    pub open spec fn spec_text(&self) -> Seq<char> {
        match self {
            ConfigError::Source(m) => m@,
            ConfigError::InvalidField { field, cause } => field_error_text(*field, cause@),
        }
    }

    /// The message shown to an operator.
    pub fn to_text(&self) -> (r: String)
        ensures
            r@ == self.spec_text(),
    {
        match self {
            ConfigError::Source(m) => m.clone(),
            ConfigError::InvalidField { field, cause } => {
                let r = String::from_str("invalid ");
                let r = r.concat(field.name());
                let r = r.concat(" in configuration: ");
                r.concat(cause.as_str())
            },
        }
    }
}

/// The error for a field whose winning state failed with `cause`.
pub fn invalid_config_value_error(cause: String, field: FieldId) -> (r: ConfigError)
    ensures
        r == (ConfigError::InvalidField { field, cause }),
{
    ConfigError::InvalidField { field, cause }
}

/// The text of a field error holds the field's name, right after "invalid ".
pub proof fn field_error_names_field(field: FieldId, cause: Seq<char>)
    ensures
        field_error_text(field, cause).subrange(8, 8 + field.spec_name().len() as int)
            == field.spec_name(),
{
    reveal_strlit("invalid ");
    let t = field_error_text(field, cause);
    let n = field.spec_name();
    assert(t.subrange(8, 8 + n.len() as int) =~= n);
}

} // verus!
