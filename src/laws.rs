//! Laws that relate merging and resolution.
use vstd::prelude::*;
use crate::address::{IpAddress, spec_unspecified_of};
use crate::config::{
    Config, ConfigModel, Fallbacks, default_bootstrap_file, empty_model, fallback_failed,
    invalid_cause, is_present, merged, resolves_to,
};
use crate::error::{ConfigError, FieldId};
use crate::paths::lowercase_of;

verus! {

/// Merging is associative: laying `c` over the merge of `a` and `b` is the
/// same as laying the merge of `b` and `c` over `a`.
pub proof fn merge_is_associative(a: ConfigModel, b: ConfigModel, c: ConfigModel)
    ensures
        merged(merged(a, b), c) == merged(a, merged(b, c)),
{
}

/// A field that is unusable in `a` but present (usable or not) in `b` never
/// fails the resolution of `b` laid over `a` with `a`'s reason: where the
/// resolution stops at that field, the reason is the one `b` gave.
pub proof fn overridden_invalid_is_never_reported<H, D, C, K, N>(
    a: ConfigModel,
    b: ConfigModel,
    fallbacks: Fallbacks<H, D, C, K, N>,
    f: FieldId,
    r: Result<Config, ConfigError>,
) where
    H: Fn() -> Result<String, String>,
    D: Fn() -> Result<String, String>,
    C: Fn(String) -> String,
    K: Fn(String) -> String,
    N: Fn(String, IpAddress) -> Result<IpAddress, String>,

    requires
        invalid_cause(a, f) is Some,
        is_present(b, f),
        resolves_to(merged(a, b), fallbacks, r),
    ensures
        r matches Err(e) ==> (e is InvalidField && e->field == f ==> invalid_cause(b, f) == Some(
            e->cause@,
        )),
{
}

/// A field left unusable after merging fails resolution with an error whose
/// text names the field, when no earlier field is unusable and no earlier
/// fallback that can fail does fail.
pub proof fn unusable_field_is_named<H, D, C, K, N>(
    m: ConfigModel,
    fallbacks: Fallbacks<H, D, C, K, N>,
    f: FieldId,
    r: Result<Config, ConfigError>,
) where
    H: Fn() -> Result<String, String>,
    D: Fn() -> Result<String, String>,
    C: Fn(String) -> String,
    K: Fn(String) -> String,
    N: Fn(String, IpAddress) -> Result<IpAddress, String>,

    requires
        invalid_cause(m, f) is Some,
        forall|g: FieldId| g.rank() < f.rank() ==> invalid_cause(m, g) is None,
        f.rank() > FieldId::Hostname.rank() ==> forall|e: String|
            !fallbacks.hostname.ensures((), Err(e)),
        f.rank() > FieldId::DataDir.rank() ==> forall|e: String|
            !fallbacks.data_dir.ensures((), Err(e)),
        f.rank() > FieldId::NodeIp.rank() ==> forall|h: String, a: IpAddress, e: String|
            !fallbacks.node_ip.ensures((h, a), Err(e)),
        resolves_to(m, fallbacks, r),
    ensures
        r matches Err(e) && e == (ConfigError::InvalidField {
            field: f,
            cause: e->cause,
        }) && invalid_cause(m, f) == Some(e->cause@),
        r matches Err(e) && e.spec_text().subrange(8, 8 + f.spec_name().len() as int)
            == f.spec_name(),
{
    match r {
        Ok(c) => {
            assert(invalid_cause(m, f) is Some);
            assert(false);
        },
        Err(e) => {
            let g = e->field;
            if g.rank() < f.rank() {
                assert(invalid_cause(m, g) is None);
                assert(fallback_failed(m, fallbacks, g, e->cause@));
                assert(false);
            } else if g.rank() > f.rank() {
                assert(invalid_cause(m, f) is None);
                assert(false);
            } else {
                assert(g == f);
                if invalid_cause(m, f) != Some(e->cause@) {
                    assert(fallback_failed(m, fallbacks, f, e->cause@));
                    assert(false);
                }
            }
            crate::error::field_error_names_field(f, e->cause@);
        },
    }
}

/// Resolving a configuration in which no source gave anything yields the
/// fallbacks and compiled-in defaults, or fails only where a fallback did.
pub proof fn empty_resolves_to_defaults<H, D, C, K, N>(
    fallbacks: Fallbacks<H, D, C, K, N>,
    r: Result<Config, ConfigError>,
) where
    H: Fn() -> Result<String, String>,
    D: Fn() -> Result<String, String>,
    C: Fn(String) -> String,
    K: Fn(String) -> String,
    N: Fn(String, IpAddress) -> Result<IpAddress, String>,

    requires
        resolves_to(empty_model(), fallbacks, r),
    ensures
        match r {
            Ok(c) => {
                &&& fallbacks.hostname.ensures((), Ok(c.hostname))
                &&& fallbacks.data_dir.ensures((), Ok(c.data_dir))
                &&& c.server_config.addr == spec_unspecified_of(fallbacks.preferred_ip_family)
                &&& fallbacks.cert_path.ensures((c.data_dir,), c.server_config.tls_cert_file)
                &&& fallbacks.key_path.ensures((c.data_dir,), c.server_config.tls_private_key_file)
                &&& c.server_config.port == 3000
                &&& fallbacks.node_ip.ensures(
                    (c.hostname, c.server_config.addr),
                    Ok(c.node_ip),
                )
                &&& c.node_name@ == lowercase_of(c.hostname@)
                &&& c.max_pods == 110
                &&& c.node_labels@.len() == 0
                &&& c.bootstrap_file@ == default_bootstrap_file()
            },
            Err(e) => e matches ConfigError::InvalidField { field, cause } && fallback_failed(
                empty_model(),
                fallbacks,
                field,
                cause@,
            ),
        },
{
    if let Err(e) = r {
        let f = e->field;
        assert(invalid_cause(empty_model(), f) is None);
    }
}

} // verus!
