//! The configuration document model: the well-known sections, each with
//! an ordered bag of unrecognized keys carried through untouched, so that
//! a round trip loses nothing the model does not understand.
use vstd::prelude::*;

verus! {

use crate::text::trim_spec;
use crate::text::trim_chars;
use crate::text::str_to_chars;

/// An unrecognized raw value, carried through as the parser produced it.
/// Relies on `toml::Value` only as an opaque container.
#[verifier::external_type_specification]
#[verifier::external_body]
pub struct ExTomlValue(toml::Value);

/// A source replacement rule.
#[derive(Clone, Debug)]
pub struct SourceEntry {
    pub registry: Option<String>,
    pub replace_with: Option<String>,
}

/// The default registry selection.
#[derive(Clone, Debug)]
pub struct RegistryConfig {
    pub default: Option<String>,
}

/// Network behavior switches.
#[derive(Clone, Debug)]
pub struct NetConfig {
    pub offline: Option<bool>,
    pub git_fetch_with_cli: Option<bool>,
}

/// HTTP transport settings.
#[derive(Clone, Debug)]
pub struct HttpConfig {
    pub proxy: Option<String>,
    pub check_revoke: Option<bool>,
    pub multiplexing: Option<bool>,
    pub cainfo: Option<String>,
    pub timeout: Option<u32>,
    pub low_speed_limit: Option<u32>,
}

/// HTTPS transport settings.
#[derive(Clone, Debug)]
pub struct HttpsConfig {
    pub proxy: Option<String>,
}

/// Build settings, with its own bag of unrecognized keys.
#[derive(Clone, Debug)]
pub struct BuildConfig {
    pub jobs: Option<u32>,
    pub target: Option<String>,
    pub rustc_wrapper: Option<String>,
    pub rustflags: Option<Vec<String>>,
    pub rustdocflags: Option<Vec<String>>,
    pub other: Vec<(String, toml::Value)>,
}

/// Per-target settings, with its own bag of unrecognized keys.
#[derive(Clone, Debug)]
pub struct TargetConfig {
    pub linker: Option<String>,
    pub ar: Option<String>,
    pub rustflags: Option<Vec<String>>,
    pub runner: Option<String>,
    pub other: Vec<(String, toml::Value)>,
}

/// A named build profile, with its own bag of unrecognized keys. The
/// flexible fields hold raw values, since their TOML types vary.
#[derive(Clone, Debug)]
pub struct ProfileConfig {
    pub opt_level: Option<toml::Value>,
    pub lto: Option<toml::Value>,
    pub codegen_units: Option<u32>,
    pub debug: Option<toml::Value>,
    pub strip: Option<toml::Value>,
    pub panic: Option<String>,
    pub trim_paths: Option<String>,
    pub other: Vec<(String, toml::Value)>,
}

/// An injected environment variable: a plain value or a value with
/// placement switches.
#[derive(Clone, Debug)]
pub enum EnvValue {
    Simple(String),
    Object(EnvObject),
}

/// An injected environment variable with placement switches.
#[derive(Clone, Debug)]
pub struct EnvObject {
    pub value: String,
    pub force: Option<bool>,
    pub relative: Option<bool>,
}

/// Documentation settings.
#[derive(Clone, Debug)]
pub struct DocConfig {
    pub browser: Option<String>,
    pub open_result: Option<bool>,
}

/// A named registry.
#[derive(Clone, Debug)]
pub struct RegistryEntry {
    pub index: Option<String>,
    pub token: Option<String>,
}

/// The whole configuration document: every well-known section optional,
/// the named sections as ordered mappings, and an ordered bag of
/// unrecognized top-level keys.
#[derive(Clone, Debug)]
pub struct CargoConfig {
    pub source: Option<Vec<(String, SourceEntry)>>,
    pub registry: Option<RegistryConfig>,
    pub net: Option<NetConfig>,
    pub http: Option<HttpConfig>,
    pub https: Option<HttpsConfig>,
    pub build: Option<BuildConfig>,
    pub target: Option<Vec<(String, TargetConfig)>>,
    pub env: Option<Vec<(String, EnvValue)>>,
    pub profile: Option<Vec<(String, ProfileConfig)>>,
    pub alias: Option<Vec<(String, String)>>,
    pub doc: Option<DocConfig>,
    pub registries: Option<Vec<(String, RegistryEntry)>>,
    pub other: Vec<(String, toml::Value)>,
}

/// A document with no section and no unrecognized key.
pub open spec fn config_is_empty(c: CargoConfig) -> bool {
    c.source is None && c.registry is None && c.net is None && c.http is None && c.https is None
        && c.build is None && c.target is None && c.env is None && c.profile is None
        && c.alias is None && c.doc is None && c.registries is None && c.other@.len() == 0
}

impl Default for CargoConfig {
    /// The empty document a missing or blank file loads as.
    fn default() -> (r: Self)
        ensures
            config_is_empty(r),
    {
        CargoConfig {
            source: None,
            registry: None,
            net: None,
            http: None,
            https: None,
            build: None,
            target: None,
            env: None,
            profile: None,
            alias: None,
            doc: None,
            registries: None,
            other: Vec::new(),
        }
    }
}

impl Default for RegistryConfig {
    fn default() -> (r: Self)
        ensures
            r.default is None,
    {
        RegistryConfig { default: None }
    }
}

impl Default for NetConfig {
    fn default() -> (r: Self)
        ensures
            r.offline is None && r.git_fetch_with_cli is None,
    {
        NetConfig { offline: None, git_fetch_with_cli: None }
    }
}

impl Default for HttpsConfig {
    fn default() -> (r: Self)
        ensures
            r.proxy is None,
    {
        HttpsConfig { proxy: None }
    }
}

impl Default for DocConfig {
    fn default() -> (r: Self)
        ensures
            r.browser is None && r.open_result is None,
    {
        DocConfig { browser: None, open_result: None }
    }
}

/// Whether file content is blank: empty or whitespace only. A blank
/// configuration file loads as the empty default document rather than
/// being handed to the parser.
pub fn is_blank_text(content: &str) -> (r: bool)
    ensures
        r == (trim_spec(content@).len() == 0),
{
    let cv = str_to_chars(content);
    let t = trim_chars(&cv);
    t.len() == 0
}

} // verus!
