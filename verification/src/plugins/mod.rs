//! Plugins: their manifests and lifecycle states, the HTTP requests and
//! responses exchanged with them, and the registry that routes requests and
//! commands to them.
use vstd::prelude::*;
use crate::text::{string_of, utf8_bytes};

pub mod manager;
pub mod perl;
pub mod registry;

verus! {

/// What a plugin says about itself.
#[derive(Debug, Clone)]
pub struct PluginManifest {
    /// Plugin name.
    pub name: String,
    /// Semantic version (e.g. "1.0.0").
    pub version: String,
    /// Plugin author.
    pub author: String,
    /// Optional description.
    pub description: Option<String>,
    /// Minimum required server version.
    pub min_server_version: Option<String>,
    /// Names of the plugins this one needs.
    pub dependencies: Vec<String>,
    /// Capabilities the plugin offers.
    pub capabilities: Vec<String>,
    /// Whether the plugin is enforced (cannot be disabled).
    pub enforced: bool,
}

/// Server settings handed to plugins; directories are given as paths in text.
#[derive(Debug, Clone)]
pub struct PluginConfig {
    pub server_version: String,
    pub data_dir: String,
    pub plugin_dir: String,
    pub base_url: String,
}

/// Why a plugin operation failed, with the detail text of each case.
#[derive(Debug)]
pub enum PluginError {
    InitializationError(String),
    LoadError(String),
    NotFound(String),
    AlreadyLoaded(String),
    InvalidManifest(String),
    MissingDependency(String),
    IoError(String),
    SerializationError(String),
}

/// The text shown for an error: a fixed prefix per case and the detail.
pub open spec fn plugin_error_text(e: PluginError) -> Seq<char> {
    match e {
        PluginError::InitializationError(d) => "Plugin initialization failed: "@ + d@,
        PluginError::LoadError(d) => "Plugin load failed: "@ + d@,
        PluginError::NotFound(d) => "Plugin not found: "@ + d@,
        PluginError::AlreadyLoaded(d) => "Plugin already loaded: "@ + d@,
        PluginError::InvalidManifest(d) => "Invalid plugin manifest: "@ + d@,
        PluginError::MissingDependency(d) => "Dependency missing: "@ + d@,
        PluginError::IoError(d) => "IO error: "@ + d@,
        PluginError::SerializationError(d) => "Serialization error: "@ + d@,
    }
}

/// Appends the characters of `s` to `out`.
pub fn push_str_chars(out: &mut Vec<char>, s: &str)
    ensures
        final(out)@ == old(out)@ + s@,
{
    let c = crate::text::chars_of(s);
    let mut i: usize = 0;
    while i < c.len()
        invariant
            c@ == s@,
            i <= c@.len(),
            out@ == old(out)@ + c@.take(i as int),
        decreases c@.len() - i,
    {
        out.push(c[i]);
        i = i + 1;
        assert(out@ =~= old(out)@ + c@.take(i as int));
    }
    assert(c@.take(c@.len() as int) =~= c@);
}

/// `prefix` followed by `detail`, as one string.
pub fn concat_str(prefix: &str, detail: &str) -> (r: String)
    ensures
        r@ == prefix@ + detail@,
{
    let mut v: Vec<char> = Vec::new();
    push_str_chars(&mut v, prefix);
    push_str_chars(&mut v, detail);
    crate::text::string_from_chars(v.as_slice())
}

impl PluginError {
    /// The text shown for this error.
    pub fn message(&self) -> (s: String)
        ensures
            s@ == plugin_error_text(*self),
    {
        match self {
            PluginError::InitializationError(d) => concat_str("Plugin initialization failed: ", d.as_str()),
            PluginError::LoadError(d) => concat_str("Plugin load failed: ", d.as_str()),
            PluginError::NotFound(d) => concat_str("Plugin not found: ", d.as_str()),
            PluginError::AlreadyLoaded(d) => concat_str("Plugin already loaded: ", d.as_str()),
            PluginError::InvalidManifest(d) => concat_str("Invalid plugin manifest: ", d.as_str()),
            PluginError::MissingDependency(d) => concat_str("Dependency missing: ", d.as_str()),
            PluginError::IoError(d) => concat_str("IO error: ", d.as_str()),
            PluginError::SerializationError(d) => concat_str("Serialization error: ", d.as_str()),
        }
    }
}

impl From<String> for PluginError {
    fn from(s: String) -> (r: Self) {
        PluginError::InitializationError(s)
    }
}

impl vstd::std_specs::convert::FromSpecImpl<String> for PluginError {
    open spec fn obeys_from_spec() -> bool {
        true
    }

    open spec fn from_spec(s: String) -> Self {
        PluginError::InitializationError(s)
    }
}

/// A route a plugin serves: method, path (or pattern) and the plugin's
/// handler for it.
#[derive(Debug, Clone)]
pub struct HttpRoute {
    pub method: String,
    pub path: String,
    pub handler_id: String,
}

/// An HTTP request handed to a plugin; headers and query parameters are
/// name/value pairs.
#[derive(Debug, Clone)]
pub struct HttpRequest {
    pub method: String,
    pub path: String,
    pub headers: Vec<(String, String)>,
    pub body: Vec<u8>,
    pub query: Vec<(String, String)>,
}

/// A plugin's HTTP response.
#[derive(Debug, Clone)]
pub struct HttpResponse {
    pub status: u16,
    pub headers: Vec<(String, String)>,
    pub body: Vec<u8>,
}

impl HttpResponse {
    /// Status 200 with the given body and no headers.
    pub fn ok(body: Vec<u8>) -> (r: Self)
        ensures
            r.status == 200,
            r.headers@.len() == 0,
            r.body@ == body@,
    {
        Self { status: 200, headers: Vec::new(), body }
    }

    /// Status 200 with a JSON body already serialised, labelled
    /// `Content-Type: application/json`.
    pub fn json_body(body: Vec<u8>) -> (r: Self)
        ensures
            r.status == 200,
            r.headers@.len() == 1,
            r.headers@[0].0@ == "Content-Type"@,
            r.headers@[0].1@ == "application/json"@,
            r.body@ == body@,
    {
        let mut headers: Vec<(String, String)> = Vec::new();
        headers.push((string_of("Content-Type"), string_of("application/json")));
        Self { status: 200, headers, body }
    }

    /// The given status with the message's UTF-8 bytes as body and no headers.
    pub fn error(status: u16, message: &str) -> (r: Self)
        ensures
            r.status == status,
            r.headers@.len() == 0,
            r.body@ == vstd::utf8::encode_utf8(message@),
    {
        Self { status, headers: Vec::new(), body: utf8_bytes(message) }
    }
}

/// Where a plugin is in its lifecycle.
#[derive(Debug, Clone, Copy, PartialEq, Eq, Structural)]
pub enum PluginState {
    /// Discovered but not loaded.
    Discovered,
    /// Loaded successfully.
    Loaded,
    /// Initialisation failed.
    Failed,
    /// Disabled by the user.
    Disabled,
    /// Unloaded.
    Unloaded,
}

} // verus!
