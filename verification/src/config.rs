//! Proxy configuration: built-in defaults, environment overrides and the
//! non-fatal validation warnings shown at startup.
//!
//! Reading the YAML file and the process environment, and looking at the file
//! system, happen around this module: it receives the environment as a list
//! of `(name, value)` pairs and the state of the configured paths as a
//! `PathStatus`.
use vstd::prelude::*;
use crate::text::{chars_of, eq_str, lower, lower_vec, parse_unsigned, parse_unsigned_exec, string_of, trim, trim_vec};

verus! {

/// Whether this build carries the HTTP/3 (QUIC) listener.
pub const HTTP3_FEATURE: bool = false;

/// Whether this build carries the OpenTelemetry exporter.
pub const OTEL_FEATURE: bool = false;

pub fn default_timeout_secs() -> (r: u64)
    ensures
        r == 30,
{
    30
}

pub fn default_connect_timeout_secs() -> (r: u64)
    ensures
        r == 10,
{
    10
}

pub fn default_handshake_timeout_secs() -> (r: u64)
    ensures
        r == 10,
{
    10
}

pub fn default_shutdown_grace_secs() -> (r: u64)
    ensures
        r == 10,
{
    10
}

pub fn default_max_body_bytes() -> (r: usize)
    ensures
        r == 10 * 1024 * 1024,
{
    10 * 1024 * 1024
}

pub fn default_pool_max_idle_per_host() -> (r: usize)
    ensures
        r == 10,
{
    10
}

pub fn default_pool_idle_timeout_secs() -> (r: u64)
    ensures
        r == 30,
{
    30
}

pub fn default_max_sessions() -> (r: usize)
    ensures
        r == 10_000,
{
    10_000
}

pub fn default_max_retained_body_bytes() -> (r: usize)
    ensures
        r == 64 * 1024 * 1024,
{
    64 * 1024 * 1024
}

pub fn default_max_connections() -> (r: usize)
    ensures
        r == 1024,
{
    1024
}

pub fn default_bind_host() -> (r: String)
    ensures
        r@ == "127.0.0.1"@,
{
    string_of(&chars_of("127.0.0.1"))
}

pub fn default_mitm_config() -> (r: MitmConfig)
    ensures
        !r.enabled,
        r.root_ca_path@ == "./certs"@,
{
    MitmConfig { enabled: false, root_ca_path: string_of(&chars_of("./certs")) }
}

pub fn default_storage_path() -> (r: String)
    ensures
        r@ == "./storage"@,
{
    string_of(&chars_of("./storage"))
}

pub fn default_log_level() -> (r: String)
    ensures
        r@ == "info"@,
{
    string_of(&chars_of("info"))
}

pub fn default_log_dir() -> (r: String)
    ensures
        r@ == "."@,
{
    string_of(&chars_of("."))
}

pub fn default_log_file() -> (r: String)
    ensures
        r@ == "server.log"@,
{
    string_of(&chars_of("server.log"))
}

pub fn default_inspect_ws_frames() -> (r: bool)
    ensures
        r,
{
    true
}

pub fn default_allow_remote_admin() -> (r: bool)
    ensures
        !r,
{
    false
}

pub fn default_allow_private_admin_egress() -> (r: bool)
    ensures
        !r,
{
    false
}

pub fn default_update_check() -> (r: bool)
    ensures
        r,
{
    true
}

pub fn default_map_local_base_path() -> (r: Option<String>)
    ensures
        r is None,
{
    None
}

#[derive(Debug, Clone)]
pub struct LogConfig {
    /// Log level: trace, debug, info, warn, error.
    pub level: String,
    /// Directory where rolling log files are written.
    pub dir: String,
    /// Log file name prefix (rotated daily, date suffix appended).
    pub file: String,
}

impl Default for LogConfig {
    fn default() -> (r: Self)
        ensures
            r.level@ == "info"@,
            r.dir@ == "."@,
            r.file@ == "server.log"@,
    {
        LogConfig { level: default_log_level(), dir: default_log_dir(), file: default_log_file() }
    }
}

#[derive(Debug, Clone)]
pub struct MitmConfig {
    pub enabled: bool,
    pub root_ca_path: String,
}

/// Proxy configuration. Paths are kept as the strings they were configured with.
#[derive(Debug, Clone)]
pub struct Config {
    pub port: u16,
    /// IP address the proxy binds to.
    pub bind_host: String,
    /// Man-in-the-Middle interception of HTTPS traffic.
    pub mitm: MitmConfig,
    /// Path to the storage directory.
    pub storage_path: String,
    /// Upstream request timeout in seconds.
    pub timeout_secs: u64,
    /// TCP connect timeout for CONNECT, SOCKS5, and WebSocket upstream dials.
    pub connect_timeout_secs: u64,
    /// Timeout for client-side SOCKS5 and TLS handshake phases.
    pub handshake_timeout_secs: u64,
    /// Time to wait for listeners and connections after a shutdown signal.
    pub shutdown_grace_secs: u64,
    /// Maximum request/response body buffered in memory (bytes).
    pub max_body_bytes: usize,
    /// Max idle connections kept per upstream host.
    pub pool_max_idle_per_host: usize,
    /// Idle connection eviction timeout (seconds).
    pub pool_idle_timeout_secs: u64,
    /// Maximum sessions retained in memory.
    pub max_sessions: usize,
    /// Approximate request/response body bytes retained across sessions.
    pub max_retained_body_bytes: usize,
    /// Maximum concurrent accepted downstream connections.
    pub max_connections: usize,
    /// Optional second listener port that accepts TLS connections.
    pub https_port: Option<u16>,
    /// Parse and log individual WebSocket frames.
    pub inspect_ws_frames: bool,
    /// Allow the management UI/API on non-loopback Host headers.
    pub allow_remote_admin: bool,
    /// Optional shared secret for the management UI/API.
    pub admin_token: Option<String>,
    /// Allow admin-initiated outbound requests to private networks.
    pub allow_private_admin_egress: bool,
    /// Upstream proxy URL for chaining.
    pub upstream_proxy: Option<String>,
    /// Port to listen for SOCKS5 connections.
    pub socks5_port: Option<u16>,
    /// Enable the HTTP/3 (QUIC) listener.
    pub http3_enabled: bool,
    /// UDP port for the HTTP/3 (QUIC) listener.
    pub http3_port: Option<u16>,
    /// Export per-exchange protocol spans over OpenTelemetry.
    pub otel_enabled: bool,
    /// OTLP collector endpoint.
    pub otel_endpoint: Option<String>,
    /// Base directory for map_local fixture files.
    pub map_local_base_path: Option<String>,
    /// Check for a newer release once at startup.
    pub update_check: bool,
    /// Logging configuration.
    pub log: LogConfig,
}

/// The view of an optional string.
pub open spec fn opt_view(o: Option<String>) -> Option<Seq<char>> {
    match o {
        Some(s) => Some(s@),
        None => None,
    }
}

impl Default for Config {
    fn default() -> (r: Self)
        ensures
            r.port == 8080,
            r.bind_host@ == "127.0.0.1"@,
            !r.mitm.enabled,
            r.mitm.root_ca_path@ == "./certs"@,
            r.storage_path@ == "./storage"@,
            r.timeout_secs == 30,
            r.connect_timeout_secs == 10,
            r.handshake_timeout_secs == 10,
            r.shutdown_grace_secs == 10,
            r.max_body_bytes == 10 * 1024 * 1024,
            r.pool_max_idle_per_host == 10,
            r.pool_idle_timeout_secs == 30,
            r.max_sessions == 10_000,
            r.max_retained_body_bytes == 64 * 1024 * 1024,
            r.max_connections == 1024,
            r.log.level@ == "info"@,
            r.log.dir@ == "."@,
            r.log.file@ == "server.log"@,
            r.https_port is None,
            r.inspect_ws_frames,
            !r.allow_remote_admin,
            r.admin_token is None,
            !r.allow_private_admin_egress,
            r.upstream_proxy is None,
            r.socks5_port is None,
            !r.http3_enabled,
            r.http3_port is None,
            !r.otel_enabled,
            r.otel_endpoint is None,
            r.map_local_base_path is None,
            r.update_check,
    {
        Config {
            port: 8080,
            bind_host: default_bind_host(),
            mitm: default_mitm_config(),
            storage_path: default_storage_path(),
            timeout_secs: default_timeout_secs(),
            connect_timeout_secs: default_connect_timeout_secs(),
            handshake_timeout_secs: default_handshake_timeout_secs(),
            shutdown_grace_secs: default_shutdown_grace_secs(),
            max_body_bytes: default_max_body_bytes(),
            pool_max_idle_per_host: default_pool_max_idle_per_host(),
            pool_idle_timeout_secs: default_pool_idle_timeout_secs(),
            max_sessions: default_max_sessions(),
            max_retained_body_bytes: default_max_retained_body_bytes(),
            max_connections: default_max_connections(),
            log: LogConfig::default(),
            https_port: None,
            inspect_ws_frames: default_inspect_ws_frames(),
            allow_remote_admin: default_allow_remote_admin(),
            admin_token: None,
            allow_private_admin_egress: default_allow_private_admin_egress(),
            upstream_proxy: None,
            socks5_port: None,
            http3_enabled: false,
            http3_port: None,
            otel_enabled: false,
            otel_endpoint: None,
            map_local_base_path: default_map_local_base_path(),
            update_check: default_update_check(),
        }
    }
}

/// An exact copy of an optional string.
pub fn clone_opt_string(o: &Option<String>) -> (r: Option<String>)
    ensures
        r == *o,
{
    match o {
        Some(s) => Some(s.clone()),
        None => None,
    }
}

impl Config {
    /// An exact copy of the configuration.
    pub fn duplicate(&self) -> (r: Config)
        ensures
            r == *self,
    {
        Config {
            port: self.port,
            bind_host: self.bind_host.clone(),
            mitm: MitmConfig { enabled: self.mitm.enabled, root_ca_path: self.mitm.root_ca_path.clone() },
            storage_path: self.storage_path.clone(),
            timeout_secs: self.timeout_secs,
            connect_timeout_secs: self.connect_timeout_secs,
            handshake_timeout_secs: self.handshake_timeout_secs,
            shutdown_grace_secs: self.shutdown_grace_secs,
            max_body_bytes: self.max_body_bytes,
            pool_max_idle_per_host: self.pool_max_idle_per_host,
            pool_idle_timeout_secs: self.pool_idle_timeout_secs,
            max_sessions: self.max_sessions,
            max_retained_body_bytes: self.max_retained_body_bytes,
            max_connections: self.max_connections,
            https_port: self.https_port,
            inspect_ws_frames: self.inspect_ws_frames,
            allow_remote_admin: self.allow_remote_admin,
            admin_token: clone_opt_string(&self.admin_token),
            allow_private_admin_egress: self.allow_private_admin_egress,
            upstream_proxy: clone_opt_string(&self.upstream_proxy),
            socks5_port: self.socks5_port,
            http3_enabled: self.http3_enabled,
            http3_port: self.http3_port,
            otel_enabled: self.otel_enabled,
            otel_endpoint: clone_opt_string(&self.otel_endpoint),
            map_local_base_path: clone_opt_string(&self.map_local_base_path),
            update_check: self.update_check,
            log: LogConfig {
                level: self.log.level.clone(),
                dir: self.log.dir.clone(),
                file: self.log.file.clone(),
            },
        }
    }
}

// ───────────────────────── validation ─────────────────────────

/// What the file system says about the configured paths.
#[derive(Debug, Clone, Copy)]
pub struct PathStatus {
    pub storage_exists: bool,
    /// The storage directory's metadata says read-only, or cannot be read.
    pub storage_readonly: bool,
    pub root_ca_exists: bool,
    /// The map_local base directory exists (ignored when none is configured).
    pub map_local_exists: bool,
}

/// `xs` followed by `w` when `cond` holds.
pub open spec fn push_if(xs: Seq<Seq<char>>, cond: bool, w: Seq<char>) -> Seq<Seq<char>> {
    if cond {
        xs.push(w)
    } else {
        xs
    }
}

/// Warnings about numeric limits, in order.
pub open spec fn limit_warnings(c: Config) -> Seq<Seq<char>> {
    let w0 = push_if(Seq::empty(), c.port == 0, "port is 0 - OS will assign an ephemeral port"@);
    let w1 = push_if(
        w0,
        c.timeout_secs == 0,
        "timeout_secs is 0 - upstream requests will never time out"@,
    );
    let w2 = push_if(
        w1,
        c.connect_timeout_secs == 0,
        "connect_timeout_secs is 0 - TCP connect attempts time out immediately"@,
    );
    let w3 = push_if(
        w2,
        c.handshake_timeout_secs == 0,
        "handshake_timeout_secs is 0 - protocol handshakes time out immediately"@,
    );
    let w4 = push_if(
        w3,
        c.shutdown_grace_secs == 0,
        "shutdown_grace_secs is 0 - active connections are not drained"@,
    );
    let w5 = push_if(
        w4,
        c.max_body_bytes == 0,
        "max_body_bytes is 0 - request/response bodies will not be buffered"@,
    );
    push_if(
        w5,
        c.max_connections == 0,
        "max_connections is 0 - all downstream connections will be rejected"@,
    )
}

/// Warnings about the configured paths, in order.
pub open spec fn path_warnings(c: Config, p: PathStatus) -> Seq<Seq<char>> {
    let w0 = if !p.storage_exists {
        seq!["storage_path '"@ + c.storage_path@ + "' does not exist - it will be created on startup"@]
    } else if p.storage_readonly {
        seq!["storage_path '"@ + c.storage_path@ + "' appears to be read-only"@]
    } else {
        Seq::empty()
    };
    let w1 = push_if(
        w0,
        c.mitm.enabled && !p.root_ca_exists,
        "mitm.root_ca_path '"@ + c.mitm.root_ca_path@
            + "' does not exist - CA will be generated on first start"@,
    );
    match c.map_local_base_path {
        Some(path) => push_if(
            w1,
            !p.map_local_exists,
            "map_local_base_path '"@ + path@
                + "' does not exist - map_local rules will fail at runtime"@,
        ),
        None => w1,
    }
}

/// Warnings about optional listeners and exporters, in order.
pub open spec fn feature_warnings(c: Config) -> Seq<Seq<char>> {
    let w0 = push_if(
        Seq::empty(),
        c.http3_enabled && c.http3_port is None,
        "http3_enabled is true but http3_port is not set - the HTTP/3 listener will not start"@,
    );
    let w1 = match c.http3_port {
        Some(h3) => {
            let a = push_if(
                w0,
                h3 == c.port,
                "http3_port equals the TCP port - HTTP/3 uses UDP so this is allowed, but a distinct port is recommended"@,
            );
            push_if(
                a,
                !HTTP3_FEATURE,
                "http3_port is set but the binary was built without the `http3` feature - HTTP/3 is unavailable"@,
            )
        },
        None => w0,
    };
    if c.otel_enabled {
        let a = push_if(
            w1,
            c.otel_endpoint is None,
            "otel_enabled is true but otel_endpoint is not set - no spans will be exported"@,
        );
        push_if(
            a,
            !OTEL_FEATURE,
            "otel_enabled is true but the binary was built without the `otel` feature - OpenTelemetry export is unavailable"@,
        )
    } else {
        w1
    }
}

/// No usable admin token is configured (absent or blank).
pub open spec fn admin_token_missing(c: Config) -> bool {
    match c.admin_token {
        Some(t) => trim(t@).len() == 0,
        None => true,
    }
}

/// A bind address that listens on every interface.
pub open spec fn is_wildcard_host(h: Seq<char>) -> bool {
    h == "0.0.0.0"@ || h == "::"@ || h == "[::]"@
}

/// Warnings about exposing the management plane, in order.
pub open spec fn admin_warnings(c: Config) -> Seq<Seq<char>> {
    let w0 = push_if(
        Seq::empty(),
        c.allow_remote_admin && admin_token_missing(c),
        "allow_remote_admin is enabled without admin_token - management APIs are exposed"@,
    );
    let w1 = push_if(
        w0,
        is_wildcard_host(trim(c.bind_host@)) && admin_token_missing(c),
        "bind_host is wildcard without admin_token - use OPROXY_ADMIN_TOKEN when exposing the proxy to untrusted clients"@,
    );
    push_if(
        w1,
        c.allow_remote_admin && c.allow_private_admin_egress,
        "allow_private_admin_egress is enabled with remote admin - admin forward/webhook requests can reach private networks"@,
    )
}

/// All validation warnings, in the order they are reported.
pub open spec fn validation_warnings(c: Config, p: PathStatus) -> Seq<Seq<char>> {
    limit_warnings(c) + path_warnings(c, p) + feature_warnings(c) + admin_warnings(c)
}

/// The views of a list of strings.
pub open spec fn strings_view(v: Seq<String>) -> Seq<Seq<char>> {
    v.map_values(|s: String| s@)
}

fn push_lit(warnings: &mut Vec<String>, lit: &str)
    ensures
        strings_view(final(warnings)@) == strings_view(old(warnings)@).push(lit@),
{
    let s = string_of(&chars_of(lit));
    warnings.push(s);
    assert(strings_view(warnings@) =~= strings_view(old(warnings)@).push(lit@));
}

fn push_lit_if(warnings: &mut Vec<String>, cond: bool, lit: &str)
    ensures
        strings_view(final(warnings)@) == push_if(strings_view(old(warnings)@), cond, lit@),
{
    if cond {
        push_lit(warnings, lit);
    }
}

fn push_around(warnings: &mut Vec<String>, pre: &str, mid: &str, post: &str)
    ensures
        strings_view(final(warnings)@) == strings_view(old(warnings)@).push(pre@ + mid@ + post@),
{
    let mut v = chars_of(pre);
    let m = chars_of(mid);
    let p = chars_of(post);
    let mut i: usize = 0;
    while i < m.len()
        invariant
            i <= m.len(),
            v@ == pre@ + m@.subrange(0, i as int),
        decreases m.len() - i,
    {
        v.push(m[i]);
        i = i + 1;
        assert(v@ =~= pre@ + m@.subrange(0, i as int));
    }
    assert(m@.subrange(0, m.len() as int) =~= m@);
    let mut j: usize = 0;
    while j < p.len()
        invariant
            j <= p.len(),
            v@ == pre@ + m@ + p@.subrange(0, j as int),
        decreases p.len() - j,
    {
        v.push(p[j]);
        j = j + 1;
        assert(v@ =~= pre@ + m@ + p@.subrange(0, j as int));
    }
    assert(p@.subrange(0, p.len() as int) =~= p@);
    let s = string_of(&v);
    warnings.push(s);
    assert(strings_view(warnings@) =~= strings_view(old(warnings)@).push(pre@ + mid@ + post@));
}

impl Config {
    /// Returns the human-readable, non-fatal validation warnings.
    pub fn validate(&self, paths: &PathStatus) -> (warnings: Vec<String>)
        ensures
            strings_view(warnings@) == validation_warnings(*self, *paths),
    {
        let mut warnings: Vec<String> = Vec::new();
        self.validate_limits(&mut warnings);
        self.validate_paths(paths, &mut warnings);
        self.validate_optional_features(&mut warnings);
        self.validate_admin_security(&mut warnings);
        assert(strings_view(warnings@) =~= Seq::<Seq<char>>::empty() + limit_warnings(*self)
            + path_warnings(*self, *paths) + feature_warnings(*self) + admin_warnings(*self));
        assert(Seq::<Seq<char>>::empty() + limit_warnings(*self) =~= limit_warnings(*self));
        warnings
    }

    fn validate_limits(&self, warnings: &mut Vec<String>)
        ensures
            strings_view(final(warnings)@) == strings_view(old(warnings)@) + limit_warnings(*self),
    {
        let ghost start = strings_view(warnings@);
        let ghost mut w: Seq<Seq<char>> = Seq::empty();
        assert(strings_view(warnings@) =~= start + w);
        push_lit_if(warnings, self.port == 0, "port is 0 - OS will assign an ephemeral port");
        proof {
            w = push_if(w, self.port == 0, "port is 0 - OS will assign an ephemeral port"@);
            assert(strings_view(warnings@) =~= start + w);
        }
        push_lit_if(warnings, self.timeout_secs == 0, "timeout_secs is 0 - upstream requests will never time out");
        proof {
            w = push_if(w, self.timeout_secs == 0, "timeout_secs is 0 - upstream requests will never time out"@);
            assert(strings_view(warnings@) =~= start + w);
        }
        push_lit_if(warnings, self.connect_timeout_secs == 0, "connect_timeout_secs is 0 - TCP connect attempts time out immediately");
        proof {
            w = push_if(w, self.connect_timeout_secs == 0, "connect_timeout_secs is 0 - TCP connect attempts time out immediately"@);
            assert(strings_view(warnings@) =~= start + w);
        }
        push_lit_if(warnings, self.handshake_timeout_secs == 0, "handshake_timeout_secs is 0 - protocol handshakes time out immediately");
        proof {
            w = push_if(w, self.handshake_timeout_secs == 0, "handshake_timeout_secs is 0 - protocol handshakes time out immediately"@);
            assert(strings_view(warnings@) =~= start + w);
        }
        push_lit_if(warnings, self.shutdown_grace_secs == 0, "shutdown_grace_secs is 0 - active connections are not drained");
        proof {
            w = push_if(w, self.shutdown_grace_secs == 0, "shutdown_grace_secs is 0 - active connections are not drained"@);
            assert(strings_view(warnings@) =~= start + w);
        }
        push_lit_if(warnings, self.max_body_bytes == 0, "max_body_bytes is 0 - request/response bodies will not be buffered");
        proof {
            w = push_if(w, self.max_body_bytes == 0, "max_body_bytes is 0 - request/response bodies will not be buffered"@);
            assert(strings_view(warnings@) =~= start + w);
        }
        push_lit_if(warnings, self.max_connections == 0, "max_connections is 0 - all downstream connections will be rejected");
        proof {
            w = push_if(w, self.max_connections == 0, "max_connections is 0 - all downstream connections will be rejected"@);
            assert(strings_view(warnings@) =~= start + w);
        }
    }

    fn validate_paths(&self, paths: &PathStatus, warnings: &mut Vec<String>)
        ensures
            strings_view(final(warnings)@) == strings_view(old(warnings)@) + path_warnings(
                *self,
                *paths,
            ),
    {
        let ghost start = strings_view(warnings@);
        if !paths.storage_exists {
            push_around(
                warnings,
                "storage_path '",
                self.storage_path.as_str(),
                "' does not exist - it will be created on startup",
            );
        } else if paths.storage_readonly {
            push_around(
                warnings,
                "storage_path '",
                self.storage_path.as_str(),
                "' appears to be read-only",
            );
        }
        if self.mitm.enabled && !paths.root_ca_exists {
            push_around(
                warnings,
                "mitm.root_ca_path '",
                self.mitm.root_ca_path.as_str(),
                "' does not exist - CA will be generated on first start",
            );
        }
        match &self.map_local_base_path {
            Some(path) => {
                if !paths.map_local_exists {
                    push_around(
                        warnings,
                        "map_local_base_path '",
                        path.as_str(),
                        "' does not exist - map_local rules will fail at runtime",
                    );
                }
            },
            None => {},
        }
        assert(strings_view(warnings@) =~= start + path_warnings(*self, *paths));
    }

    fn validate_optional_features(&self, warnings: &mut Vec<String>)
        ensures
            strings_view(final(warnings)@) == strings_view(old(warnings)@) + feature_warnings(
                *self,
            ),
    {
        let ghost start = strings_view(warnings@);
        if self.http3_enabled && self.http3_port.is_none() {
            push_lit(
                warnings,
                "http3_enabled is true but http3_port is not set - the HTTP/3 listener will not start",
            );
        }
        if let Some(h3) = self.http3_port {
            if h3 == self.port {
                push_lit(
                    warnings,
                    "http3_port equals the TCP port - HTTP/3 uses UDP so this is allowed, but a distinct port is recommended",
                );
            }
            if !HTTP3_FEATURE {
                push_lit(
                    warnings,
                    "http3_port is set but the binary was built without the `http3` feature - HTTP/3 is unavailable",
                );
            }
        }
        if self.otel_enabled {
            if self.otel_endpoint.is_none() {
                push_lit(
                    warnings,
                    "otel_enabled is true but otel_endpoint is not set - no spans will be exported",
                );
            }
            if !OTEL_FEATURE {
                push_lit(
                    warnings,
                    "otel_enabled is true but the binary was built without the `otel` feature - OpenTelemetry export is unavailable",
                );
            }
        }
        assert(strings_view(warnings@) =~= start + feature_warnings(*self));
    }

    fn validate_admin_security(&self, warnings: &mut Vec<String>)
        ensures
            strings_view(final(warnings)@) == strings_view(old(warnings)@) + admin_warnings(
                *self,
            ),
    {
        let ghost start = strings_view(warnings@);
        let admin_token_missing = match &self.admin_token {
            Some(token) => {
                let t = chars_of(token.as_str());
                let tt = trim_vec(&t);
                tt.len() == 0
            },
            None => true,
        };
        if self.allow_remote_admin && admin_token_missing {
            push_lit(
                warnings,
                "allow_remote_admin is enabled without admin_token - management APIs are exposed",
            );
        }
        let b = chars_of(self.bind_host.as_str());
        let bt = trim_vec(&b);
        let wildcard = eq_str(&bt, "0.0.0.0") || eq_str(&bt, "::") || eq_str(&bt, "[::]");
        if wildcard && admin_token_missing {
            push_lit(
                warnings,
                "bind_host is wildcard without admin_token - use OPROXY_ADMIN_TOKEN when exposing the proxy to untrusted clients",
            );
        }
        if self.allow_remote_admin && self.allow_private_admin_egress {
            push_lit(
                warnings,
                "allow_private_admin_egress is enabled with remote admin - admin forward/webhook requests can reach private networks",
            );
        }
        assert(strings_view(warnings@) =~= start + admin_warnings(*self));
    }
}

/// A configuration with every numeric limit positive, a TCP listener port,
/// no optional listeners or exporters, and the management plane bound to a
/// non-wildcard host with remote admin off, is accepted without any warning
/// when its storage directory exists and is writable.
pub proof fn law_safe_configuration_is_silent(c: Config, p: PathStatus)
    requires
        c.port != 0,
        c.timeout_secs != 0,
        c.connect_timeout_secs != 0,
        c.handshake_timeout_secs != 0,
        c.shutdown_grace_secs != 0,
        c.max_body_bytes != 0,
        c.max_connections != 0,
        p.storage_exists,
        !p.storage_readonly,
        !c.mitm.enabled,
        c.map_local_base_path is None,
        !c.http3_enabled,
        c.http3_port is None,
        !c.otel_enabled,
        !c.allow_remote_admin,
        !is_wildcard_host(trim(c.bind_host@)),
    ensures
        validation_warnings(c, p) == Seq::<Seq<char>>::empty(),
{
    assert(validation_warnings(c, p) =~= Seq::<Seq<char>>::empty());
}

/// Remote admin without a usable token is always reported.
pub proof fn law_exposed_admin_is_reported(c: Config, p: PathStatus)
    requires
        c.allow_remote_admin,
        admin_token_missing(c),
    ensures
        validation_warnings(c, p).contains(
            "allow_remote_admin is enabled without admin_token - management APIs are exposed"@,
        ),
{
    let w = validation_warnings(c, p);
    let pre = limit_warnings(c) + path_warnings(c, p) + feature_warnings(c);
    assert(w[pre.len() as int] == admin_warnings(c)[0]);
}

} // verus!
