//! Environment variable overrides of the configuration.
//!
//! Resolution order (highest wins): `OPROXY_*` environment variables, then
//! fields of the configuration file, then built-in defaults. A variable that
//! is present but cannot be parsed is an error naming the variable and value.
use vstd::prelude::*;
use crate::config::{Config, LogConfig, MitmConfig, opt_view};
use crate::text::{
    chars_of, eq_chars, eq_str, lower, lower_vec, parse_unsigned, parse_unsigned_exec, string_of,
    trim, trim_vec,
};

verus! {

/// The process environment as `(name, value)` pairs.
#[derive(Debug, Clone)]
pub struct EnvVars {
    pub vars: Vec<(String, String)>,
}

impl EnvVars {
    pub open spec fn view_vars(&self) -> Seq<(Seq<char>, Seq<char>)> {
        self.vars@.map_values(|e: (String, String)| (e.0@, e.1@))
    }
}

/// What kind of value a variable should have held.
#[derive(Debug, Clone, Copy, PartialEq, Eq, Structural)]
pub enum EnvErrorKind {
    Number,
    Boolean,
}

/// A variable whose value could not be parsed.
#[derive(Debug, Clone)]
pub struct EnvError {
    pub name: String,
    pub value: String,
    pub kind: EnvErrorKind,
}

/// Value of the first variable called `name`.
pub open spec fn env_lookup(vars: Seq<(Seq<char>, Seq<char>)>, name: Seq<char>) -> Option<Seq<char>>
    decreases vars.len(),
{
    if vars.len() == 0 {
        None
    } else if vars[0].0 == name {
        Some(vars[0].1)
    } else {
        env_lookup(vars.subrange(1, vars.len() as int), name)
    }
}

/// `true/false`, `1/0`, `yes/no`, ignoring case and surrounding whitespace.
pub open spec fn parse_bool_spec(v: Seq<char>) -> Option<bool> {
    let t = lower(trim(v));
    if t == "1"@ || t == "true"@ || t == "yes"@ {
        Some(true)
    } else if t == "0"@ || t == "false"@ || t == "no"@ {
        Some(false)
    } else {
        None
    }
}

/// The trimmed value, or nothing when it is blank.
pub open spec fn non_empty_spec(v: Seq<char>) -> Option<Seq<char>> {
    if trim(v).len() == 0 {
        None
    } else {
        Some(trim(v))
    }
}

/// An optional port: blank or `0` disables it; otherwise a `u16`.
/// The outer `None` is a parse failure.
pub open spec fn parse_optional_port_spec(v: Seq<char>) -> Option<Option<nat>> {
    let t = trim(v);
    if t.len() == 0 || t == "0"@ {
        Some(None)
    } else {
        match parse_unsigned(t, 65535) {
            Some(n) => Some(Some(n)),
            None => None,
        }
    }
}

/// The variable is absent or holds a number no larger than `max`.
pub open spec fn num_ok(env: Seq<(Seq<char>, Seq<char>)>, name: Seq<char>, max: nat) -> bool {
    match env_lookup(env, name) {
        Some(v) => parse_unsigned(v, max) is Some,
        None => true,
    }
}

/// The variable is absent or holds a boolean.
pub open spec fn flag_ok(env: Seq<(Seq<char>, Seq<char>)>, name: Seq<char>) -> bool {
    match env_lookup(env, name) {
        Some(v) => parse_bool_spec(v) is Some,
        None => true,
    }
}

/// The variable is absent or holds an optional port.
pub open spec fn opt_port_ok(env: Seq<(Seq<char>, Seq<char>)>, name: Seq<char>) -> bool {
    match env_lookup(env, name) {
        Some(v) => parse_optional_port_spec(v) is Some,
        None => true,
    }
}

/// The numeric value a variable sets, or `old` when it is absent.
pub open spec fn env_num(env: Seq<(Seq<char>, Seq<char>)>, name: Seq<char>, max: nat, old: nat) -> nat {
    match env_lookup(env, name) {
        Some(v) => parse_unsigned(v, max).unwrap(),
        None => old,
    }
}

/// The boolean a variable sets, or `old` when it is absent.
pub open spec fn env_flag(env: Seq<(Seq<char>, Seq<char>)>, name: Seq<char>, old: bool) -> bool {
    match env_lookup(env, name) {
        Some(v) => parse_bool_spec(v).unwrap(),
        None => old,
    }
}

/// The text a variable sets, or `old` when it is absent.
pub open spec fn env_text(env: Seq<(Seq<char>, Seq<char>)>, name: Seq<char>, old: Seq<char>) -> Seq<
    char,
> {
    match env_lookup(env, name) {
        Some(v) => v,
        None => old,
    }
}

/// The optional text a variable sets (blank clears it), or `old` when absent.
pub open spec fn env_opt_text(
    env: Seq<(Seq<char>, Seq<char>)>,
    name: Seq<char>,
    old: Option<Seq<char>>,
) -> Option<Seq<char>> {
    match env_lookup(env, name) {
        Some(v) => non_empty_spec(v),
        None => old,
    }
}

/// A port that a variable sets (always present when the variable is), or `old`.
pub open spec fn env_some_port(
    env: Seq<(Seq<char>, Seq<char>)>,
    name: Seq<char>,
    old: Option<nat>,
) -> Option<nat> {
    match env_lookup(env, name) {
        Some(v) => Some(parse_unsigned(v, 65535).unwrap()),
        None => old,
    }
}

/// An optional port that a variable sets, or `old`.
pub open spec fn env_opt_port(
    env: Seq<(Seq<char>, Seq<char>)>,
    name: Seq<char>,
    old: Option<nat>,
) -> Option<nat> {
    match env_lookup(env, name) {
        Some(v) => parse_optional_port_spec(v).unwrap(),
        None => old,
    }
}

pub open spec fn opt_port_view(o: Option<u16>) -> Option<nat> {
    match o {
        Some(p) => Some(p as nat),
        None => None,
    }
}

/// The error reported for variable `name`.
pub open spec fn error_for(env: Seq<(Seq<char>, Seq<char>)>, name: Seq<char>) -> Option<
    (Seq<char>, Seq<char>),
> {
    Some((name, env_lookup(env, name).unwrap()))
}

/// First invalid network variable, in the order they are read.
pub open spec fn network_error(env: Seq<(Seq<char>, Seq<char>)>) -> Option<(Seq<char>, Seq<char>)> {
    if !num_ok(env, "OPROXY_PORT"@, 65535) {
        error_for(env, "OPROXY_PORT"@)
    } else if !num_ok(env, "OPROXY_HTTPS_PORT"@, 65535) {
        error_for(env, "OPROXY_HTTPS_PORT"@)
    } else if !flag_ok(env, "OPROXY_HTTP3_ENABLED"@) {
        error_for(env, "OPROXY_HTTP3_ENABLED"@)
    } else if !num_ok(env, "OPROXY_HTTP3_PORT"@, 65535) {
        error_for(env, "OPROXY_HTTP3_PORT"@)
    } else if !opt_port_ok(env, "OPROXY_SOCKS5_PORT"@) {
        error_for(env, "OPROXY_SOCKS5_PORT"@)
    } else {
        None
    }
}

/// First invalid runtime-limit variable, in the order they are read.
pub open spec fn runtime_error(env: Seq<(Seq<char>, Seq<char>)>) -> Option<(Seq<char>, Seq<char>)> {
    if !num_ok(env, "OPROXY_MAX_BODY_BYTES"@, usize::MAX as nat) {
        error_for(env, "OPROXY_MAX_BODY_BYTES"@)
    } else if !num_ok(env, "OPROXY_MAX_SESSIONS"@, usize::MAX as nat) {
        error_for(env, "OPROXY_MAX_SESSIONS"@)
    } else if !num_ok(env, "OPROXY_MAX_RETAINED_BODY_BYTES"@, usize::MAX as nat) {
        error_for(env, "OPROXY_MAX_RETAINED_BODY_BYTES"@)
    } else if !num_ok(env, "OPROXY_MAX_CONNECTIONS"@, usize::MAX as nat) {
        error_for(env, "OPROXY_MAX_CONNECTIONS"@)
    } else if !num_ok(env, "OPROXY_CONNECT_TIMEOUT_SECS"@, u64::MAX as nat) {
        error_for(env, "OPROXY_CONNECT_TIMEOUT_SECS"@)
    } else if !num_ok(env, "OPROXY_HANDSHAKE_TIMEOUT_SECS"@, u64::MAX as nat) {
        error_for(env, "OPROXY_HANDSHAKE_TIMEOUT_SECS"@)
    } else if !num_ok(env, "OPROXY_SHUTDOWN_GRACE_SECS"@, u64::MAX as nat) {
        error_for(env, "OPROXY_SHUTDOWN_GRACE_SECS"@)
    } else if !flag_ok(env, "OPROXY_INSPECT_WS_FRAMES"@) {
        error_for(env, "OPROXY_INSPECT_WS_FRAMES"@)
    } else {
        None
    }
}

/// First invalid security variable, in the order they are read.
pub open spec fn security_error(env: Seq<(Seq<char>, Seq<char>)>) -> Option<(Seq<char>, Seq<char>)> {
    if !flag_ok(env, "OPROXY_MITM_ENABLED"@) {
        error_for(env, "OPROXY_MITM_ENABLED"@)
    } else if !flag_ok(env, "OPROXY_ALLOW_REMOTE_ADMIN"@) {
        error_for(env, "OPROXY_ALLOW_REMOTE_ADMIN"@)
    } else if !flag_ok(env, "OPROXY_ALLOW_PRIVATE_ADMIN_EGRESS"@) {
        error_for(env, "OPROXY_ALLOW_PRIVATE_ADMIN_EGRESS"@)
    } else {
        None
    }
}

/// First invalid observability variable, in the order they are read.
pub open spec fn observability_error(env: Seq<(Seq<char>, Seq<char>)>) -> Option<
    (Seq<char>, Seq<char>),
> {
    if !flag_ok(env, "OPROXY_OTEL_ENABLED"@) {
        error_for(env, "OPROXY_OTEL_ENABLED"@)
    } else if !flag_ok(env, "OPROXY_UPDATE_CHECK"@) {
        error_for(env, "OPROXY_UPDATE_CHECK"@)
    } else {
        None
    }
}

/// First invalid variable overall.
pub open spec fn env_error(env: Seq<(Seq<char>, Seq<char>)>) -> Option<(Seq<char>, Seq<char>)> {
    if network_error(env) is Some {
        network_error(env)
    } else if runtime_error(env) is Some {
        runtime_error(env)
    } else if security_error(env) is Some {
        security_error(env)
    } else {
        observability_error(env)
    }
}

pub open spec fn error_view(e: EnvError) -> (Seq<char>, Seq<char>) {
    (e.name@, e.value@)
}

/// The network fields after the overrides.
pub open spec fn network_applied(env: Seq<(Seq<char>, Seq<char>)>, old: Config, new: Config) -> bool {
    &&& new.port as nat == env_num(env, "OPROXY_PORT"@, 65535, old.port as nat)
    &&& new.bind_host@ == env_text(env, "OPROXY_BIND_HOST"@, old.bind_host@)
    &&& opt_port_view(new.https_port) == env_some_port(
        env,
        "OPROXY_HTTPS_PORT"@,
        opt_port_view(old.https_port),
    )
    &&& new.http3_enabled == env_flag(env, "OPROXY_HTTP3_ENABLED"@, old.http3_enabled)
    &&& opt_port_view(new.http3_port) == env_some_port(
        env,
        "OPROXY_HTTP3_PORT"@,
        opt_port_view(old.http3_port),
    )
    &&& opt_port_view(new.socks5_port) == env_opt_port(
        env,
        "OPROXY_SOCKS5_PORT"@,
        opt_port_view(old.socks5_port),
    )
}

/// The runtime-limit fields after the overrides.
pub open spec fn runtime_applied(env: Seq<(Seq<char>, Seq<char>)>, old: Config, new: Config) -> bool {
    &&& new.max_body_bytes as nat == env_num(
        env,
        "OPROXY_MAX_BODY_BYTES"@,
        usize::MAX as nat,
        old.max_body_bytes as nat,
    )
    &&& new.max_sessions as nat == env_num(
        env,
        "OPROXY_MAX_SESSIONS"@,
        usize::MAX as nat,
        old.max_sessions as nat,
    )
    &&& new.max_retained_body_bytes as nat == env_num(
        env,
        "OPROXY_MAX_RETAINED_BODY_BYTES"@,
        usize::MAX as nat,
        old.max_retained_body_bytes as nat,
    )
    &&& new.max_connections as nat == env_num(
        env,
        "OPROXY_MAX_CONNECTIONS"@,
        usize::MAX as nat,
        old.max_connections as nat,
    )
    &&& new.connect_timeout_secs as nat == env_num(
        env,
        "OPROXY_CONNECT_TIMEOUT_SECS"@,
        u64::MAX as nat,
        old.connect_timeout_secs as nat,
    )
    &&& new.handshake_timeout_secs as nat == env_num(
        env,
        "OPROXY_HANDSHAKE_TIMEOUT_SECS"@,
        u64::MAX as nat,
        old.handshake_timeout_secs as nat,
    )
    &&& new.shutdown_grace_secs as nat == env_num(
        env,
        "OPROXY_SHUTDOWN_GRACE_SECS"@,
        u64::MAX as nat,
        old.shutdown_grace_secs as nat,
    )
    &&& new.inspect_ws_frames == env_flag(env, "OPROXY_INSPECT_WS_FRAMES"@, old.inspect_ws_frames)
}

/// The security fields after the overrides.
pub open spec fn security_applied(env: Seq<(Seq<char>, Seq<char>)>, old: Config, new: Config) -> bool {
    &&& new.mitm.enabled == env_flag(env, "OPROXY_MITM_ENABLED"@, old.mitm.enabled)
    &&& new.allow_remote_admin == env_flag(
        env,
        "OPROXY_ALLOW_REMOTE_ADMIN"@,
        old.allow_remote_admin,
    )
    &&& opt_view(new.admin_token) == env_opt_text(
        env,
        "OPROXY_ADMIN_TOKEN"@,
        opt_view(old.admin_token),
    )
    &&& new.allow_private_admin_egress == env_flag(
        env,
        "OPROXY_ALLOW_PRIVATE_ADMIN_EGRESS"@,
        old.allow_private_admin_egress,
    )
}

/// The observability fields after the overrides.
pub open spec fn observability_applied(
    env: Seq<(Seq<char>, Seq<char>)>,
    old: Config,
    new: Config,
) -> bool {
    &&& new.log.level@ == env_text(env, "OPROXY_LOG_LEVEL"@, old.log.level@)
    &&& new.log.dir@ == env_text(env, "OPROXY_LOG_DIR"@, old.log.dir@)
    &&& new.otel_enabled == env_flag(env, "OPROXY_OTEL_ENABLED"@, old.otel_enabled)
    &&& opt_view(new.otel_endpoint) == env_opt_text(
        env,
        "OPROXY_OTEL_ENDPOINT"@,
        opt_view(old.otel_endpoint),
    )
    &&& new.update_check == env_flag(env, "OPROXY_UPDATE_CHECK"@, old.update_check)
}

/// The path fields after the overrides.
pub open spec fn path_applied(env: Seq<(Seq<char>, Seq<char>)>, old: Config, new: Config) -> bool {
    &&& new.storage_path@ == env_text(env, "OPROXY_STORAGE_PATH"@, old.storage_path@)
    &&& opt_view(new.map_local_base_path) == env_opt_text(
        env,
        "OPROXY_MAP_LOCAL_BASE_PATH"@,
        opt_view(old.map_local_base_path),
    )
}

/// Looks up a variable by name.
pub fn env_value(env: &EnvVars, name: &str) -> (r: Option<String>)
    ensures
        crate::config::opt_view(r) == env_lookup(env.view_vars(), name@),
{
    let target = chars_of(name);
    let mut i: usize = 0;
    assert(env.view_vars().subrange(0, env.vars.len() as int) =~= env.view_vars());
    while i < env.vars.len()
        invariant
            i <= env.vars.len(),
            target@ == name@,
            env_lookup(env.view_vars(), name@) == env_lookup(
                env.view_vars().subrange(i as int, env.vars.len() as int),
                name@,
            ),
        decreases env.vars.len() - i,
    {
        let ghost rest = env.view_vars().subrange(i as int, env.vars.len() as int);
        assert(rest.subrange(1, rest.len() as int) =~= env.view_vars().subrange(
            i + 1,
            env.vars.len() as int,
        ));
        let k = chars_of(env.vars[i].0.as_str());
        if eq_chars(&k, &target) {
            return Some(env.vars[i].1.clone());
        }
        i = i + 1;
    }
    None
}

fn env_err(name: &str, value: &str, kind: EnvErrorKind) -> (e: EnvError)
    ensures
        e.name@ == name@,
        e.value@ == value@,
        e.kind == kind,
{
    EnvError { name: string_of(&chars_of(name)), value: string_of(&chars_of(value)), kind }
}

/// Parses a numeric variable no larger than `max`.
pub fn parse_env(name: &str, value: &str, max: u64) -> (r: Result<u64, EnvError>)
    requires
        max >= 9,
    ensures
        r matches Ok(n) ==> parse_unsigned(value@, max as nat) == Some(n as nat),
        r matches Err(e) ==> parse_unsigned(value@, max as nat) is None && error_view(e) == (
        name@,
        value@,
        ) && e.kind == EnvErrorKind::Number,
{
    let v = chars_of(value);
    match parse_unsigned_exec(&v, max) {
        Some(n) => Ok(n),
        None => Err(env_err(name, value, EnvErrorKind::Number)),
    }
}

/// Parses a boolean variable: `true/false`, `1/0` or `yes/no`, any case.
pub fn parse_env_bool(name: &str, value: &str) -> (r: Result<bool, EnvError>)
    ensures
        r matches Ok(b) ==> parse_bool_spec(value@) == Some(b),
        r matches Err(e) ==> parse_bool_spec(value@) is None && error_view(e) == (name@, value@)
            && e.kind == EnvErrorKind::Boolean,
{
    let v = chars_of(value);
    let t = trim_vec(&v);
    let l = lower_vec(&t);
    if eq_str(&l, "1") || eq_str(&l, "true") || eq_str(&l, "yes") {
        Ok(true)
    } else if eq_str(&l, "0") || eq_str(&l, "false") || eq_str(&l, "no") {
        Ok(false)
    } else {
        Err(env_err(name, value, EnvErrorKind::Boolean))
    }
}

/// The trimmed value, or `None` when it is blank.
pub fn non_empty(value: String) -> (r: Option<String>)
    ensures
        crate::config::opt_view(r) == non_empty_spec(value@),
{
    let v = chars_of(value.as_str());
    let t = trim_vec(&v);
    if t.len() == 0 {
        None
    } else {
        Some(string_of(&t))
    }
}

/// An optional port: blank or `0` disables it.
pub fn parse_optional_port(name: &str, value: &str) -> (r: Result<Option<u16>, EnvError>)
    ensures
        r matches Ok(p) ==> parse_optional_port_spec(value@) == Some(opt_port_view(p)),
        r matches Err(e) ==> parse_optional_port_spec(value@) is None && error_view(e) == (
        name@,
        value@,
        ),
{
    let v = chars_of(value);
    let t = trim_vec(&v);
    if t.len() == 0 || eq_str(&t, "0") {
        Ok(None)
    } else {
        match parse_unsigned_exec(&t, 65535) {
            Some(n) => Ok(Some(n as u16)),
            None => Err(env_err(name, value, EnvErrorKind::Number)),
        }
    }
}

fn read_num(env: &EnvVars, name: &str, max: u64, old: u64) -> (r: Result<u64, EnvError>)
    requires
        max >= 9,
        old <= max,
    ensures
        r matches Ok(n) ==> num_ok(env.view_vars(), name@, max as nat) && n as nat == env_num(
            env.view_vars(),
            name@,
            max as nat,
            old as nat,
        ) && n <= max,
        r matches Err(e) ==> !num_ok(env.view_vars(), name@, max as nat) && (error_view(e)
            == error_for(env.view_vars(), name@).unwrap()),
{
    match env_value(env, name) {
        Some(v) => parse_env(name, v.as_str(), max),
        None => Ok(old),
    }
}

fn read_flag(env: &EnvVars, name: &str, old: bool) -> (r: Result<bool, EnvError>)
    ensures
        r matches Ok(b) ==> flag_ok(env.view_vars(), name@) && b == env_flag(
            env.view_vars(),
            name@,
            old,
        ),
        r matches Err(e) ==> !flag_ok(env.view_vars(), name@) && (error_view(e) == error_for(
            env.view_vars(),
            name@,
        ).unwrap()),
{
    match env_value(env, name) {
        Some(v) => parse_env_bool(name, v.as_str()),
        None => Ok(old),
    }
}

impl Config {
    /// Applies every `OPROXY_*` override. On an invalid value nothing is
    /// changed and the first invalid variable is reported.
    pub fn apply_env_overrides(&mut self, env: &EnvVars) -> (r: Result<(), EnvError>)
        ensures
            r is Ok <==> env_error(env.view_vars()) is None,
            r matches Err(e) ==> Some(error_view(e)) == env_error(env.view_vars()) && *final(self)
                == *old(self),
            r is Ok ==> network_applied(env.view_vars(), *old(self), *final(self))
                && runtime_applied(env.view_vars(), *old(self), *final(self)) && security_applied(
                env.view_vars(),
                *old(self),
                *final(self),
            ) && observability_applied(env.view_vars(), *old(self), *final(self))
                && path_applied(env.view_vars(), *old(self), *final(self)),
    {
        let mut c1 = self.duplicate();
        match c1.apply_network_env(env) {
            Ok(()) => {},
            Err(e) => {
                return Err(e);
            },
        }
        let mut c2 = c1.duplicate();
        match c2.apply_runtime_env(env) {
            Ok(()) => {},
            Err(e) => {
                return Err(e);
            },
        }
        let mut c3 = c2.duplicate();
        match c3.apply_security_env(env) {
            Ok(()) => {},
            Err(e) => {
                return Err(e);
            },
        }
        let mut c4 = c3.duplicate();
        match c4.apply_observability_env(env) {
            Ok(()) => {},
            Err(e) => {
                return Err(e);
            },
        }
        let mut c5 = c4.duplicate();
        c5.apply_path_env(env);
        *self = c5;
        Ok(())
    }

    pub fn apply_network_env(&mut self, env: &EnvVars) -> (r: Result<(), EnvError>)
        ensures
            r is Ok <==> network_error(env.view_vars()) is None,
            r matches Err(e) ==> Some(error_view(e)) == network_error(env.view_vars()),
            r is Ok ==> network_applied(env.view_vars(), *old(self), *final(self)),
            r is Ok ==> *final(self) == (Config {
                port: final(self).port,
                bind_host: final(self).bind_host,
                https_port: final(self).https_port,
                http3_enabled: final(self).http3_enabled,
                http3_port: final(self).http3_port,
                socks5_port: final(self).socks5_port,
                ..*old(self)
            }),
    {
        let port = match read_num(env, "OPROXY_PORT", 65535, self.port as u64) {
            Ok(n) => n as u16,
            Err(e) => {
                return Err(e);
            },
        };
        let bind_host = match env_value(env, "OPROXY_BIND_HOST") {
            Some(v) => v,
            None => self.bind_host.clone(),
        };
        let https_port = match env_value(env, "OPROXY_HTTPS_PORT") {
            Some(v) => match parse_env("OPROXY_HTTPS_PORT", v.as_str(), 65535) {
                Ok(n) => Some(n as u16),
                Err(e) => {
                    return Err(e);
                },
            },
            None => self.https_port,
        };
        let http3_enabled = match read_flag(env, "OPROXY_HTTP3_ENABLED", self.http3_enabled) {
            Ok(b) => b,
            Err(e) => {
                return Err(e);
            },
        };
        let http3_port = match env_value(env, "OPROXY_HTTP3_PORT") {
            Some(v) => match parse_env("OPROXY_HTTP3_PORT", v.as_str(), 65535) {
                Ok(n) => Some(n as u16),
                Err(e) => {
                    return Err(e);
                },
            },
            None => self.http3_port,
        };
        let socks5_port = match env_value(env, "OPROXY_SOCKS5_PORT") {
            Some(v) => match parse_optional_port("OPROXY_SOCKS5_PORT", v.as_str()) {
                Ok(p) => p,
                Err(e) => {
                    return Err(e);
                },
            },
            None => self.socks5_port,
        };
        self.port = port;
        self.bind_host = bind_host;
        self.https_port = https_port;
        self.http3_enabled = http3_enabled;
        self.http3_port = http3_port;
        self.socks5_port = socks5_port;
        Ok(())
    }

    pub fn apply_runtime_env(&mut self, env: &EnvVars) -> (r: Result<(), EnvError>)
        ensures
            r is Ok <==> runtime_error(env.view_vars()) is None,
            r matches Err(e) ==> Some(error_view(e)) == runtime_error(env.view_vars()),
            r is Ok ==> runtime_applied(env.view_vars(), *old(self), *final(self)),
            r is Ok ==> *final(self) == (Config {
                max_body_bytes: final(self).max_body_bytes,
                max_sessions: final(self).max_sessions,
                max_retained_body_bytes: final(self).max_retained_body_bytes,
                max_connections: final(self).max_connections,
                connect_timeout_secs: final(self).connect_timeout_secs,
                handshake_timeout_secs: final(self).handshake_timeout_secs,
                shutdown_grace_secs: final(self).shutdown_grace_secs,
                inspect_ws_frames: final(self).inspect_ws_frames,
                ..*old(self)
            }),
    {
        let max_usize: u64 = usize::MAX as u64;
        let a = match read_num(env, "OPROXY_MAX_BODY_BYTES", max_usize, self.max_body_bytes as u64) {
            Ok(n) => n as usize,
            Err(e) => {
                return Err(e);
            },
        };
        let b = match read_num(env, "OPROXY_MAX_SESSIONS", max_usize, self.max_sessions as u64) {
            Ok(n) => n as usize,
            Err(e) => {
                return Err(e);
            },
        };
        let c = match read_num(
            env,
            "OPROXY_MAX_RETAINED_BODY_BYTES",
            max_usize,
            self.max_retained_body_bytes as u64,
        ) {
            Ok(n) => n as usize,
            Err(e) => {
                return Err(e);
            },
        };
        let d = match read_num(
            env,
            "OPROXY_MAX_CONNECTIONS",
            max_usize,
            self.max_connections as u64,
        ) {
            Ok(n) => n as usize,
            Err(e) => {
                return Err(e);
            },
        };
        let e1 = match read_num(
            env,
            "OPROXY_CONNECT_TIMEOUT_SECS",
            u64::MAX,
            self.connect_timeout_secs,
        ) {
            Ok(n) => n,
            Err(e) => {
                return Err(e);
            },
        };
        let e2 = match read_num(
            env,
            "OPROXY_HANDSHAKE_TIMEOUT_SECS",
            u64::MAX,
            self.handshake_timeout_secs,
        ) {
            Ok(n) => n,
            Err(e) => {
                return Err(e);
            },
        };
        let e3 = match read_num(
            env,
            "OPROXY_SHUTDOWN_GRACE_SECS",
            u64::MAX,
            self.shutdown_grace_secs,
        ) {
            Ok(n) => n,
            Err(e) => {
                return Err(e);
            },
        };
        let ws = match read_flag(env, "OPROXY_INSPECT_WS_FRAMES", self.inspect_ws_frames) {
            Ok(x) => x,
            Err(e) => {
                return Err(e);
            },
        };
        self.max_body_bytes = a;
        self.max_sessions = b;
        self.max_retained_body_bytes = c;
        self.max_connections = d;
        self.connect_timeout_secs = e1;
        self.handshake_timeout_secs = e2;
        self.shutdown_grace_secs = e3;
        self.inspect_ws_frames = ws;
        Ok(())
    }

    pub fn apply_security_env(&mut self, env: &EnvVars) -> (r: Result<(), EnvError>)
        ensures
            r is Ok <==> security_error(env.view_vars()) is None,
            r matches Err(e) ==> Some(error_view(e)) == security_error(env.view_vars()),
            r is Ok ==> security_applied(env.view_vars(), *old(self), *final(self)),
            r is Ok ==> *final(self) == (Config {
                mitm: MitmConfig { enabled: final(self).mitm.enabled, ..old(self).mitm },
                allow_remote_admin: final(self).allow_remote_admin,
                admin_token: final(self).admin_token,
                allow_private_admin_egress: final(self).allow_private_admin_egress,
                ..*old(self)
            }),
    {
        let mitm = match read_flag(env, "OPROXY_MITM_ENABLED", self.mitm.enabled) {
            Ok(b) => b,
            Err(e) => {
                return Err(e);
            },
        };
        let remote = match read_flag(env, "OPROXY_ALLOW_REMOTE_ADMIN", self.allow_remote_admin) {
            Ok(b) => b,
            Err(e) => {
                return Err(e);
            },
        };
        let token = match env_value(env, "OPROXY_ADMIN_TOKEN") {
            Some(v) => non_empty(v),
            None => self.admin_token.clone(),
        };
        let egress = match read_flag(
            env,
            "OPROXY_ALLOW_PRIVATE_ADMIN_EGRESS",
            self.allow_private_admin_egress,
        ) {
            Ok(b) => b,
            Err(e) => {
                return Err(e);
            },
        };
        self.mitm.enabled = mitm;
        self.allow_remote_admin = remote;
        self.admin_token = token;
        self.allow_private_admin_egress = egress;
        Ok(())
    }

    pub fn apply_observability_env(&mut self, env: &EnvVars) -> (r: Result<(), EnvError>)
        ensures
            r is Ok <==> observability_error(env.view_vars()) is None,
            r matches Err(e) ==> Some(error_view(e)) == observability_error(env.view_vars()),
            r is Ok ==> observability_applied(env.view_vars(), *old(self), *final(self)),
            r is Ok ==> *final(self) == (Config {
                log: LogConfig { level: final(self).log.level, dir: final(self).log.dir, ..old(self).log },
                otel_enabled: final(self).otel_enabled,
                otel_endpoint: final(self).otel_endpoint,
                update_check: final(self).update_check,
                ..*old(self)
            }),
    {
        let level = match env_value(env, "OPROXY_LOG_LEVEL") {
            Some(v) => v,
            None => self.log.level.clone(),
        };
        let dir = match env_value(env, "OPROXY_LOG_DIR") {
            Some(v) => v,
            None => self.log.dir.clone(),
        };
        let otel = match read_flag(env, "OPROXY_OTEL_ENABLED", self.otel_enabled) {
            Ok(b) => b,
            Err(e) => {
                return Err(e);
            },
        };
        let endpoint = match env_value(env, "OPROXY_OTEL_ENDPOINT") {
            Some(v) => non_empty(v),
            None => self.otel_endpoint.clone(),
        };
        let update = match read_flag(env, "OPROXY_UPDATE_CHECK", self.update_check) {
            Ok(b) => b,
            Err(e) => {
                return Err(e);
            },
        };
        self.log.level = level;
        self.log.dir = dir;
        self.otel_enabled = otel;
        self.otel_endpoint = endpoint;
        self.update_check = update;
        Ok(())
    }

    pub fn apply_path_env(&mut self, env: &EnvVars)
        ensures
            path_applied(env.view_vars(), *old(self), *final(self)),
            *final(self) == (Config {
                storage_path: final(self).storage_path,
                map_local_base_path: final(self).map_local_base_path,
                ..*old(self)
            }),
    {
        let storage = match env_value(env, "OPROXY_STORAGE_PATH") {
            Some(v) => v,
            None => self.storage_path.clone(),
        };
        let base = match env_value(env, "OPROXY_MAP_LOCAL_BASE_PATH") {
            Some(v) => non_empty(v),
            None => self.map_local_base_path.clone(),
        };
        self.storage_path = storage;
        self.map_local_base_path = base;
    }
}


/// A boolean variable reads as true exactly for `1`, `true` and `yes`, and
/// as false exactly for `0`, `false` and `no` (ignoring case and
/// surrounding whitespace); so a variable set to a false word turns the
/// flag off, and a true word and a false word never read alike.
pub proof fn law_boolean_words(v: Seq<char>)
    ensures
        ({
            let t = lower(trim(v));
            &&& (t == "1"@ || t == "true"@ || t == "yes"@) ==> parse_bool_spec(v) == Some(true)
            &&& (t == "0"@ || t == "false"@ || t == "no"@) ==> parse_bool_spec(v) == Some(false)
            &&& parse_bool_spec(v) matches Some(b) ==> (b <==> (t == "1"@ || t == "true"@ || t
                == "yes"@))
            &&& parse_bool_spec(v) is Some <==> (t == "1"@ || t == "true"@ || t == "yes"@ || t
                == "0"@ || t == "false"@ || t == "no"@)
        }),
{
    reveal_strlit("1");
    reveal_strlit("true");
    reveal_strlit("yes");
    reveal_strlit("0");
    reveal_strlit("false");
    reveal_strlit("no");
    let t = lower(trim(v));
    if t == "0"@ || t == "false"@ || t == "no"@ {
        assert(t != "1"@ && t != "true"@ && t != "yes"@) by {
            if t == "0"@ {
                assert(t[0] == '0');
            } else if t == "false"@ {
                assert(t.len() == 5);
            } else {
                assert(t.len() == 2 && t[0] == 'n');
            }
        }
    }
}

} // verus!
