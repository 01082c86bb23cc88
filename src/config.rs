//! The connection profile: the caller's options merged with what the ssh
//! configuration file says of the host, explicit options first.
use std::path::PathBuf;
use std::time::Duration;

use remotefs::{RemoteError, RemoteErrorType};
use ssh2_config::{ParseRule, SshConfig, SshParserError};
use vstd::prelude::*;

use crate::errors::error_with_message;
use crate::options::{duration_of_secs, opt_view, SshOpts, SshOptsView};
use crate::text::{decimal, push_decimal};

verus! {

#[verifier::external_type_specification]
#[verifier::external_body]
pub struct ExSshConfig(SshConfig);

#[verifier::external_type_specification]
#[verifier::external_body]
pub struct ExSshParserError(SshParserError);

/// What the configuration file says of one host; every field may be absent.
#[derive(Debug, Clone, PartialEq)]
pub struct HostParameters {
    pub host_name: Option<String>,
    pub port: Option<u16>,
    pub user: Option<String>,
    pub connect_timeout: Option<Duration>,
    pub connection_attempts: Option<usize>,
    pub kex_algorithms: Option<Vec<String>>,
    pub host_key_algorithms: Option<Vec<String>>,
    pub ciphers: Option<Vec<String>>,
    pub mac: Option<Vec<String>>,
    pub compression: Option<bool>,
    pub identity_file: Option<Vec<PathBuf>>,
}

impl HostParameters {
    /// No field is set.
    pub open spec fn is_unset(&self) -> bool {
        &&& self.host_name is None
        &&& self.port is None
        &&& self.user is None
        &&& self.connect_timeout is None
        &&& self.connection_attempts is None
        &&& self.kex_algorithms is None
        &&& self.host_key_algorithms is None
        &&& self.ciphers is None
        &&& self.mac is None
        &&& self.compression is None
        &&& self.identity_file is None
    }
}

impl Default for HostParameters {
    /// The parameters of a host that no configuration file speaks of.
    fn default() -> (r: Self)
        ensures
            r.is_unset(),
    {
        HostParameters {
            host_name: None,
            port: None,
            user: None,
            connect_timeout: None,
            connection_attempts: None,
            kex_algorithms: None,
            host_key_algorithms: None,
            ciphers: None,
            mac: None,
            compression: None,
            identity_file: None,
        }
    }
}

/// Whether `SshConfig::parse` accepts the configuration `text`, with or
/// without unknown fields allowed.
pub uninterp spec fn ssh_config_parses(text: Seq<char>, allow_unknown_fields: bool) -> bool;

/// Relies on `SshConfig::parse`, reading the configuration text under
/// `ALLOW_UNKNOWN_FIELDS` or `STRICT`. Whether it succeeds depends on the
/// text and the rule alone (the home directory only enters `~` paths).
#[verifier::external_body]
fn parse_ssh_config(text: &str, allow_unknown_fields: bool) -> (r: Result<SshConfig, SshParserError>)
    ensures
        r is Ok <==> ssh_config_parses(text@, allow_unknown_fields),
{
    let rules = if allow_unknown_fields {
        ParseRule::ALLOW_UNKNOWN_FIELDS
    } else {
        ParseRule::STRICT
    };
    SshConfig::default().parse(&mut text.as_bytes(), rules)
}

/// Relies on `SshConfig::query`: the parameters that the parsed
/// configuration gives `host`, field by field.
#[verifier::external_body]
fn query_host(config: &SshConfig, host: &str) -> HostParameters {
    let p = config.query(host);
    HostParameters {
        host_name: p.host_name,
        port: p.port,
        user: p.user,
        connect_timeout: p.connect_timeout,
        connection_attempts: p.connection_attempts,
        kex_algorithms: p.kex_algorithms,
        host_key_algorithms: p.host_key_algorithms,
        ciphers: p.ciphers,
        mac: p.mac,
        compression: p.compression,
        identity_file: p.identity_file,
    }
}

/// Relies on `Display` for `SshParserError`: a description of the error.
#[verifier::external_body]
fn parser_error_text(e: &SshParserError) -> String {
    e.to_string()
}

// -- resolution rules

/// The host to connect to: the configuration's `HostName`, else the host
/// given in the options.
pub open spec fn resolved_host(p: HostParameters, o: SshOptsView) -> Seq<char> {
    match p.host_name {
        Some(h) => h@,
        None => o.host,
    }
}

/// The port: the options' port, else the configuration's, else 22.
pub open spec fn resolved_port(p: HostParameters, o: SshOptsView) -> u16 {
    match o.port {
        Some(port) => port,
        None => match p.port {
            Some(port) => port,
            None => 22,
        },
    }
}

/// `host:port`, the port in decimal.
pub open spec fn resolved_address(p: HostParameters, o: SshOptsView) -> Seq<char> {
    resolved_host(p, o) + seq![':'] + decimal(resolved_port(p, o) as nat)
}

/// The user name: the options' user name, else the configuration's, else
/// the empty name.
pub open spec fn resolved_username(p: HostParameters, o: SshOptsView) -> Seq<char> {
    match o.username {
        Some(u) => u,
        None => match opt_view(p.user) {
            Some(u) => u,
            None => Seq::empty(),
        },
    }
}

/// The connection timeout: the options', else the configuration's, else 30 s.
pub open spec fn resolved_timeout(p: HostParameters, o: SshOptsView) -> Duration {
    match o.connection_timeout {
        Some(t) => t,
        None => match p.connect_timeout {
            Some(t) => t,
            None => duration_of_secs(30),
        },
    }
}

/// The number of connection rounds: the configuration's, else 1. The options
/// have no say in it.
pub open spec fn resolved_attempts(p: HostParameters) -> usize {
    match p.connection_attempts {
        Some(n) => n,
        None => 1,
    }
}

/// A fully resolved connection profile.
pub struct Config {
    /// What the configuration file gave for the host.
    pub params: HostParameters,
    /// The host as the options give it.
    pub host: String,
    /// The host after the configuration's `HostName`.
    pub resolved_host: String,
    /// `resolved_host:port`.
    pub address: String,
    pub username: String,
    pub connection_timeout: Duration,
    pub connection_attempts: usize,
}

impl Config {
    /// Every field is resolved from `self.params` and the options `o`.
    pub open spec fn is_profile_of(&self, o: SshOptsView) -> bool {
        &&& self.host@ == o.host
        &&& self.resolved_host@ == resolved_host(self.params, o)
        &&& self.address@ == resolved_address(self.params, o)
        &&& self.username@ == resolved_username(self.params, o)
        &&& self.connection_timeout == resolved_timeout(self.params, o)
        &&& self.connection_attempts == resolved_attempts(self.params)
    }

    /// The profile for `opts` given the host parameters `params`.
    pub fn from_params(params: HostParameters, opts: &SshOpts) -> (r: Config)
        ensures
            r.params == params,
            r.is_profile_of(opts@),
    {
        let resolved_host = Self::resolve_host(&params, opts);
        let address = Self::resolve_address(&params, opts);
        let username = Self::resolve_username(&params, opts);
        let connection_timeout = Self::resolve_connection_timeout(&params, opts);
        let connection_attempts = Self::resolve_connection_attempts(&params);
        Config {
            host: opts.host().to_owned(),
            resolved_host,
            address,
            username,
            connection_timeout,
            connection_attempts,
            params,
        }
    }

    /// Parses the configuration `text` (unknown fields allowed or not) and returns what it
    /// gives `host`; a text that does not parse is an `IoError`.
    pub fn parse(text: &str, host: &str, allow_unknown_fields: bool) -> (r: Result<
        HostParameters,
        RemoteError,
    >)
        ensures
            r is Ok <==> ssh_config_parses(text@, allow_unknown_fields),
            r is Err ==> r->Err_0.kind == RemoteErrorType::IoError,
    {
        match parse_ssh_config(text, allow_unknown_fields) {
            Ok(config) => Ok(query_host(&config, host)),
            Err(e) => {
                let mut msg = "Could not parse configuration file: ".to_owned();
                msg.append(parser_error_text(&e).as_str());
                Err(error_with_message(RemoteErrorType::IoError, msg))
            },
        }
    }

    /// The profile for `opts`. Where the options name a configuration file,
    /// `config_text` is its content, `None` where it could not be read; the
    /// host's parameters are taken from it. Without a configuration file the
    /// host has no parameters and `config_text` is not looked at.
    pub fn try_from_opts(opts: &SshOpts, config_text: Option<&str>) -> (r: Result<
        Config,
        RemoteError,
    >)
        ensures
            opts@.config_file is None ==> r is Ok && r->Ok_0.params.is_unset(),
            opts@.config_file is Some && config_text is None ==> r is Err,
            opts@.config_file is Some && config_text is Some ==> (r is Ok <==> ssh_config_parses(
                config_text->Some_0@,
                opts@.allow_unknown_fields,
            )),
            r is Ok ==> r->Ok_0.is_profile_of(opts@),
            r is Err ==> r->Err_0.kind == RemoteErrorType::IoError,
    {
        if opts.get_config_file().is_none() {
            return Ok(Self::from_params(HostParameters::default(), opts));
        }
        match config_text {
            None => Err(error_with_message(
                RemoteErrorType::IoError,
                "Could not open configuration file".to_owned(),
            )),
            Some(text) => match Self::parse(text, opts.host(), opts.allows_unknown_fields()) {
                Ok(params) => Ok(Self::from_params(params, opts)),
                Err(e) => Err(e),
            },
        }
    }

    fn resolve_host(params: &HostParameters, opts: &SshOpts) -> (r: String)
        ensures
            r@ == resolved_host(*params, opts@),
    {
        match &params.host_name {
            Some(h) => h.clone(),
            None => opts.host().to_owned(),
        }
    }

    fn resolve_address(params: &HostParameters, opts: &SshOpts) -> (r: String)
        ensures
            r@ == resolved_address(*params, opts@),
    {
        let mut address = Self::resolve_host(params, opts);
        let port = match opts.get_port() {
            Some(p) => p,
            None => match params.port {
                Some(p) => p,
                None => 22,
            },
        };
        address.push(':');
        push_decimal(&mut address, port as u64);
        address
    }

    fn resolve_username(params: &HostParameters, opts: &SshOpts) -> (r: String)
        ensures
            r@ == resolved_username(*params, opts@),
    {
        match opts.get_username() {
            Some(u) => u.to_owned(),
            None => match &params.user {
                Some(u) => u.clone(),
                None => String::new(),
            },
        }
    }

    fn resolve_connection_timeout(params: &HostParameters, opts: &SshOpts) -> (r: Duration)
        ensures
            r == resolved_timeout(*params, opts@),
    {
        match opts.get_connection_timeout() {
            Some(t) => t,
            None => match params.connect_timeout {
                Some(t) => t,
                None => Duration::from_secs(30),
            },
        }
    }

    fn resolve_connection_attempts(params: &HostParameters) -> (r: usize)
        ensures
            r == resolved_attempts(*params),
    {
        match params.connection_attempts {
            Some(n) => n,
            None => 1,
        }
    }
}

// -- laws

/// Precedence of resolution: for any options and host parameters, the
/// profile's user name is the options' user name when set, else the
/// configuration's, else empty; the same order holds for the port (default
/// 22) and the timeout (default 30 s); the resolved host is the
/// configuration's `HostName` when set, else the options' host.
pub proof fn law_resolution_precedence(params: HostParameters, opts: SshOptsView, profile: Config)
    requires
        profile.params == params,
        profile.is_profile_of(opts),
    ensures
        opts.username is Some ==> profile.username@ == opts.username->Some_0,
        opts.username is None && params.user is Some ==> profile.username@
            == params.user->Some_0@,
        opts.username is None && params.user is None ==> profile.username@ == Seq::<char>::empty(),
        opts.port is Some ==> profile.address@ == resolved_host(params, opts) + seq![':']
            + decimal(opts.port->Some_0 as nat),
        opts.port is None && params.port is Some ==> profile.address@ == resolved_host(params, opts)
            + seq![':'] + decimal(params.port->Some_0 as nat),
        opts.port is None && params.port is None ==> profile.address@ == resolved_host(params, opts)
            + seq![':'] + decimal(22),
        opts.connection_timeout is Some ==> profile.connection_timeout
            == opts.connection_timeout->Some_0,
        opts.connection_timeout is None && params.connect_timeout is Some
            ==> profile.connection_timeout == params.connect_timeout->Some_0,
        opts.connection_timeout is None && params.connect_timeout is None
            ==> profile.connection_timeout == duration_of_secs(30),
        params.host_name is Some ==> profile.resolved_host@ == params.host_name->Some_0@,
        params.host_name is None ==> profile.resolved_host@ == opts.host,
{
}

/// The default profile: with only a host in the options and no configuration
/// file, there is one connection round, the timeout is 30 s, the address is
/// `host:22` and the user name is empty.
pub proof fn law_default_profile(opts: SshOptsView, profile: Config)
    requires
        opts.port is None,
        opts.username is None,
        opts.connection_timeout is None,
        profile.params.is_unset(),
        profile.is_profile_of(opts),
    ensures
        profile.connection_attempts == 1,
        profile.connection_timeout == duration_of_secs(30),
        profile.address@ == opts.host + seq![':', '2', '2'],
        profile.username@ == Seq::<char>::empty(),
        profile.resolved_host@ == opts.host,
{
    assert(decimal(2) == seq!['2']);
    assert(decimal(22) =~= seq!['2', '2']);
}

} // verus!
