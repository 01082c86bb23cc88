//! The decisions of establishing an authenticated session, as a state
//! machine: the caller performs each action (a socket connect, the
//! handshake, an authentication attempt) and reports how it went; the
//! connector answers with the next action.
use std::path::PathBuf;

use remotefs::{RemoteError, RemoteErrorType};
use ssh2::Session;
use vstd::prelude::*;

use crate::config::Config;
use crate::options::{byte_views, MethodType, matching_upto, SshAgentIdentity, SshOpts};
use crate::errors::error_with_message;
use crate::transport::{
    algo_prefs, pref_plan, pref_views, session_method_pref, session_set_compress, ssh_error_text, Pref,
};

verus! {

/// Where a connection attempt stands.
#[derive(Debug, Clone, Copy, PartialEq, Eq, Structural)]
pub enum Stage {
    Start,
    Resolving,
    Dialing,
    CreatingSession,
    Compressing,
    Configuring,
    Handshaking,
    AgentConnecting,
    AgentAuth,
    AgentDisconnecting,
    ResolvingKey,
    ResolvingFallbackKey,
    KeyAuth,
    PasswordAuth,
    Connected,
    Failed,
}

/// What the caller reports after performing an action.
pub enum ConnectEvent {
    /// The attempt begins.
    Started,
    /// The address resolved to this many socket addresses.
    AddressesResolved(usize),
    AddressResolutionFailed,
    SocketConnected,
    SocketFailed,
    SessionCreated,
    SessionFailed,
    /// The compression flag was set.
    CompressionSet,
    /// The algorithm preference asked for was accepted.
    PreferenceApplied,
    /// The algorithm preference asked for was refused.
    PreferenceFailed,
    HandshakeCompleted,
    HandshakeFailed,
    /// The agent is connected; these are the public keys of its identities,
    /// in the agent's order.
    AgentIdentities(Vec<Vec<u8>>),
    /// The agent could not be reached.
    AgentUnreachable,
    /// The agent was reached but could not list its identities.
    AgentListingFailed,
    /// The agent was asked to disconnect, whether or not that succeeded.
    AgentDisconnected,
    /// What the key store answered to the last query.
    KeyResolved(Option<PathBuf>),
    /// An authentication attempt (agent identity, key or password) ended;
    /// `true` on success.
    AuthCompleted(bool),
}

/// What the caller is to do next.
#[derive(Debug, Clone, Copy, PartialEq, Eq)]
pub enum ConnectAction {
    /// Resolve the profile's address to socket addresses.
    ResolveAddress,
    /// Connect to the socket address of this index, within the profile's
    /// timeout.
    ConnectSocket(usize),
    CreateSession,
    /// Ask for compression, or not (`set_compression`).
    SetCompression(bool),
    /// Apply the algorithm preference of this index (`preference`,
    /// `apply_preference`).
    ApplyPreference(usize),
    Handshake,
    /// Connect to the ssh agent and list its identities.
    ConnectAgent,
    /// Authenticate with the agent identity of this index, in the order of
    /// the listed identities.
    AuthWithAgentIdentity(usize),
    /// Disconnect from the agent.
    DisconnectAgent,
    /// Ask the key store for a key for the host as the options give it.
    ResolveKey,
    /// Ask the key store for a key for the resolved host.
    ResolveKeyForResolvedHost,
    /// Authenticate with the key candidate of this index.
    AuthWithKey(usize),
    /// Authenticate with the profile's user name and the options' password.
    AuthWithPassword,
    /// The session is authenticated: hand it over.
    Finish,
    /// Give up with an error of this kind.
    Abort(RemoteErrorType),
}

/// The state of one connection attempt.
pub struct Connector {
    stage: Stage,
    config: Config,
    agent: Option<SshAgentIdentity>,
    use_key_storage: bool,
    n_addrs: usize,
    round: usize,
    index: usize,
    prefs: Vec<Pref>,
    pref_index: usize,
    agent_matches: Vec<usize>,
    agent_index: usize,
    agent_ok: bool,
    key: Option<PathBuf>,
    key_index: usize,
}

pub struct ConnectorView {
    pub stage: Stage,
    pub config: Config,
    /// Whether agent authentication is enabled.
    pub use_agent: bool,
    /// The agent identities that may be used (see `selector_accepts`).
    pub agent_selector: Option<Seq<u8>>,
    pub use_key_storage: bool,
    pub n_addrs: nat,
    pub round: nat,
    pub index: nat,
    /// The algorithm preferences to apply before the handshake, in order.
    pub prefs: Seq<(MethodType, Seq<char>)>,
    pub pref_index: nat,
    /// Indices of the agent identities to try, in order.
    pub agent_matches: Seq<usize>,
    pub agent_index: nat,
    /// Whether an agent identity authenticated the session.
    pub agent_ok: bool,
    pub key: Option<PathBuf>,
    pub key_index: nat,
}

pub open spec fn agent_selector_of(agent: Option<SshAgentIdentity>) -> Option<Seq<u8>> {
    match agent {
        Some(a) => a.selector(),
        None => None,
    }
}

impl View for Connector {
    type V = ConnectorView;

    closed spec fn view(&self) -> ConnectorView {
        ConnectorView {
            stage: self.stage,
            config: self.config,
            use_agent: self.agent is Some,
            agent_selector: agent_selector_of(self.agent),
            use_key_storage: self.use_key_storage,
            n_addrs: self.n_addrs as nat,
            round: self.round as nat,
            index: self.index as nat,
            prefs: pref_views(self.prefs@),
            pref_index: self.pref_index as nat,
            agent_matches: self.agent_matches@,
            agent_index: self.agent_index as nat,
            agent_ok: self.agent_ok,
            key: self.key,
            key_index: self.key_index as nat,
        }
    }
}

/// Connection rounds of the profile.
pub open spec fn attempts(s: ConnectorView) -> nat {
    s.config.connection_attempts as nat
}

/// The identity files of the configuration, in order.
pub open spec fn identity_files(s: ConnectorView) -> Seq<PathBuf> {
    match s.config.params.identity_file {
        Some(v) => v@,
        None => Seq::empty(),
    }
}

/// The keys to try, in order: the key store's, if it gave one, then the
/// identity files.
pub open spec fn key_candidates(s: ConnectorView) -> Seq<PathBuf> {
    match s.key {
        Some(k) => seq![k] + identity_files(s),
        None => identity_files(s),
    }
}

/// Socket connects still to come after the current one.
pub open spec fn dials_left(s: ConnectorView) -> int {
    (attempts(s) - s.round - 1) * s.n_addrs + (s.n_addrs - s.index - 1)
}

pub open spec fn enter(s: ConnectorView, stage: Stage) -> ConnectorView {
    ConnectorView { stage, ..s }
}

pub open spec fn fail(s: ConnectorView, kind: RemoteErrorType) -> (ConnectorView, ConnectAction) {
    (enter(s, Stage::Failed), ConnectAction::Abort(kind))
}

/// Once the agent is done, or skipped: the key store when there is one,
/// else the password.
pub open spec fn after_agent(s: ConnectorView) -> (ConnectorView, ConnectAction) {
    if s.use_key_storage {
        (enter(s, Stage::ResolvingKey), ConnectAction::ResolveKey)
    } else {
        (enter(s, Stage::PasswordAuth), ConnectAction::AuthWithPassword)
    }
}

/// The preferences from the first on, or the handshake when there are none.
pub open spec fn start_prefs(s: ConnectorView) -> (ConnectorView, ConnectAction) {
    if s.prefs.len() > 0 {
        (ConnectorView { stage: Stage::Configuring, pref_index: 0, ..s }, ConnectAction::ApplyPreference(0))
    } else {
        (enter(s, Stage::Handshaking), ConnectAction::Handshake)
    }
}

/// Once the session exists: compression first when the configuration sets
/// it, then the preferences.
pub open spec fn begin_config(s: ConnectorView) -> (ConnectorView, ConnectAction) {
    match s.config.params.compression {
        Some(c) => (enter(s, Stage::Compressing), ConnectAction::SetCompression(c)),
        None => start_prefs(s),
    }
}

/// The key strategy with the key store's answer `key`: the first
/// candidate, or `AuthenticationFailed` when there is none.
pub open spec fn start_keys(s: ConnectorView, key: Option<PathBuf>) -> (ConnectorView, ConnectAction) {
    let t = ConnectorView { stage: Stage::KeyAuth, key, key_index: 0, ..s };
    if key_candidates(t).len() > 0 {
        (t, ConnectAction::AuthWithKey(0))
    } else {
        fail(ConnectorView { key, ..s }, RemoteErrorType::AuthenticationFailed)
    }
}

/// The transitions. An event that does not belong to the current stage ends
/// the attempt with a `ProtocolError`.
pub open spec fn step_spec(s: ConnectorView, e: ConnectEvent) -> (ConnectorView, ConnectAction) {
    match (s.stage, e) {
        (Stage::Start, ConnectEvent::Started) => (enter(s, Stage::Resolving), ConnectAction::ResolveAddress),
        (Stage::Resolving, ConnectEvent::AddressesResolved(n)) => {
            if n > 0 && attempts(s) > 0 {
                (
                    ConnectorView { stage: Stage::Dialing, n_addrs: n as nat, round: 0, index: 0, ..s },
                    ConnectAction::ConnectSocket(0),
                )
            } else {
                fail(s, RemoteErrorType::ConnectionError)
            }
        },
        (Stage::Resolving, ConnectEvent::AddressResolutionFailed) => fail(s, RemoteErrorType::BadAddress),
        (Stage::Dialing, ConnectEvent::SocketConnected) => (
            enter(s, Stage::CreatingSession),
            ConnectAction::CreateSession,
        ),
        (Stage::Dialing, ConnectEvent::SocketFailed) => {
            if s.index + 1 < s.n_addrs {
                (
                    ConnectorView { index: s.index + 1, ..s },
                    ConnectAction::ConnectSocket((s.index + 1) as usize),
                )
            } else if s.round + 1 < attempts(s) {
                (ConnectorView { round: s.round + 1, index: 0, ..s }, ConnectAction::ConnectSocket(0))
            } else {
                fail(s, RemoteErrorType::ConnectionError)
            }
        },
        (Stage::CreatingSession, ConnectEvent::SessionCreated) => begin_config(s),
        (Stage::CreatingSession, ConnectEvent::SessionFailed) => fail(s, RemoteErrorType::ConnectionError),
        (Stage::Compressing, ConnectEvent::CompressionSet) => start_prefs(s),
        (Stage::Configuring, ConnectEvent::PreferenceApplied) => {
            if s.pref_index + 1 < s.prefs.len() {
                (
                    ConnectorView { pref_index: s.pref_index + 1, ..s },
                    ConnectAction::ApplyPreference((s.pref_index + 1) as usize),
                )
            } else {
                (enter(s, Stage::Handshaking), ConnectAction::Handshake)
            }
        },
        (Stage::Configuring, ConnectEvent::PreferenceFailed) => fail(s, RemoteErrorType::ProtocolError),
        (Stage::Handshaking, ConnectEvent::HandshakeCompleted) => {
            if s.use_agent {
                (enter(s, Stage::AgentConnecting), ConnectAction::ConnectAgent)
            } else {
                after_agent(s)
            }
        },
        (Stage::Handshaking, ConnectEvent::HandshakeFailed) => fail(s, RemoteErrorType::ProtocolError),
        (Stage::AgentConnecting, ConnectEvent::AgentIdentities(blobs)) => {
            let m = matching_upto(s.agent_selector, byte_views(blobs@), blobs@.len());
            if m.len() > 0 {
                (
                    ConnectorView {
                        stage: Stage::AgentAuth,
                        agent_matches: m,
                        agent_index: 0,
                        agent_ok: false,
                        ..s
                    },
                    ConnectAction::AuthWithAgentIdentity(m[0]),
                )
            } else {
                (
                    ConnectorView { stage: Stage::AgentDisconnecting, agent_matches: m, agent_ok: false, ..s },
                    ConnectAction::DisconnectAgent,
                )
            }
        },
        (Stage::AgentConnecting, ConnectEvent::AgentUnreachable) => after_agent(s),
        (Stage::AgentConnecting, ConnectEvent::AgentListingFailed) => (
            ConnectorView { stage: Stage::AgentDisconnecting, agent_ok: false, ..s },
            ConnectAction::DisconnectAgent,
        ),
        (Stage::AgentAuth, ConnectEvent::AuthCompleted(ok)) => {
            if ok {
                (
                    ConnectorView { stage: Stage::AgentDisconnecting, agent_ok: true, ..s },
                    ConnectAction::DisconnectAgent,
                )
            } else if s.agent_index + 1 < s.agent_matches.len() {
                (
                    ConnectorView { agent_index: s.agent_index + 1, ..s },
                    ConnectAction::AuthWithAgentIdentity(s.agent_matches[s.agent_index + 1 as int]),
                )
            } else {
                (enter(s, Stage::AgentDisconnecting), ConnectAction::DisconnectAgent)
            }
        },
        (Stage::AgentDisconnecting, ConnectEvent::AgentDisconnected) => {
            if s.agent_ok {
                (enter(s, Stage::Connected), ConnectAction::Finish)
            } else {
                after_agent(s)
            }
        },
        (Stage::ResolvingKey, ConnectEvent::KeyResolved(key)) => {
            if key is Some {
                start_keys(s, key)
            } else {
                (enter(s, Stage::ResolvingFallbackKey), ConnectAction::ResolveKeyForResolvedHost)
            }
        },
        (Stage::ResolvingFallbackKey, ConnectEvent::KeyResolved(key)) => start_keys(s, key),
        (Stage::KeyAuth, ConnectEvent::AuthCompleted(ok)) => {
            if ok {
                (enter(s, Stage::Connected), ConnectAction::Finish)
            } else if s.key_index + 1 < key_candidates(s).len() {
                (
                    ConnectorView { key_index: s.key_index + 1, ..s },
                    ConnectAction::AuthWithKey((s.key_index + 1) as usize),
                )
            } else {
                fail(s, RemoteErrorType::AuthenticationFailed)
            }
        },
        (Stage::PasswordAuth, ConnectEvent::AuthCompleted(ok)) => {
            if ok {
                (enter(s, Stage::Connected), ConnectAction::Finish)
            } else {
                fail(s, RemoteErrorType::AuthenticationFailed)
            }
        },
        _ => fail(s, RemoteErrorType::ProtocolError),
    }
}

impl Connector {
    /// The counters stay within what they index, and an agent stage has an
    /// agent.
    pub closed spec fn wf(&self) -> bool {
        &&& self.stage == Stage::Dialing ==> {
            &&& self.index < self.n_addrs
            &&& self.round < self.config.connection_attempts
        }
        &&& self.stage == Stage::Configuring ==> self.pref_index < self.prefs@.len()
        &&& self.stage == Stage::AgentConnecting ==> self.agent is Some
        &&& self.stage == Stage::AgentAuth ==> self.agent_index < self.agent_matches@.len()
        &&& self.stage == Stage::KeyAuth ==> self.key_index < key_candidates(self@).len()
    }

    /// A connector for the profile `config` of `opts`, before the attempt
    /// begins.
    pub fn new(config: Config, opts: &SshOpts) -> (r: Connector)
        ensures
            r.wf(),
            r@ == (ConnectorView {
                stage: Stage::Start,
                config,
                use_agent: opts@.ssh_agent_identity is Some,
                agent_selector: agent_selector_of(opts@.ssh_agent_identity),
                use_key_storage: opts@.has_key_storage,
                n_addrs: 0,
                round: 0,
                index: 0,
                prefs: pref_plan(config.params, opts@.methods),
                pref_index: 0,
                agent_matches: Seq::empty(),
                agent_index: 0,
                agent_ok: false,
                key: None,
                key_index: 0,
            }),
    {
        let prefs = algo_prefs(&config.params, opts.get_methods());
        let agent = match opts.get_ssh_agent_identity() {
            Some(a) => Some(a.duplicate()),
            None => None,
        };
        let r = Connector {
            stage: Stage::Start,
            config,
            agent,
            use_key_storage: opts.get_key_storage().is_some(),
            n_addrs: 0,
            round: 0,
            index: 0,
            prefs,
            pref_index: 0,
            agent_matches: Vec::new(),
            agent_index: 0,
            agent_ok: false,
            key: None,
            key_index: 0,
        };
        assert(r@.agent_matches =~= Seq::<usize>::empty());
        r
    }

    pub fn stage(&self) -> (r: Stage)
        ensures
            r == self@.stage,
    {
        self.stage
    }

    /// The profile being connected to.
    pub fn config(&self) -> (r: &Config)
        ensures
            *r == self@.config,
    {
        &self.config
    }

    /// The algorithm preference of index `i`; `None` past the last one.
    pub fn preference(&self, i: usize) -> (r: Option<&Pref>)
        ensures
            r is Some <==> i < self@.prefs.len(),
            r is Some ==> r->Some_0.0 == self@.prefs[i as int].0 && r->Some_0.1@
                == self@.prefs[i as int].1,
    {
        if i < self.prefs.len() {
            Some(&self.prefs[i])
        } else {
            None
        }
    }

    /// Performs `SetCompression`: asks `session` for compression as the
    /// configuration sets it.
    pub fn set_compression(&self, session: &mut Session) {
        if let Some(c) = self.config.params.compression {
            session_set_compress(session, c);
        }
    }

    /// Performs `ApplyPreference(i)`: sets the preference of index `i` on
    /// `session`. A refused preference, or an index past the last, is a
    /// `ProtocolError`.
    pub fn apply_preference(&self, session: &mut Session, i: usize) -> (r: Result<(), RemoteError>)
        ensures
            i >= self@.prefs.len() ==> r is Err,
            r is Err ==> r->Err_0.kind == RemoteErrorType::ProtocolError,
    {
        if i >= self.prefs.len() {
            return Err(error_with_message(
                RemoteErrorType::ProtocolError,
                "No such algorithm preference".to_owned(),
            ));
        }
        let (method, prefs) = &self.prefs[i];
        match session_method_pref(session, *method, prefs.as_str()) {
            Ok(()) => Ok(()),
            Err(e) => {
                let mut msg = "Could not set algorithm preferences: ".to_owned();
                msg.append(ssh_error_text(&e).as_str());
                Err(error_with_message(RemoteErrorType::ProtocolError, msg))
            },
        }
    }

    /// The key candidate of index `i`: the key store's key first, if it gave
    /// one, then the configuration's identity files; `None` past the last
    /// candidate.
    pub fn key_candidate(&self, i: usize) -> (r: Option<&PathBuf>)
        ensures
            r is Some <==> i < key_candidates(self@).len(),
            r is Some ==> *r->Some_0 == key_candidates(self@)[i as int],
    {
        let n = self.identity_count();
        let j = match &self.key {
            None => i,
            Some(k) => {
                if i == 0 {
                    return Some(k);
                }
                i - 1
            },
        };
        if j < n {
            match &self.config.params.identity_file {
                Some(v) => Some(&v[j]),
                None => None,
            }
        } else {
            None
        }
    }

    fn identity_count(&self) -> (r: usize)
        ensures
            r == identity_files(self@).len(),
    {
        match &self.config.params.identity_file {
            Some(v) => v.len(),
            None => 0,
        }
    }

    fn key_count_above(&self, i: usize) -> (r: bool)
        ensures
            r == (i < key_candidates(self@).len()),
    {
        match &self.key {
            None => i < self.identity_count(),
            Some(_) => i == 0 || i - 1 < self.identity_count(),
        }
    }

    fn has_next_key(&self) -> (r: bool)
        requires
            self.key_index < key_candidates(self@).len(),
        ensures
            r == (self.key_index + 1 < key_candidates(self@).len()),
            r ==> self.key_index + 1 <= usize::MAX,
    {
        match &self.key {
            None => self.key_index < self.identity_count() - 1,
            Some(_) => self.key_index < self.identity_count(),
        }
    }

    fn fail(&mut self, kind: RemoteErrorType) -> (r: ConnectAction)
        ensures
            (final(self)@, r) == fail(old(self)@, kind),
            final(self).wf(),
    {
        self.stage = Stage::Failed;
        ConnectAction::Abort(kind)
    }

    fn after_agent(&mut self) -> (r: ConnectAction)
        ensures
            (final(self)@, r) == after_agent(old(self)@),
            final(self).wf(),
    {
        if self.use_key_storage {
            self.stage = Stage::ResolvingKey;
            ConnectAction::ResolveKey
        } else {
            self.stage = Stage::PasswordAuth;
            ConnectAction::AuthWithPassword
        }
    }

    fn start_prefs(&mut self) -> (r: ConnectAction)
        ensures
            (final(self)@, r) == start_prefs(old(self)@),
            final(self).wf(),
    {
        if self.prefs.len() > 0 {
            self.stage = Stage::Configuring;
            self.pref_index = 0;
            ConnectAction::ApplyPreference(0)
        } else {
            self.stage = Stage::Handshaking;
            ConnectAction::Handshake
        }
    }

    fn start_keys(&mut self, key: Option<PathBuf>) -> (r: ConnectAction)
        ensures
            (final(self)@, r) == start_keys(old(self)@, key),
            final(self).wf(),
    {
        self.key = key;
        if self.key_count_above(0) {
            self.stage = Stage::KeyAuth;
            self.key_index = 0;
            ConnectAction::AuthWithKey(0)
        } else {
            self.fail(RemoteErrorType::AuthenticationFailed)
        }
    }

    /// Takes the outcome of the last action and returns the next one.
    pub fn step(&mut self, event: ConnectEvent) -> (r: ConnectAction)
        requires
            old(self).wf(),
        ensures
            final(self).wf(),
            (final(self)@, r) == step_spec(old(self)@, event),
    {
        match (self.stage, event) {
            (Stage::Start, ConnectEvent::Started) => {
                self.stage = Stage::Resolving;
                ConnectAction::ResolveAddress
            },
            (Stage::Resolving, ConnectEvent::AddressesResolved(n)) => {
                if n > 0 && self.config.connection_attempts > 0 {
                    self.stage = Stage::Dialing;
                    self.n_addrs = n;
                    self.round = 0;
                    self.index = 0;
                    ConnectAction::ConnectSocket(0)
                } else {
                    self.fail(RemoteErrorType::ConnectionError)
                }
            },
            (Stage::Resolving, ConnectEvent::AddressResolutionFailed) => {
                self.fail(RemoteErrorType::BadAddress)
            },
            (Stage::Dialing, ConnectEvent::SocketConnected) => {
                self.stage = Stage::CreatingSession;
                ConnectAction::CreateSession
            },
            (Stage::Dialing, ConnectEvent::SocketFailed) => {
                if self.index + 1 < self.n_addrs {
                    self.index = self.index + 1;
                    ConnectAction::ConnectSocket(self.index)
                } else if self.round + 1 < self.config.connection_attempts {
                    self.round = self.round + 1;
                    self.index = 0;
                    ConnectAction::ConnectSocket(0)
                } else {
                    self.fail(RemoteErrorType::ConnectionError)
                }
            },
            (Stage::CreatingSession, ConnectEvent::SessionCreated) => {
                match self.config.params.compression {
                    Some(c) => {
                        self.stage = Stage::Compressing;
                        ConnectAction::SetCompression(c)
                    },
                    None => self.start_prefs(),
                }
            },
            (Stage::Compressing, ConnectEvent::CompressionSet) => self.start_prefs(),
            (Stage::CreatingSession, ConnectEvent::SessionFailed) => {
                self.fail(RemoteErrorType::ConnectionError)
            },
            (Stage::Configuring, ConnectEvent::PreferenceApplied) => {
                if self.pref_index < self.prefs.len() - 1 {
                    self.pref_index = self.pref_index + 1;
                    ConnectAction::ApplyPreference(self.pref_index)
                } else {
                    self.stage = Stage::Handshaking;
                    ConnectAction::Handshake
                }
            },
            (Stage::Configuring, ConnectEvent::PreferenceFailed) => {
                self.fail(RemoteErrorType::ProtocolError)
            },
            (Stage::Handshaking, ConnectEvent::HandshakeCompleted) => {
                if self.agent.is_some() {
                    self.stage = Stage::AgentConnecting;
                    ConnectAction::ConnectAgent
                } else {
                    self.after_agent()
                }
            },
            (Stage::Handshaking, ConnectEvent::HandshakeFailed) => {
                self.fail(RemoteErrorType::ProtocolError)
            },
            (Stage::AgentConnecting, ConnectEvent::AgentIdentities(blobs)) => {
                let m = match &self.agent {
                    Some(a) => a.matching_identities(&blobs),
                    None => Vec::new(),
                };
                self.agent_ok = false;
                if m.len() > 0 {
                    let first = m[0];
                    self.agent_matches = m;
                    self.agent_index = 0;
                    self.stage = Stage::AgentAuth;
                    ConnectAction::AuthWithAgentIdentity(first)
                } else {
                    self.agent_matches = m;
                    self.stage = Stage::AgentDisconnecting;
                    ConnectAction::DisconnectAgent
                }
            },
            (Stage::AgentConnecting, ConnectEvent::AgentUnreachable) => self.after_agent(),
            (Stage::AgentConnecting, ConnectEvent::AgentListingFailed) => {
                self.agent_ok = false;
                self.stage = Stage::AgentDisconnecting;
                ConnectAction::DisconnectAgent
            },
            (Stage::AgentAuth, ConnectEvent::AuthCompleted(ok)) => {
                if ok {
                    self.agent_ok = true;
                    self.stage = Stage::AgentDisconnecting;
                    ConnectAction::DisconnectAgent
                } else if self.agent_index < self.agent_matches.len() - 1 {
                    self.agent_index = self.agent_index + 1;
                    ConnectAction::AuthWithAgentIdentity(self.agent_matches[self.agent_index])
                } else {
                    self.stage = Stage::AgentDisconnecting;
                    ConnectAction::DisconnectAgent
                }
            },
            (Stage::AgentDisconnecting, ConnectEvent::AgentDisconnected) => {
                if self.agent_ok {
                    self.stage = Stage::Connected;
                    ConnectAction::Finish
                } else {
                    self.after_agent()
                }
            },
            (Stage::ResolvingKey, ConnectEvent::KeyResolved(key)) => {
                if key.is_some() {
                    self.start_keys(key)
                } else {
                    self.stage = Stage::ResolvingFallbackKey;
                    ConnectAction::ResolveKeyForResolvedHost
                }
            },
            (Stage::ResolvingFallbackKey, ConnectEvent::KeyResolved(key)) => self.start_keys(key),
            (Stage::KeyAuth, ConnectEvent::AuthCompleted(ok)) => {
                if ok {
                    self.stage = Stage::Connected;
                    ConnectAction::Finish
                } else if self.has_next_key() {
                    self.key_index = self.key_index + 1;
                    ConnectAction::AuthWithKey(self.key_index)
                } else {
                    self.fail(RemoteErrorType::AuthenticationFailed)
                }
            },
            (Stage::PasswordAuth, ConnectEvent::AuthCompleted(ok)) => {
                if ok {
                    self.stage = Stage::Connected;
                    ConnectAction::Finish
                } else {
                    self.fail(RemoteErrorType::AuthenticationFailed)
                }
            },
            _ => self.fail(RemoteErrorType::ProtocolError),
        }
    }
}

// -- laws

/// The state after `j` failed key attempts in a row.
pub open spec fn key_failures(s: ConnectorView, j: nat) -> ConnectorView
    decreases j,
{
    if j == 0 {
        s
    } else {
        step_spec(key_failures(s, (j - 1) as nat), ConnectEvent::AuthCompleted(false)).0
    }
}

proof fn lemma_key_failures(t: ConnectorView, j: nat)
    requires
        t.stage == Stage::KeyAuth,
        t.key_index == 0,
        j < key_candidates(t).len(),
    ensures
        key_failures(t, j) == (ConnectorView { key_index: j, ..t }),
    decreases j,
{
    if j > 0 {
        lemma_key_failures(t, (j - 1) as nat);
    }
}

/// Key candidate order: with a key store configured, the store is asked
/// for the host as given and, only when that yields nothing, for the
/// resolved host. Its key, if any, is tried first, then the configuration's
/// identity files in their order. After `j` failed attempts the next
/// candidate tried is the one of index `j`; a success at any point finishes;
/// when there is no candidate, or every candidate has failed, the attempt
/// ends with `AuthenticationFailed`: the password is never tried.
pub proof fn law_key_candidate_order(
    s: ConnectorView,
    primary: Option<PathBuf>,
    fallback: Option<PathBuf>,
    j: nat,
)
    requires
        s.stage == Stage::ResolvingKey,
    ensures
        ({
            let (t1, a1) = step_spec(s, ConnectEvent::KeyResolved(primary));
            let (t, a) = if primary is Some {
                (t1, a1)
            } else {
                step_spec(t1, ConnectEvent::KeyResolved(fallback))
            };
            let key = if primary is Some { primary } else { fallback };
            let candidates = match key {
                Some(k) => seq![k] + identity_files(s),
                None => identity_files(s),
            };
            &&& primary is None ==> a1 == ConnectAction::ResolveKeyForResolvedHost
            &&& candidates.len() == 0 ==> a == ConnectAction::Abort(
                RemoteErrorType::AuthenticationFailed,
            )
            &&& candidates.len() > 0 ==> {
                &&& a == ConnectAction::AuthWithKey(0)
                &&& key_candidates(t) == candidates
                &&& j < candidates.len() ==> {
                    let u = key_failures(t, j);
                    &&& u.stage == Stage::KeyAuth
                    &&& u.key_index == j
                    &&& key_candidates(u) == candidates
                    &&& step_spec(u, ConnectEvent::AuthCompleted(true)).1 == ConnectAction::Finish
                    &&& step_spec(u, ConnectEvent::AuthCompleted(false)).1 == if j + 1
                        < candidates.len() {
                        ConnectAction::AuthWithKey((j + 1) as usize)
                    } else {
                        ConnectAction::Abort(RemoteErrorType::AuthenticationFailed)
                    }
                }
            }
        }),
{
    let (t1, a1) = step_spec(s, ConnectEvent::KeyResolved(primary));
    let (t, a) = if primary is Some {
        (t1, a1)
    } else {
        step_spec(t1, ConnectEvent::KeyResolved(fallback))
    };
    if t.stage == Stage::KeyAuth && j < key_candidates(t).len() {
        lemma_key_failures(t, j);
    }
}

/// Failure to reach a host: an address that does not resolve ends the
/// attempt with `BadAddress`; one that resolves to `n` socket addresses
/// either ends it with `ConnectionError` (nothing to try) or starts dialing
/// with `attempts × n - 1` further connects in reserve.
pub proof fn law_resolution_outcome(s: ConnectorView, n: usize)
    requires
        s.stage == Stage::Resolving,
    ensures
        step_spec(s, ConnectEvent::AddressResolutionFailed) == fail(s, RemoteErrorType::BadAddress),
        ({
            let (t, a) = step_spec(s, ConnectEvent::AddressesResolved(n));
            ||| (t.stage == Stage::Failed && a == ConnectAction::Abort(
                RemoteErrorType::ConnectionError,
            ))
            ||| {
                &&& t.stage == Stage::Dialing
                &&& a == ConnectAction::ConnectSocket(0)
                &&& t.index < t.n_addrs
                &&& t.round < attempts(t)
                &&& dials_left(t) == attempts(s) * n - 1
            }
        }),
{
    let (t, a) = step_spec(s, ConnectEvent::AddressesResolved(n));
    if t.stage == Stage::Dialing {
        assert(dials_left(t) == (attempts(s) - 1) * n + (n - 1));
        assert((attempts(s) - 1) * n + n == attempts(s) * n) by (nonlinear_arith);
    }
}

/// The dialing budget: while dialing, fewer than `attempts × addresses`
/// connects remain. A refused connect asks for the next socket address and
/// uses up one of them, or, when none remains, ends the attempt with
/// `ConnectionError`. So an unreachable host always ends in that error after
/// a bounded number of connects.
pub proof fn law_dial_budget(s: ConnectorView)
    requires
        s.stage == Stage::Dialing,
        s.index < s.n_addrs,
        s.round < attempts(s),
    ensures
        0 <= dials_left(s) < attempts(s) * s.n_addrs,
        ({
            let (t, a) = step_spec(s, ConnectEvent::SocketFailed);
            if dials_left(s) == 0 {
                t.stage == Stage::Failed && a == ConnectAction::Abort(RemoteErrorType::ConnectionError)
            } else {
                &&& t.stage == Stage::Dialing
                &&& a == ConnectAction::ConnectSocket(t.index as usize)
                &&& t.index < t.n_addrs
                &&& t.round < attempts(t)
                &&& dials_left(t) == dials_left(s) - 1
            }
        }),
{
    let a = attempts(s) as int;
    let n = s.n_addrs as int;
    let r = s.round as int;
    let i = s.index as int;
    assert(0 <= (a - r - 1) * n) by (nonlinear_arith)
        requires
            a - r - 1 >= 0,
            n >= 0,
    ;
    assert((a - r - 1) * n + (n - i - 1) < a * n) by (nonlinear_arith)
        requires
            0 <= r,
            0 <= i < n,
    ;
    if i + 1 >= n && r + 1 < a {
        assert((a - r - 2) * n + n == (a - r - 1) * n) by (nonlinear_arith);
    }
    if i + 1 >= n && r + 1 >= a {
        assert(a - r - 1 == 0);
    }
    if i + 1 >= n && r + 1 < a {
        assert((a - r - 1) * n >= n) by (nonlinear_arith)
            requires
                a - r - 1 >= 1,
                n >= 0,
        ;
    }
}

/// A session is handed over only after an authentication attempt that
/// succeeded: `Finish` answers a successful key or password attempt, or the
/// agent's disconnection after one of its identities succeeded; and that
/// agent success is recorded only on a successful agent attempt.
pub proof fn law_finish_only_when_authenticated(s: ConnectorView, e: ConnectEvent)
    ensures
        step_spec(s, e).1 == ConnectAction::Finish ==> {
            ||| (e == ConnectEvent::AuthCompleted(true) && (s.stage == Stage::KeyAuth || s.stage
                == Stage::PasswordAuth))
            ||| (e == ConnectEvent::AgentDisconnected && s.agent_ok)
        },
        step_spec(s, e).0.agent_ok && !s.agent_ok ==> e == ConnectEvent::AuthCompleted(true)
            && s.stage == Stage::AgentAuth,
{
}

/// The state after `j` accepted preferences in a row.
pub open spec fn pref_successes(s: ConnectorView, j: nat) -> ConnectorView
    decreases j,
{
    if j == 0 {
        s
    } else {
        step_spec(pref_successes(s, (j - 1) as nat), ConnectEvent::PreferenceApplied).0
    }
}

proof fn lemma_pref_successes(t: ConnectorView, j: nat)
    requires
        t.stage == Stage::Configuring,
        t.pref_index == 0,
        j < t.prefs.len(),
    ensures
        pref_successes(t, j) == (ConnectorView { pref_index: j, ..t }),
    decreases j,
{
    if j > 0 {
        lemma_pref_successes(t, (j - 1) as nat);
    }
}

/// Algorithm preferences: once the session exists, compression is set
/// first when the configuration sets it; then the preferences are applied
/// one by one in their order (those of the configuration, then the
/// caller's); the handshake comes after the last one; a refused preference
/// ends the attempt with `ProtocolError` and nothing more is applied.
pub proof fn law_preferences_in_order(s: ConnectorView, j: nat)
    requires
        s.stage == Stage::CreatingSession,
    ensures
        ({
            let (t0, a0) = step_spec(s, ConnectEvent::SessionCreated);
            let (t, a) = if s.config.params.compression is Some {
                step_spec(t0, ConnectEvent::CompressionSet)
            } else {
                (t0, a0)
            };
            &&& s.config.params.compression is Some ==> a0 == ConnectAction::SetCompression(
                s.config.params.compression->Some_0,
            )
            &&& s.prefs.len() == 0 ==> a == ConnectAction::Handshake
            &&& s.prefs.len() > 0 ==> {
                &&& a == ConnectAction::ApplyPreference(0)
                &&& j < s.prefs.len() ==> {
                    let u = pref_successes(t, j);
                    &&& u.stage == Stage::Configuring
                    &&& u.pref_index == j
                    &&& u.prefs == s.prefs
                    &&& step_spec(u, ConnectEvent::PreferenceFailed) == fail(
                        u,
                        RemoteErrorType::ProtocolError,
                    )
                    &&& step_spec(u, ConnectEvent::PreferenceApplied).1 == if j + 1 < s.prefs.len() {
                        ConnectAction::ApplyPreference((j + 1) as usize)
                    } else {
                        ConnectAction::Handshake
                    }
                }
            }
        }),
{
    let (t0, a0) = step_spec(s, ConnectEvent::SessionCreated);
    let (t, a) = if s.config.params.compression is Some {
        step_spec(t0, ConnectEvent::CompressionSet)
    } else {
        (t0, a0)
    };
    if s.prefs.len() > 0 && j < s.prefs.len() {
        lemma_pref_successes(t, j);
    }
}

/// The agent is released on every path: once it has been reached (its
/// identities listed, or the listing refused), the agent stages are left
/// only through `DisconnectAgent`; an agent that cannot be reached at all
/// is skipped.
pub proof fn law_agent_released(s: ConnectorView, e: ConnectEvent)
    ensures
        s.stage == Stage::AgentConnecting && e == ConnectEvent::AgentListingFailed ==> step_spec(
            s,
            e,
        ).1 == ConnectAction::DisconnectAgent,
        s.stage == Stage::AgentConnecting && e is AgentIdentities ==> {
            ||| step_spec(s, e).1 is AuthWithAgentIdentity
            ||| step_spec(s, e).1 == ConnectAction::DisconnectAgent
        },
        s.stage == Stage::AgentAuth && e is AuthCompleted ==> {
            ||| step_spec(s, e).1 is AuthWithAgentIdentity
            ||| step_spec(s, e).1 == ConnectAction::DisconnectAgent
        },
        (s.stage == Stage::AgentAuth || s.stage == Stage::AgentConnecting) && step_spec(s, e).0.stage
            != Stage::AgentAuth && step_spec(s, e).0.stage != Stage::AgentDisconnecting
            ==> e == ConnectEvent::AgentUnreachable || step_spec(s, e).0.stage == Stage::Failed,
{
}

/// The key strategy is reached from the handshake or the agent exactly
/// when a key store is configured: the next action is then `ResolveKey`,
/// never the password.
pub proof fn law_key_store_reached(s: ConnectorView)
    requires
        s.use_key_storage,
    ensures
        s.stage == Stage::Handshaking && !s.use_agent ==> step_spec(
            s,
            ConnectEvent::HandshakeCompleted,
        ).1 == ConnectAction::ResolveKey,
        s.stage == Stage::AgentConnecting ==> step_spec(s, ConnectEvent::AgentUnreachable).1
            == ConnectAction::ResolveKey,
        s.stage == Stage::AgentDisconnecting && !s.agent_ok ==> step_spec(
            s,
            ConnectEvent::AgentDisconnected,
        ).1 == ConnectAction::ResolveKey,
{
}

/// The state after `k` refused socket connects in a row.
pub open spec fn dial_failures(s: ConnectorView, k: nat) -> (ConnectorView, ConnectAction)
    decreases k,
{
    if k == 0 {
        (s, ConnectAction::ConnectSocket(s.index as usize))
    } else {
        step_spec(dial_failures(s, (k - 1) as nat).0, ConnectEvent::SocketFailed)
    }
}

/// Connection failure over a whole run: from any dialing state, every
/// refused connect but the last asks for another socket address, and after
/// `dials_left + 1` refusals (at most `attempts × addresses`) the attempt
/// ends with `ConnectionError`.
pub proof fn law_unreachable_host_fails(s: ConnectorView, k: nat)
    requires
        s.stage == Stage::Dialing,
        s.index < s.n_addrs,
        s.round < attempts(s),
    ensures
        dials_left(s) + 1 <= attempts(s) * s.n_addrs,
        k <= dials_left(s) ==> {
            &&& dial_failures(s, k).0.stage == Stage::Dialing
            &&& dial_failures(s, k).1 is ConnectSocket
            &&& dials_left(dial_failures(s, k).0) == dials_left(s) - k
        },
        dial_failures(s, (dials_left(s) + 1) as nat).1 == ConnectAction::Abort(
            RemoteErrorType::ConnectionError,
        ),
{
    law_dial_budget(s);
    lemma_dial_failures(s, k);
    lemma_dial_failures(s, dials_left(s) as nat);
    let u = dial_failures(s, dials_left(s) as nat).0;
    law_dial_budget(u);
}

proof fn lemma_dial_failures(s: ConnectorView, k: nat)
    requires
        s.stage == Stage::Dialing,
        s.index < s.n_addrs,
        s.round < attempts(s),
    ensures
        k <= dials_left(s) ==> {
            let u = dial_failures(s, k).0;
            &&& u.stage == Stage::Dialing
            &&& dial_failures(s, k).1 is ConnectSocket
            &&& u.index < u.n_addrs
            &&& u.round < attempts(u)
            &&& attempts(u) == attempts(s)
            &&& dials_left(u) == dials_left(s) - k
        },
    decreases k,
{
    law_dial_budget(s);
    if k > 0 && k <= dials_left(s) {
        lemma_dial_failures(s, (k - 1) as nat);
        let v = dial_failures(s, (k - 1) as nat).0;
        law_dial_budget(v);
    }
}

} // verus!
