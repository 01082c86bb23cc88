//! Connection options supplied by the caller, and the small value types they
//! are built from.
use std::path::{Path, PathBuf};
use std::time::Duration;

use ssh2_config::ParseRule;
use vstd::prelude::*;

verus! {

#[verifier::external_type_specification]
#[verifier::external_body]
pub struct ExPathBuf(PathBuf);

#[verifier::external_type_specification]
#[verifier::external_body]
pub struct ExPath(Path);

#[verifier::external_type_specification]
#[verifier::external_body]
pub struct ExParseRule(ParseRule);

/// Relies on `Path::to_path_buf`: an owned copy of the path.
pub assume_specification[ Path::to_path_buf ](p: &Path) -> PathBuf;

/// The duration of `secs` whole seconds.
pub uninterp spec fn duration_of_secs(secs: u64) -> Duration;

/// Relies on `Duration::from_secs`: the result depends on the count alone.
pub assume_specification[ Duration::from_secs ](secs: u64) -> (r: Duration)
    ensures
        r == duration_of_secs(secs),
;

/// Relies on `ParseRule::intersects`: whether `rules` has
/// `ALLOW_UNKNOWN_FIELDS`, the one flag the configuration parser consults.
#[verifier::external_body]
fn rule_allows_unknown_fields(rules: &ParseRule) -> bool {
    rules.intersects(ParseRule::ALLOW_UNKNOWN_FIELDS)
}

/// Relies on the `ParseRule` flags: `ALLOW_UNKNOWN_FIELDS` when unknown
/// fields are allowed, else `STRICT`.
#[verifier::external_body]
fn parse_rule_of(allow_unknown_fields: bool) -> ParseRule {
    if allow_unknown_fields {
        ParseRule::ALLOW_UNKNOWN_FIELDS
    } else {
        ParseRule::STRICT
    }
}

// -- key store

/// Implemented by callers that hold private keys: given a host and a user
/// name, returns the path of the key to authenticate with.
pub trait SshKeyStorage {
    /// Return the key path for `host` and `username`, if there is one.
    fn resolve(&self, host: &str, username: &str) -> Option<PathBuf>;
}

// -- key method

/// The negotiation category an algorithm preference applies to.
#[derive(Debug, Clone, Copy, PartialEq, Eq, Structural)]
pub enum MethodType {
    CryptClientServer,
    CryptServerClient,
    HostKey,
    Kex,
    MacClientServer,
    MacServerClient,
}

/// The string views of a sequence of strings.
pub open spec fn string_views(s: Seq<String>) -> Seq<Seq<char>> {
    s.map_values(|x: String| x@)
}

/// `parts` joined with `,` between consecutive items.
pub open spec fn comma_joined(parts: Seq<Seq<char>>) -> Seq<char>
    decreases parts.len(),
{
    if parts.len() == 0 {
        Seq::empty()
    } else if parts.len() == 1 {
        parts[0]
    } else {
        comma_joined(parts.drop_last()) + seq![','] + parts.last()
    }
}

/// A negotiation category with its algorithms, most preferred first.
pub struct KeyMethod {
    pub(crate) method_type: MethodType,
    algos: Vec<String>,
}

pub struct KeyMethodView {
    pub method_type: MethodType,
    pub algos: Seq<Seq<char>>,
}

impl View for KeyMethod {
    type V = KeyMethodView;

    closed spec fn view(&self) -> KeyMethodView {
        KeyMethodView { method_type: self.method_type, algos: string_views(self.algos@) }
    }
}

/// Owned copies of `src`, in order.
pub(crate) fn clone_strings(src: &[String]) -> (r: Vec<String>)
    ensures
        string_views(r@) == string_views(src@),
{
    let mut r: Vec<String> = Vec::new();
    let mut i: usize = 0;
    while i < src.len()
        invariant
            i <= src@.len(),
            string_views(r@) == string_views(src@.take(i as int)),
        decreases src@.len() - i,
    {
        let s = src[i].clone();
        let ghost before = r@;
        r.push(s);
        proof {
            assert(s@ == src@[i as int]@);
            assert(src@.take(i + 1) =~= src@.take(i as int).push(src@[i as int]));
            assert(r@ =~= before.push(s));
            assert(string_views(r@) =~= string_views(before).push(s@));
            assert(string_views(src@.take(i + 1)) =~= string_views(src@.take(i as int)).push(
                src@[i as int]@,
            ));
        }
        i += 1;
    }
    assert(src@.take(src@.len() as int) =~= src@);
    r
}

/// `parts` joined with commas.
pub(crate) fn join_commas(parts: &Vec<String>) -> (r: String)
    ensures
        r@ == comma_joined(string_views(parts@)),
{
    let ghost views = string_views(parts@);
    let mut r = String::new();
    let mut i: usize = 0;
    while i < parts.len()
        invariant
            i <= parts@.len(),
            views == string_views(parts@),
            r@ == comma_joined(views.take(i as int)),
        decreases parts@.len() - i,
    {
        if i > 0 {
            r.push(',');
        }
        r.append(parts[i].as_str());
        proof {
            let next = views.take(i + 1);
            assert(next.drop_last() =~= views.take(i as int));
            assert(r@ =~= comma_joined(next));
        }
        i += 1;
    }
    assert(views.take(parts@.len() as int) =~= views);
    r
}

impl KeyMethod {
    /// A method of the given category, with `algos` in order of preference.
    pub fn new(method_type: MethodType, algos: &[String]) -> (r: Self)
        ensures
            r@.method_type == method_type,
            r@.algos == string_views(algos@),
    {
        KeyMethod { method_type, algos: clone_strings(algos) }
    }

    /// The algorithms in the form the negotiation call takes: comma-joined,
    /// most preferred first.
    pub fn prefs(&self) -> (r: String)
        ensures
            r@ == comma_joined(self@.algos),
    {
        join_commas(&self.algos)
    }

    pub fn method_type(&self) -> (r: MethodType)
        ensures
            r == self@.method_type,
    {
        self.method_type
    }
}

// -- agent identity

/// Which of the identities held by the ssh agent may be used.
#[derive(Debug, Clone, PartialEq, Eq)]
pub enum SshAgentIdentity {
    /// Try every identity.
    All,
    /// Only the identity with this public key.
    Pubkey(Vec<u8>),
}

/// Owned copy of a byte slice.
fn copy_bytes(v: &[u8]) -> (r: Vec<u8>)
    ensures
        r@ == v@,
{
    let mut r: Vec<u8> = Vec::new();
    let mut i: usize = 0;
    while i < v.len()
        invariant
            i <= v@.len(),
            r@ == v@.take(i as int),
        decreases v@.len() - i,
    {
        r.push(v[i]);
        i += 1;
        assert(r@ =~= v@.take(i as int));
    }
    assert(v@.take(v@.len() as int) =~= v@);
    r
}

impl From<Vec<u8>> for SshAgentIdentity {
    fn from(v: Vec<u8>) -> (r: Self)
        ensures
            r == SshAgentIdentity::Pubkey(v),
    {
        SshAgentIdentity::Pubkey(v)
    }
}

impl vstd::std_specs::convert::FromSpecImpl<Vec<u8>> for SshAgentIdentity {
    open spec fn obeys_from_spec() -> bool {
        true
    }

    open spec fn from_spec(v: Vec<u8>) -> Self {
        SshAgentIdentity::Pubkey(v)
    }
}

impl From<&[u8]> for SshAgentIdentity {
    fn from(v: &[u8]) -> (r: Self)
        ensures
            r is Pubkey && r->Pubkey_0@ == v@,
    {
        SshAgentIdentity::Pubkey(copy_bytes(v))
    }
}

/// A copy of the bytes is a new vector, equal to any other by its view only:
/// so `from` is not claimed to give exactly `from_spec`; its own `ensures`
/// states the result.
impl vstd::std_specs::convert::FromSpecImpl<&[u8]> for SshAgentIdentity {
    open spec fn obeys_from_spec() -> bool {
        false
    }

    open spec fn from_spec(v: &[u8]) -> Self {
        SshAgentIdentity::Pubkey(choose|w: Vec<u8>| w@ == v@)
    }
}

impl SshAgentIdentity {
    /// Whether an agent identity with public key `blob` may be used.
    pub open spec fn spec_matches(&self, blob: Seq<u8>) -> bool {
        selector_accepts(self.selector(), blob)
    }

    /// The public key the identity is restricted to; `None` for `All`.
    pub open spec fn selector(&self) -> Option<Seq<u8>> {
        match self {
            SshAgentIdentity::All => None,
            SshAgentIdentity::Pubkey(v) => Some(v@),
        }
    }

    /// A copy with the same selector.
    pub fn duplicate(&self) -> (r: Self)
        ensures
            r.selector() == self.selector(),
    {
        match self {
            SshAgentIdentity::All => SshAgentIdentity::All,
            SshAgentIdentity::Pubkey(v) => SshAgentIdentity::Pubkey(copy_bytes(v.as_slice())),
        }
    }

    /// Tells whether the public key `blob` matches this identity: always for
    /// `All`, on byte-for-byte equality for `Pubkey`.
    pub fn pubkey_matches(&self, blob: &[u8]) -> (r: bool)
        ensures
            r == self.spec_matches(blob@),
    {
        match self {
            SshAgentIdentity::All => true,
            SshAgentIdentity::Pubkey(v) => {
                if v.len() != blob.len() {
                    assert(v@.len() != blob@.len());
                    return false;
                }
                let mut i: usize = 0;
                while i < v.len()
                    invariant
                        self.spec_matches(blob@) == (v@ == blob@),
                        v@.len() == blob@.len(),
                        i <= v@.len(),
                        v@.take(i as int) == blob@.take(i as int),
                    decreases v@.len() - i,
                {
                    if v[i] != blob[i] {
                        assert(v@[i as int] != blob@[i as int]);
                        assert(v@ != blob@);
                        return false;
                    }
                    i += 1;
                    assert(v@.take(i as int) =~= blob@.take(i as int)) by {
                        assert(v@.take(i - 1) == blob@.take(i - 1));
                        assert forall|j: int| 0 <= j < i implies v@.take(i as int)[j] == blob@.take(
                            i as int,
                        )[j] by {
                            if j < i - 1 {
                                assert(v@.take(i - 1)[j] == blob@.take(i - 1)[j]);
                            }
                        }
                    }
                }
                assert(v@ =~= v@.take(i as int));
                assert(blob@ =~= blob@.take(i as int));
                true
            },
        }
    }
}

/// Whether a selector accepts the public key `blob`: any key for `None`, the
/// same bytes for `Some`.
pub open spec fn selector_accepts(sel: Option<Seq<u8>>, blob: Seq<u8>) -> bool {
    match sel {
        None => true,
        Some(v) => v == blob,
    }
}

/// The byte views of a sequence of byte vectors.
pub open spec fn byte_views(s: Seq<Vec<u8>>) -> Seq<Seq<u8>> {
    s.map_values(|b: Vec<u8>| b@)
}

/// The indices among the first `n` public keys that `sel` accepts, in order.
pub open spec fn matching_upto(sel: Option<Seq<u8>>, blobs: Seq<Seq<u8>>, n: nat) -> Seq<usize>
    decreases n,
{
    if n == 0 {
        Seq::empty()
    } else {
        let before = matching_upto(sel, blobs, (n - 1) as nat);
        if selector_accepts(sel, blobs[n - 1]) {
            before.push((n - 1) as usize)
        } else {
            before
        }
    }
}

impl SshAgentIdentity {
    /// The indices of the agent's public keys `blobs` that may be used, in
    /// the order the agent listed them: the order in which they are tried.
    pub fn matching_identities(&self, blobs: &Vec<Vec<u8>>) -> (r: Vec<usize>)
        ensures
            r@ == matching_upto(self.selector(), byte_views(blobs@), blobs@.len()),
    {
        let ghost views = byte_views(blobs@);
        let mut r: Vec<usize> = Vec::new();
        let mut i: usize = 0;
        while i < blobs.len()
            invariant
                i <= blobs@.len(),
                views == byte_views(blobs@),
                r@ == matching_upto(self.selector(), views, i as nat),
            decreases blobs@.len() - i,
        {
            assert(views[i as int] == blobs@[i as int]@);
            if self.pubkey_matches(blobs[i].as_slice()) {
                r.push(i);
            }
            i += 1;
        }
        r
    }
}

// -- options

/// Options of one connection: the host, the explicit overrides that win over
/// the configuration file, the credentials and the identity sources.
pub struct SshOpts {
    host: String,
    port: Option<u16>,
    username: Option<String>,
    password: Option<String>,
    connection_timeout: Option<Duration>,
    config_file: Option<PathBuf>,
    key_storage: Option<Box<dyn SshKeyStorage>>,
    methods: Vec<KeyMethod>,
    allow_unknown_fields: bool,
    ssh_agent_identity: Option<SshAgentIdentity>,
}

pub open spec fn opt_view(s: Option<String>) -> Option<Seq<char>> {
    match s {
        Some(x) => Some(x@),
        None => None,
    }
}

/// What the connection logic reads of the options.
pub struct SshOptsView {
    pub host: Seq<char>,
    pub port: Option<u16>,
    pub username: Option<Seq<char>>,
    pub password: Option<Seq<char>>,
    pub connection_timeout: Option<Duration>,
    pub config_file: Option<PathBuf>,
    /// Whether the configuration file may hold fields the parser does not
    /// know; `false` is strict parsing.
    pub allow_unknown_fields: bool,
    pub has_key_storage: bool,
    pub methods: Seq<KeyMethodView>,
    pub ssh_agent_identity: Option<SshAgentIdentity>,
}

impl View for SshOpts {
    type V = SshOptsView;

    closed spec fn view(&self) -> SshOptsView {
        SshOptsView {
            host: self.host@,
            port: self.port,
            username: opt_view(self.username),
            password: opt_view(self.password),
            connection_timeout: self.connection_timeout,
            config_file: self.config_file,
            allow_unknown_fields: self.allow_unknown_fields,
            has_key_storage: self.key_storage is Some,
            methods: self.methods@.map_values(|m: KeyMethod| m@),
            ssh_agent_identity: self.ssh_agent_identity,
        }
    }
}

fn copy_str(s: &str) -> (r: String)
    ensures
        r@ == s@,
{
    s.to_owned()
}

impl SshOpts {
    /// Options for `host`, with nothing else set; the configuration file, if
    /// one is set later, is parsed strictly.
    pub fn new(host: &str) -> (r: Self)
        ensures
            r@.host == host@,
            r@.port is None,
            r@.username is None,
            r@.password is None,
            r@.connection_timeout is None,
            r@.config_file is None,
            !r@.has_key_storage,
            r@.methods.len() == 0,
            r@.ssh_agent_identity is None,
            !r@.allow_unknown_fields,
    {
        SshOpts {
            host: copy_str(host),
            port: None,
            username: None,
            password: None,
            connection_timeout: None,
            config_file: None,
            key_storage: None,
            methods: Vec::new(),
            allow_unknown_fields: false,
            ssh_agent_identity: None,
        }
    }

    /// Sets the port; it wins over the one of the configuration file.
    pub fn port(self, port: u16) -> (r: Self)
        ensures
            r@ == (SshOptsView { port: Some(port), ..self@ }),
    {
        let mut s = self;
        s.port = Some(port);
        s
    }

    /// Sets the user name; it wins over the one of the configuration file.
    pub fn username(self, username: &str) -> (r: Self)
        ensures
            r@ == (SshOptsView { username: Some(username@), ..self@ }),
    {
        let mut s = self;
        s.username = Some(copy_str(username));
        s
    }

    /// Sets the password, used for password authentication or to decrypt a
    /// private key.
    pub fn password(self, password: &str) -> (r: Self)
        ensures
            r@ == (SshOptsView { password: Some(password@), ..self@ }),
    {
        let mut s = self;
        s.password = Some(copy_str(password));
        s
    }

    /// Sets the connection timeout; it wins over the one of the configuration
    /// file. Zero means no timeout.
    pub fn connection_timeout(self, timeout: Duration) -> (r: Self)
        ensures
            r@ == (SshOptsView { connection_timeout: Some(timeout), ..self@ }),
    {
        let mut s = self;
        s.connection_timeout = Some(timeout);
        s
    }

    /// Sets which agent identities to try; `None` disables the agent.
    pub fn ssh_agent_identity(self, ssh_agent_identity: Option<SshAgentIdentity>) -> (r: Self)
        ensures
            r@ == (SshOptsView { ssh_agent_identity: ssh_agent_identity, ..self@ }),
    {
        let mut s = self;
        s.ssh_agent_identity = ssh_agent_identity;
        s
    }

    /// Sets the ssh configuration file to read on connect, and the rules to
    /// parse it with.
    pub fn config_file(self, p: &Path, rules: ParseRule) -> (r: Self)
        ensures
            r@.config_file is Some,
            r@ == (SshOptsView {
                config_file: r@.config_file,
                allow_unknown_fields: r@.allow_unknown_fields,
                ..self@
            }),
    {
        let mut s = self;
        s.config_file = Some(p.to_path_buf());
        s.allow_unknown_fields = rule_allows_unknown_fields(&rules);
        s
    }

    /// Sets the store that private keys are looked up in.
    pub fn key_storage(self, storage: Box<dyn SshKeyStorage>) -> (r: Self)
        ensures
            r@ == (SshOptsView { has_key_storage: true, ..self@ }),
    {
        let mut s = self;
        s.key_storage = Some(storage);
        s
    }

    /// Adds an algorithm preference; preferences are applied in the order
    /// they were added, after those of the configuration file.
    pub fn method(self, method: KeyMethod) -> (r: Self)
        ensures
            r@ == (SshOptsView { methods: self@.methods.push(method@), ..self@ }),
    {
        let mut s = self;
        s.methods.push(method);
        assert(s.methods@.map_values(|m: KeyMethod| m@) =~= self@.methods.push(method@));
        s
    }

    // -- getters

    pub fn host(&self) -> (r: &str)
        ensures
            r@ == self@.host,
    {
        self.host.as_str()
    }

    pub fn get_port(&self) -> (r: Option<u16>)
        ensures
            r == self@.port,
    {
        self.port
    }

    pub fn get_username(&self) -> (r: Option<&str>)
        ensures
            r is Some <==> self@.username is Some,
            r is Some ==> r->Some_0@ == self@.username->Some_0,
    {
        match &self.username {
            Some(u) => Some(u.as_str()),
            None => None,
        }
    }

    pub fn get_password(&self) -> (r: Option<&str>)
        ensures
            r is Some <==> self@.password is Some,
            r is Some ==> r->Some_0@ == self@.password->Some_0,
    {
        match &self.password {
            Some(p) => Some(p.as_str()),
            None => None,
        }
    }

    pub fn get_connection_timeout(&self) -> (r: Option<Duration>)
        ensures
            r == self@.connection_timeout,
    {
        self.connection_timeout
    }

    pub fn get_config_file(&self) -> (r: Option<&PathBuf>)
        ensures
            r is Some <==> self@.config_file is Some,
            r is Some ==> *r->Some_0 == self@.config_file->Some_0,
    {
        self.config_file.as_ref()
    }

    /// Whether unknown fields of the configuration file are allowed.
    pub fn allows_unknown_fields(&self) -> (r: bool)
        ensures
            r == self@.allow_unknown_fields,
    {
        self.allow_unknown_fields
    }

    /// The parse rules of the configuration file.
    pub fn get_parse_rules(&self) -> ParseRule {
        parse_rule_of(self.allow_unknown_fields)
    }

    pub fn get_key_storage(&self) -> (r: Option<&Box<dyn SshKeyStorage>>)
        ensures
            r is Some <==> self@.has_key_storage,
    {
        self.key_storage.as_ref()
    }

    pub fn get_methods(&self) -> (r: &Vec<KeyMethod>)
        ensures
            r@.map_values(|m: KeyMethod| m@) == self@.methods,
    {
        &self.methods
    }

    pub fn get_ssh_agent_identity(&self) -> (r: Option<&SshAgentIdentity>)
        ensures
            r is Some <==> self@.ssh_agent_identity is Some,
            r is Some ==> *r->Some_0 == self@.ssh_agent_identity->Some_0,
    {
        self.ssh_agent_identity.as_ref()
    }
}

} // verus!
