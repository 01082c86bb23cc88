use std::path::PathBuf;
use std::time::Duration;

use remotefs::RemoteErrorType;
use remotefs_ssh::{
    KeyMethod, MethodType, Config, ConnectAction, ConnectEvent, Connector, HostParameters, SshAgentIdentity, SshKeyStorage,
    SshOpts, Stage,
};

struct NoKeys;

impl SshKeyStorage for NoKeys {
    fn resolve(&self, _host: &str, _username: &str) -> Option<PathBuf> {
        None
    }
}

fn connector(opts: &SshOpts, params: HostParameters) -> Connector {
    Connector::new(Config::from_params(params, opts), opts)
}

fn to_handshake(c: &mut Connector, n_addrs: usize) -> ConnectAction {
    assert_eq!(c.step(ConnectEvent::Started), ConnectAction::ResolveAddress);
    assert_eq!(c.step(ConnectEvent::AddressesResolved(n_addrs)), ConnectAction::ConnectSocket(0));
    assert_eq!(c.step(ConnectEvent::SocketConnected), ConnectAction::CreateSession);
    assert_eq!(c.step(ConnectEvent::SessionCreated), ConnectAction::Handshake);
    c.step(ConnectEvent::HandshakeCompleted)
}

#[test]
fn test_filetransfer_sftp_bad_server() {
    let opts = SshOpts::new("myverybad.verybad.server")
        .port(10022)
        .username("sftp")
        .password("ippopotamo");
    let mut c = connector(&opts, HostParameters::default());
    assert_eq!(c.config().address, "myverybad.verybad.server:10022");
    assert_eq!(c.step(ConnectEvent::Started), ConnectAction::ResolveAddress);
    assert_eq!(
        c.step(ConnectEvent::AddressResolutionFailed),
        ConnectAction::Abort(RemoteErrorType::BadAddress)
    );
    assert_eq!(c.stage(), Stage::Failed);
}

#[test]
fn dials_every_address_in_every_round() {
    let opts = SshOpts::new("host").connection_timeout(Duration::from_secs(1));
    let params = HostParameters { connection_attempts: Some(2), ..HostParameters::default() };
    let mut c = connector(&opts, params);
    c.step(ConnectEvent::Started);
    let mut asked = vec![c.step(ConnectEvent::AddressesResolved(3))];
    loop {
        let a = c.step(ConnectEvent::SocketFailed);
        asked.push(a);
        if let ConnectAction::Abort(_) = a {
            break;
        }
    }
    assert_eq!(
        asked,
        vec![
            ConnectAction::ConnectSocket(0),
            ConnectAction::ConnectSocket(1),
            ConnectAction::ConnectSocket(2),
            ConnectAction::ConnectSocket(0),
            ConnectAction::ConnectSocket(1),
            ConnectAction::ConnectSocket(2),
            ConnectAction::Abort(RemoteErrorType::ConnectionError),
        ]
    );
}

#[test]
fn no_address_or_no_round_is_connection_error() {
    let opts = SshOpts::new("host");
    let mut c = connector(&opts, HostParameters::default());
    c.step(ConnectEvent::Started);
    assert_eq!(
        c.step(ConnectEvent::AddressesResolved(0)),
        ConnectAction::Abort(RemoteErrorType::ConnectionError)
    );
    let params = HostParameters { connection_attempts: Some(0), ..HostParameters::default() };
    let mut c = connector(&opts, params);
    c.step(ConnectEvent::Started);
    assert_eq!(
        c.step(ConnectEvent::AddressesResolved(2)),
        ConnectAction::Abort(RemoteErrorType::ConnectionError)
    );
}

#[test]
fn transport_failures_are_classified() {
    let opts = SshOpts::new("host");
    let mut c = connector(&opts, HostParameters::default());
    c.step(ConnectEvent::Started);
    c.step(ConnectEvent::AddressesResolved(1));
    c.step(ConnectEvent::SocketConnected);
    assert_eq!(
        c.step(ConnectEvent::SessionFailed),
        ConnectAction::Abort(RemoteErrorType::ConnectionError)
    );
    let params = HostParameters { mac: Some(vec!["m1".to_string()]), ..HostParameters::default() };
    let mut c = connector(&opts, params);
    c.step(ConnectEvent::Started);
    c.step(ConnectEvent::AddressesResolved(1));
    c.step(ConnectEvent::SocketConnected);
    assert_eq!(c.step(ConnectEvent::SessionCreated), ConnectAction::ApplyPreference(0));
    assert_eq!(
        c.step(ConnectEvent::PreferenceFailed),
        ConnectAction::Abort(RemoteErrorType::ProtocolError)
    );
    let mut c = connector(&opts, HostParameters::default());
    c.step(ConnectEvent::Started);
    c.step(ConnectEvent::AddressesResolved(1));
    c.step(ConnectEvent::SocketConnected);
    c.step(ConnectEvent::SessionCreated);
    assert_eq!(
        c.step(ConnectEvent::HandshakeFailed),
        ConnectAction::Abort(RemoteErrorType::ProtocolError)
    );
}

#[test]
fn unexpected_event_is_protocol_error() {
    let opts = SshOpts::new("host");
    let mut c = connector(&opts, HostParameters::default());
    assert_eq!(
        c.step(ConnectEvent::SocketConnected),
        ConnectAction::Abort(RemoteErrorType::ProtocolError)
    );
    assert_eq!(c.stage(), Stage::Failed);
}

#[test]
fn password_authentication() {
    let opts = SshOpts::new("host").password("secret");
    let mut c = connector(&opts, HostParameters::default());
    assert_eq!(to_handshake(&mut c, 1), ConnectAction::AuthWithPassword);
    assert_eq!(c.step(ConnectEvent::AuthCompleted(true)), ConnectAction::Finish);
    assert_eq!(c.stage(), Stage::Connected);

    let mut c = connector(&opts, HostParameters::default());
    to_handshake(&mut c, 1);
    assert_eq!(
        c.step(ConnectEvent::AuthCompleted(false)),
        ConnectAction::Abort(RemoteErrorType::AuthenticationFailed)
    );
}

#[test]
fn agent_first_then_fallthrough() {
    let opts = SshOpts::new("host").ssh_agent_identity(Some(SshAgentIdentity::All));
    let mut c = connector(&opts, HostParameters::default());
    assert_eq!(to_handshake(&mut c, 1), ConnectAction::ConnectAgent);
    assert_eq!(
        c.step(ConnectEvent::AgentIdentities(vec![b"a".to_vec(), b"b".to_vec()])),
        ConnectAction::AuthWithAgentIdentity(0)
    );
    assert_eq!(c.step(ConnectEvent::AuthCompleted(false)), ConnectAction::AuthWithAgentIdentity(1));
    assert_eq!(c.step(ConnectEvent::AuthCompleted(true)), ConnectAction::DisconnectAgent);
    assert_eq!(c.step(ConnectEvent::AgentDisconnected), ConnectAction::Finish);
    assert_eq!(c.stage(), Stage::Connected);

    let opts = opts.key_storage(Box::new(NoKeys));
    let mut c = connector(&opts, HostParameters::default());
    assert_eq!(to_handshake(&mut c, 1), ConnectAction::ConnectAgent);
    assert_eq!(c.step(ConnectEvent::AgentUnreachable), ConnectAction::ResolveKey);

    let mut c = connector(&opts, HostParameters::default());
    to_handshake(&mut c, 1);
    assert_eq!(c.step(ConnectEvent::AgentListingFailed), ConnectAction::DisconnectAgent);
    assert_eq!(c.step(ConnectEvent::AgentDisconnected), ConnectAction::ResolveKey);
}

#[test]
fn compression_then_preferences_in_order() {
    let opts = SshOpts::new("host")
        .method(KeyMethod::new(MethodType::Kex, &["o1".to_string(), "o2".to_string()]));
    let params = HostParameters {
        compression: Some(true),
        kex_algorithms: Some(vec!["k1".to_string()]),
        ciphers: Some(vec!["c1".to_string(), "c2".to_string()]),
        ..HostParameters::default()
    };
    let mut c = connector(&opts, params);
    c.step(ConnectEvent::Started);
    c.step(ConnectEvent::AddressesResolved(1));
    c.step(ConnectEvent::SocketConnected);
    assert_eq!(c.step(ConnectEvent::SessionCreated), ConnectAction::SetCompression(true));
    let mut asked = vec![c.step(ConnectEvent::CompressionSet)];
    while let ConnectAction::ApplyPreference(_) = asked[asked.len() - 1] {
        asked.push(c.step(ConnectEvent::PreferenceApplied));
    }
    assert_eq!(
        asked,
        vec![
            ConnectAction::ApplyPreference(0),
            ConnectAction::ApplyPreference(1),
            ConnectAction::ApplyPreference(2),
            ConnectAction::ApplyPreference(3),
            ConnectAction::Handshake,
        ]
    );
    assert_eq!(c.preference(0), Some(&(MethodType::Kex, "k1".to_string())));
    assert_eq!(c.preference(1), Some(&(MethodType::CryptClientServer, "c1,c2".to_string())));
    assert_eq!(c.preference(2), Some(&(MethodType::CryptServerClient, "c1,c2".to_string())));
    assert_eq!(c.preference(3), Some(&(MethodType::Kex, "o1,o2".to_string())));
    assert_eq!(c.preference(4), None);
}

#[test]
fn agent_tries_only_the_selected_key() {
    let opts = SshOpts::new("host").ssh_agent_identity(Some(SshAgentIdentity::Pubkey(b"b".to_vec())));
    let mut c = connector(&opts, HostParameters::default());
    to_handshake(&mut c, 1);
    let blobs = vec![b"a".to_vec(), b"b".to_vec(), b"c".to_vec(), b"b".to_vec()];
    assert_eq!(c.step(ConnectEvent::AgentIdentities(blobs)), ConnectAction::AuthWithAgentIdentity(1));
    assert_eq!(c.step(ConnectEvent::AuthCompleted(false)), ConnectAction::AuthWithAgentIdentity(3));
    assert_eq!(c.step(ConnectEvent::AuthCompleted(false)), ConnectAction::DisconnectAgent);
    assert_eq!(c.step(ConnectEvent::AgentDisconnected), ConnectAction::AuthWithPassword);

    let mut c = connector(&opts, HostParameters::default());
    to_handshake(&mut c, 1);
    assert_eq!(
        c.step(ConnectEvent::AgentIdentities(vec![b"a".to_vec()])),
        ConnectAction::DisconnectAgent
    );
    assert_eq!(c.step(ConnectEvent::AgentDisconnected), ConnectAction::AuthWithPassword);
}

#[test]
fn key_store_without_key_never_falls_back_to_password() {
    let opts = SshOpts::new("host").key_storage(Box::new(NoKeys)).password("secret");
    let mut c = connector(&opts, HostParameters::default());
    assert_eq!(to_handshake(&mut c, 1), ConnectAction::ResolveKey);
    assert_eq!(c.step(ConnectEvent::KeyResolved(None)), ConnectAction::ResolveKeyForResolvedHost);
    assert_eq!(
        c.step(ConnectEvent::KeyResolved(None)),
        ConnectAction::Abort(RemoteErrorType::AuthenticationFailed)
    );

    let params = HostParameters {
        identity_file: Some(vec![PathBuf::from("/id/one")]),
        ..HostParameters::default()
    };
    let mut c = connector(&opts, params);
    to_handshake(&mut c, 1);
    c.step(ConnectEvent::KeyResolved(None));
    assert_eq!(c.step(ConnectEvent::KeyResolved(None)), ConnectAction::AuthWithKey(0));
    assert_eq!(c.key_candidate(0), Some(&PathBuf::from("/id/one")));
    assert_eq!(c.key_candidate(1), None);
    assert_eq!(
        c.step(ConnectEvent::AuthCompleted(false)),
        ConnectAction::Abort(RemoteErrorType::AuthenticationFailed)
    );
}

#[test]
fn key_candidates_in_order() {
    let opts = SshOpts::new("host").key_storage(Box::new(NoKeys));
    let params = HostParameters {
        identity_file: Some(vec![PathBuf::from("/id/one"), PathBuf::from("/id/two")]),
        ..HostParameters::default()
    };
    let mut c = connector(&opts, params.clone());
    assert_eq!(to_handshake(&mut c, 1), ConnectAction::ResolveKey);
    assert_eq!(c.step(ConnectEvent::KeyResolved(None)), ConnectAction::ResolveKeyForResolvedHost);
    let first = c.step(ConnectEvent::KeyResolved(Some(PathBuf::from("/store/key"))));
    assert_eq!(first, ConnectAction::AuthWithKey(0));
    assert_eq!(c.key_candidate(0), Some(&PathBuf::from("/store/key")));
    assert_eq!(c.step(ConnectEvent::AuthCompleted(false)), ConnectAction::AuthWithKey(1));
    assert_eq!(c.key_candidate(1), Some(&PathBuf::from("/id/one")));
    assert_eq!(c.step(ConnectEvent::AuthCompleted(false)), ConnectAction::AuthWithKey(2));
    assert_eq!(c.key_candidate(2), Some(&PathBuf::from("/id/two")));
    assert_eq!(c.key_candidate(3), None);
    assert_eq!(
        c.step(ConnectEvent::AuthCompleted(false)),
        ConnectAction::Abort(RemoteErrorType::AuthenticationFailed)
    );

    let mut c = connector(&opts, params);
    to_handshake(&mut c, 1);
    assert_eq!(
        c.step(ConnectEvent::KeyResolved(Some(PathBuf::from("/store/host")))),
        ConnectAction::AuthWithKey(0)
    );
    assert_eq!(c.key_candidate(0), Some(&PathBuf::from("/store/host")));
    assert_eq!(c.step(ConnectEvent::AuthCompleted(false)), ConnectAction::AuthWithKey(1));
    assert_eq!(c.step(ConnectEvent::AuthCompleted(true)), ConnectAction::Finish);
}
