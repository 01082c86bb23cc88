use std::path::{Path, PathBuf};
use std::time::Duration;

use remotefs_ssh::{KeyMethod, MethodType, SshAgentIdentity, SshConfigParseRule, SshKeyStorage, SshOpts};

struct FixedKeyStorage;

impl SshKeyStorage for FixedKeyStorage {
    fn resolve(&self, _host: &str, _username: &str) -> Option<PathBuf> {
        Some(PathBuf::from("/home/sftp/.ssh/id_rsa"))
    }
}

fn ciphers() -> Vec<String> {
    vec![
        "aes128-ctr".to_string(),
        "aes192-ctr".to_string(),
        "aes256-ctr".to_string(),
        "aes128-cbc".to_string(),
        "3des-cbc".to_string(),
    ]
}

#[test]
fn should_create_key_method() {
    let key_method = KeyMethod::new(MethodType::CryptClientServer, &ciphers());
    assert_eq!(
        key_method.prefs().as_str(),
        "aes128-ctr,aes192-ctr,aes256-ctr,aes128-cbc,3des-cbc"
    );
}

#[test]
fn key_method_prefs_of_one_and_none() {
    let one = KeyMethod::new(MethodType::Kex, &["curve25519-sha256".to_string()]);
    assert_eq!(one.prefs(), "curve25519-sha256");
    assert_eq!(one.method_type(), MethodType::Kex);
    let none = KeyMethod::new(MethodType::HostKey, &[]);
    assert_eq!(none.prefs(), "");
}

#[test]
fn test_should_tell_whether_pubkey_matches() {
    let identity = SshAgentIdentity::Pubkey(b"hello".to_vec());
    assert!(identity.pubkey_matches(b"hello"));
    assert!(!identity.pubkey_matches(b"world"));

    let identity = SshAgentIdentity::All;
    assert!(identity.pubkey_matches(b"hello"));
}

#[test]
fn pubkey_matching_edge_cases() {
    let identity = SshAgentIdentity::Pubkey(b"hello".to_vec());
    assert!(!identity.pubkey_matches(b"hell"));
    assert!(!identity.pubkey_matches(b"hello!"));
    assert!(!identity.pubkey_matches(b""));
    let empty = SshAgentIdentity::Pubkey(Vec::new());
    assert!(empty.pubkey_matches(b""));
    assert!(!empty.pubkey_matches(b"a"));
    assert!(SshAgentIdentity::All.pubkey_matches(b""));
}

#[test]
fn agent_identity_from_bytes() {
    let from_vec = SshAgentIdentity::from(b"key".to_vec());
    assert_eq!(from_vec, SshAgentIdentity::Pubkey(b"key".to_vec()));
    let from_slice = SshAgentIdentity::from(&b"key"[..]);
    assert_eq!(from_slice, SshAgentIdentity::Pubkey(b"key".to_vec()));
}

#[test]
fn should_initialize_ssh_opts() {
    let opts = SshOpts::new("localhost");
    assert_eq!(opts.host(), "localhost");
    assert!(opts.get_port().is_none());
    assert!(opts.get_username().is_none());
    assert!(opts.get_password().is_none());
    assert!(opts.get_connection_timeout().is_none());
    assert!(opts.get_config_file().is_none());
    assert!(opts.get_key_storage().is_none());
    assert!(opts.get_methods().is_empty());
}

#[test]
fn should_build_ssh_opts() {
    let opts = SshOpts::new("localhost")
        .port(22)
        .username("foobar")
        .password("qwerty123")
        .connection_timeout(Duration::from_secs(10))
        .config_file(Path::new("/home/pippo/.ssh/config"), SshConfigParseRule::STRICT)
        .key_storage(Box::new(FixedKeyStorage))
        .method(KeyMethod::new(MethodType::CryptClientServer, &ciphers()));
    assert_eq!(opts.host(), "localhost");
    assert_eq!(opts.get_port().unwrap(), 22);
    assert_eq!(opts.get_username().unwrap(), "foobar");
    assert_eq!(opts.get_password().unwrap(), "qwerty123");
    assert_eq!(opts.get_connection_timeout().unwrap(), Duration::from_secs(10));
    assert_eq!(
        opts.get_config_file().unwrap().as_path(),
        Path::new("/home/pippo/.ssh/config")
    );
    assert!(opts.get_key_storage().is_some());
    assert_eq!(opts.get_methods().len(), 1);
}

#[test]
fn ssh_opts_agent_identity_and_rules() {
    let opts = SshOpts::new("localhost")
        .ssh_agent_identity(Some(SshAgentIdentity::All))
        .config_file(Path::new("/tmp/config"), SshConfigParseRule::ALLOW_UNKNOWN_FIELDS);
    assert_eq!(opts.get_ssh_agent_identity(), Some(&SshAgentIdentity::All));
    assert_eq!(opts.get_parse_rules(), SshConfigParseRule::ALLOW_UNKNOWN_FIELDS);
    assert!(opts.allows_unknown_fields());
    let opts = opts.ssh_agent_identity(None);
    assert!(opts.get_ssh_agent_identity().is_none());
    assert_eq!(SshOpts::new("h").get_parse_rules(), SshConfigParseRule::STRICT);
    assert!(!SshOpts::new("h").allows_unknown_fields());
}

#[test]
fn matching_identities_in_agent_order() {
    let blobs = vec![b"a".to_vec(), b"b".to_vec(), b"a".to_vec(), Vec::new()];
    assert_eq!(SshAgentIdentity::All.matching_identities(&blobs), vec![0, 1, 2, 3]);
    assert_eq!(SshAgentIdentity::Pubkey(b"a".to_vec()).matching_identities(&blobs), vec![0, 2]);
    assert!(SshAgentIdentity::Pubkey(b"c".to_vec()).matching_identities(&blobs).is_empty());
    assert!(SshAgentIdentity::All.matching_identities(&Vec::new()).is_empty());
}
