use remotefs_ssh::{algo_prefs, HostParameters, KeyMethod, MethodType, SshOpts};

#[test]
fn preferences_in_order() {
    let params = HostParameters {
        kex_algorithms: Some(vec!["k1".to_string(), "k2".to_string()]),
        host_key_algorithms: Some(vec!["h1".to_string()]),
        ciphers: Some(vec!["c1".to_string(), "c2".to_string()]),
        mac: Some(vec!["m1".to_string()]),
        ..HostParameters::default()
    };
    let opts = SshOpts::new("host")
        .method(KeyMethod::new(MethodType::Kex, &["o1".to_string(), "o2".to_string()]))
        .method(KeyMethod::new(MethodType::MacServerClient, &["o3".to_string()]));
    let plan = algo_prefs(&params, opts.get_methods());
    let expected: Vec<(MethodType, String)> = vec![
        (MethodType::Kex, "k1,k2".to_string()),
        (MethodType::HostKey, "h1".to_string()),
        (MethodType::CryptClientServer, "c1,c2".to_string()),
        (MethodType::CryptServerClient, "c1,c2".to_string()),
        (MethodType::MacClientServer, "m1".to_string()),
        (MethodType::MacServerClient, "m1".to_string()),
        (MethodType::Kex, "o1,o2".to_string()),
        (MethodType::MacServerClient, "o3".to_string()),
    ];
    assert_eq!(plan, expected);
}

#[test]
fn no_preferences_without_config_or_methods() {
    let opts = SshOpts::new("host");
    assert!(algo_prefs(&HostParameters::default(), opts.get_methods()).is_empty());
}
