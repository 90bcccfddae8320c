use trellico::provider::Provider;

#[test]
fn test_default_provider() {
    assert_eq!(Provider::default(), Provider::Pilot);
}

#[test]
fn test_build_args_pilot_new_session() {
    let args = Provider::Pilot.build_args("test message", None);
    assert!(args.contains(&"-p".to_string()));
    assert!(args.contains(&"--output-format".to_string()));
    assert!(args.contains(&"stream-json".to_string()));
    assert!(args.contains(&"--verbose".to_string()));
    assert!(args.contains(&"--dangerously-skip-permissions".to_string()));
    assert!(args.contains(&"test message".to_string()));
    assert!(!args.contains(&"--resume".to_string()));
}

#[test]
fn test_build_args_pilot_resume() {
    let args = Provider::Pilot.build_args("test message", Some("session-123"));
    assert!(args.contains(&"--resume".to_string()));
    assert!(args.contains(&"session-123".to_string()));
}

#[test]
fn test_build_args_amp_new_session() {
    let args = Provider::Amp.build_args("test message", None);
    assert!(args.contains(&"-x".to_string()));
    assert!(args.contains(&"test message".to_string()));
    assert!(args.contains(&"--stream-json".to_string()));
    assert!(args.contains(&"--dangerously-allow-all".to_string()));
    assert!(!args.contains(&"threads".to_string()));
}

#[test]
fn test_build_args_amp_resume() {
    let args = Provider::Amp.build_args("test message", Some("thread-123"));
    assert!(args.contains(&"threads".to_string()));
    assert!(args.contains(&"continue".to_string()));
    assert!(args.contains(&"thread-123".to_string()));
    assert!(args.contains(&"-x".to_string()));
    assert!(args.contains(&"test message".to_string()));
}

#[test]
fn test_build_args_pilot_order() {
    let args = Provider::Pilot.build_args("hello", Some("s1"));
    let expected = vec![
        "-p",
        "--output-format",
        "stream-json",
        "--verbose",
        "--dangerously-skip-permissions",
        "--resume",
        "s1",
        "hello",
    ];
    assert_eq!(args, expected);
}

#[test]
fn test_build_args_amp_order() {
    let args = Provider::Amp.build_args("hello", Some("t1"));
    let expected = vec![
        "threads",
        "continue",
        "t1",
        "-x",
        "hello",
        "--stream-json",
        "--dangerously-allow-all",
    ];
    assert_eq!(args, expected);
}

#[test]
fn test_provider_names_and_urls() {
    assert_eq!(Provider::Pilot.binary_name(), "pilot");
    assert_eq!(Provider::Amp.binary_name(), "amp");
    assert_eq!(Provider::Pilot.display_name(), "Pilot");
    assert_eq!(Provider::Amp.display_name(), "Amp");
    assert_eq!(
        Provider::Pilot.install_url(),
        "https://pilot.dev"
    );
    assert_eq!(Provider::Amp.install_url(), "https://ampcode.com");
}

#[test]
fn test_not_installed_message() {
    assert_eq!(
        Provider::Amp.not_installed_message(),
        "Amp is not installed. Please install it from https://ampcode.com"
    );
    assert_eq!(
        Provider::Pilot.not_installed_message(),
        "Pilot is not installed. Please install it from https://pilot.dev"
    );
}

#[test]
fn test_binary_candidates() {
    let c = Provider::Pilot.binary_candidates("/home/u");
    assert_eq!(
        c,
        vec![
            "/home/u/.local/bin/pilot",
            "/usr/local/bin/pilot",
            "/opt/homebrew/bin/pilot",
            "/usr/bin/pilot",
        ]
    );
    let a = Provider::Amp.binary_candidates("/home/u");
    assert_eq!(
        a,
        vec![
            "/home/u/.amp/bin/amp",
            "/home/u/.local/bin/amp",
            "/usr/local/bin/amp",
            "/opt/homebrew/bin/amp",
            "/usr/bin/amp",
        ]
    );
}

#[test]
fn test_auth_config_paths() {
    let c = Provider::Pilot.auth_config_paths("/home/u");
    assert_eq!(
        c,
        vec!["/home/u/.pilot/.credentials.json", "/home/u/.pilot.json"]
    );
    let a = Provider::Amp.auth_config_paths("/home/u");
    assert_eq!(a, vec!["/home/u/.config/amp/settings.json"]);
}

#[test]
fn test_check_authenticated() {
    assert!(Provider::Amp.check_authenticated(true).is_ok());
    let e = Provider::Amp.check_authenticated(false).unwrap_err();
    assert_eq!(e, "Amp is not logged in. Please run 'amp login' to authenticate.");
}

#[test]
fn test_is_auth_error_case_folded() {
    // Uppercase input only matches through real case folding.
    assert!(Provider::Pilot.is_auth_error("UNAUTHORIZED access"));
    assert!(Provider::Amp.is_auth_error("Not Logged In"));
    assert!(!Provider::Pilot.is_auth_error("everything fine"));
}

#[test]
fn test_is_auth_error_provider_specific() {
    // Substring search in the middle of the text, per provider.
    assert!(Provider::Pilot.is_auth_error("xx please run 'pilot' yy"));
    assert!(!Provider::Amp.is_auth_error("xx please run 'pilot' yy"));
    assert!(Provider::Amp.is_auth_error("try amp login first"));
    assert!(!Provider::Pilot.is_auth_error("try amp login first"));
    assert!(Provider::Amp.is_auth_error("Please Login again"));
}
