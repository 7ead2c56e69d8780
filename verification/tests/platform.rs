use easy_command::structs::{parse_descriptor, parse_line, resolve_os, OsTarget};
use easy_command::Error;

#[test]
fn descriptor_yields_id_and_pretty_name() {
    let content = "ID=ubuntu\nPRETTY_NAME=\"Ubuntu 22.04\"\n";
    let (id, name) = parse_descriptor(content);
    assert_eq!(id, "ubuntu");
    assert_eq!(name, "Ubuntu 22.04");
}

#[test]
fn descriptor_without_keys_yields_defaults() {
    let content = "NAME=Something\nVERSION=1.0\n";
    let (id, name) = parse_descriptor(content);
    assert_eq!(id, "linux");
    assert_eq!(name, "Linux");
}

#[test]
fn descriptor_ignores_surrounding_whitespace() {
    let content = "  ID=debian  \nPRETTY_NAME=Debian\n";
    let (id, name) = parse_descriptor(content);
    assert_eq!(id, "debian");
    assert_eq!(name, "Debian");
}

#[test]
fn descriptor_keys_are_found_among_other_lines() {
    let content = "NAME=Ubuntu\nID=ubuntu\nVERSION=\"22.04\"\nPRETTY_NAME=\"Ubuntu 22.04\"\nHOME_URL=https://example.invalid/\n";
    let (id, name) = parse_descriptor(content);
    assert_eq!(id, "ubuntu");
    assert_eq!(name, "Ubuntu 22.04");
}

#[test]
fn descriptor_last_duplicate_key_wins() {
    let (id, name) = parse_descriptor("ID=first\nID=second\n");
    assert_eq!(id, "second");
    assert_eq!(name, "Linux");
}

#[test]
fn descriptor_accepts_carriage_returns() {
    let (id, name) = parse_descriptor("ID=ubuntu\r\nPRETTY_NAME=\"Ubuntu\"\r\n");
    assert_eq!(id, "ubuntu");
    assert_eq!(name, "Ubuntu");
}

#[test]
fn parse_line_splits_at_first_separator() {
    assert_eq!(
        parse_line("A=B=C".to_string()),
        Some(("A".to_string(), "B=C".to_string()))
    );
    assert_eq!(
        parse_line("KEY=VALUE".to_string()),
        Some(("KEY".to_string(), "VALUE".to_string()))
    );
    assert_eq!(parse_line("noseparator".to_string()), None);
}

#[test]
fn parse_line_unwraps_one_pair_of_quotes() {
    assert_eq!(
        parse_line("K=\"quoted\"".to_string()),
        Some(("K".to_string(), "quoted".to_string()))
    );
    assert_eq!(
        parse_line("K=\"\"".to_string()),
        Some(("K".to_string(), String::new()))
    );
    assert_eq!(
        parse_line("K=\"half".to_string()),
        Some(("K".to_string(), "half".to_string()))
    );
}

#[test]
fn resolve_os_maps_the_three_families() {
    assert!(matches!(resolve_os("windows", Ok("")), Ok(OsTarget::Windows)));
    assert!(matches!(resolve_os("macos", Ok("")), Ok(OsTarget::Mac)));
    match resolve_os("linux", Ok("ID=arch\n")) {
        Ok(OsTarget::Linux((id, name))) => {
            assert_eq!(id, "arch");
            assert_eq!(name, "Linux");
        }
        other => panic!("unexpected result: {:?}", other),
    }
}

#[test]
fn resolve_os_rejects_unknown_hosts() {
    assert!(matches!(
        resolve_os("plan9", Ok("")),
        Err(Error::UnsupportedSystem)
    ));
}

#[test]
fn resolve_os_surfaces_descriptor_read_failures() {
    match resolve_os("linux", Err("permission denied".to_string())) {
        Err(Error::IO(msg)) => assert_eq!(msg, "permission denied"),
        other => panic!("unexpected result: {:?}", other),
    }
}

#[test]
fn error_descriptions_name_the_kind() {
    assert_eq!(Error::UnsupportedSystem.description(), "unsupported system");
    assert_eq!(Error::IO(String::new()).description(), "io error");
    assert_eq!(
        Error::InvalidExpression(String::new()).description(),
        "invalid expression"
    );
    assert_eq!(Error::ExecFailed(String::new()).description(), "execution failed");
    assert_eq!(Error::General(String::new()).description(), "general error");
    assert_eq!(Error::Unknown.description(), "unknown error");
}

#[test]
fn error_messages_carry_the_detail() {
    assert_eq!(
        Error::UnsupportedSystem.message(),
        "System is not supported"
    );
    assert_eq!(
        Error::IO("denied".to_string()).message(),
        "IO error: denied"
    );
    assert_eq!(
        Error::ExecFailed("gone".to_string()).message(),
        "Execution failed: gone"
    );
    assert_eq!(
        Error::InvalidExpression("os ==".to_string()).message(),
        "Invalid expression: os =="
    );
    assert_eq!(
        Error::General("odd".to_string()).message(),
        "Error: odd"
    );
    assert_eq!(Error::Unknown.message(), "An unknown error occurred");
}
