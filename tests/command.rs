use remotefs::RemoteErrorType;
use remotefs_ssh::{command_at, exit_code_command, parse_exit_code};

#[test]
fn exit_code_of_output_with_lines() {
    assert_eq!(parse_exit_code("/tmp\n0").ok().unwrap(), (0, "/tmp\n".to_string()));
    assert_eq!(parse_exit_code("/tmp\n0\n").ok().unwrap(), (0, "/tmp\n".to_string()));
    assert_eq!(
        parse_exit_code("a\nb\n2\n").ok().unwrap(),
        (2, "a\nb\n".to_string())
    );
}

#[test]
fn exit_code_of_missing_command() {
    let output = "sh: 1: pippopluto: not found\n127\n";
    assert_eq!(parse_exit_code(output).ok().unwrap().0, 127);
    assert_eq!(parse_exit_code("127\n").ok().unwrap(), (127, String::new()));
}

#[test]
fn exit_code_without_newline() {
    assert_eq!(parse_exit_code("0").ok().unwrap(), (0, String::new()));
    assert_eq!(parse_exit_code("  42  ").ok().unwrap(), (42, String::new()));
    assert_eq!(parse_exit_code("+7").ok().unwrap(), (7, String::new()));
}

#[test]
fn exit_code_with_leading_blank() {
    assert_eq!(parse_exit_code("\n0").ok().unwrap(), (0, "\n".to_string()));
    assert_eq!(parse_exit_code("\n0\n").ok().unwrap(), (0, "\n".to_string()));
    assert_eq!(parse_exit_code("  x\n1").ok().unwrap(), (1, "  x\n".to_string()));
}

#[test]
fn exit_code_that_is_not_a_number() {
    for output in ["", "\n", "abc", "/tmp\nabc", "-1", "4294967296", "1 2"] {
        let err = parse_exit_code(output).err().unwrap();
        assert_eq!(err.kind, RemoteErrorType::ProtocolError);
    }
    assert_eq!(parse_exit_code("4294967295").ok().unwrap().0, u32::MAX);
}

#[test]
fn command_lines() {
    assert_eq!(exit_code_command("pwd"), "pwd; echo $?");
    assert_eq!(command_at("/tmp", "pwd"), "cd \"/tmp\"; pwd");
    assert_eq!(
        exit_code_command(&command_at("/tmp", "pippopluto")),
        "cd \"/tmp\"; pippopluto; echo $?"
    );
}
