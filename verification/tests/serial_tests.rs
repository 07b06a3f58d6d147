use falcon::serial::{
    command_line, eoc_detector, find_match, login_script, logout_script, strip_exec_output,
    Pattern, SerialCommander, State,
};

#[test]
fn echo_command_round_trip() {
    // A guest echoing the command, its output, and then the prompt-command
    // sentinel: the drained text stops before the sentinel, and stripping
    // removes the echoed command line and the trailing newline.
    let mut sc = SerialCommander::new(
        "[::1]:4000".to_string(),
        "9e5c27cb-86a1-4d6e-9ddc-1a8f0a0d60bc".to_string(),
        "violin".to_string(),
    );
    assert!(matches!(sc.state, State::Empty));
    let drained = sc
        .push_serial_data(&Pattern::Sentinel, "echo hello\r\nhello\r\n__FALCON_EXEC_FINISHED__\r\n")
        .expect("sentinel must terminate the drain");
    assert_eq!(drained, "echo hello\r\nhello\r\n");
    assert_eq!(strip_exec_output(&drained), "hello");
}

#[test]
fn sentinel_in_echo_does_not_terminate() {
    // Executing a command that itself prints the sentinel: its appearance
    // inside the echoed command line must not terminate the drain; the
    // match lands on the next line, where it stands at a line start.
    let stream = "echo __FALCON_EXEC_FINISHED__\r\n__FALCON_EXEC_FINISHED__\r\n";
    let hit = find_match(stream, &Pattern::Sentinel).expect("must match");
    assert_eq!(hit, 31);
    assert_eq!(&stream[..hit], "echo __FALCON_EXEC_FINISHED__\r\n");
}

#[test]
fn sentinel_mid_line_never_matches() {
    let stream = "echo __FALCON_EXEC_FINISHED__ and more";
    assert!(find_match(stream, &Pattern::Sentinel).is_none());
}

#[test]
fn sentinel_at_buffer_start_matches() {
    let stream = "__FALCON_EXEC_FINISHED__\r\n";
    assert_eq!(find_match(stream, &Pattern::Sentinel), Some(0));
}

#[test]
fn shell_prompt_pattern() {
    assert_eq!(find_match("root@violin:~# ", &Pattern::Shell), Some(0));
    assert_eq!(find_match("xx root@box# yy", &Pattern::Shell), Some(3));
    assert!(find_match("root@#", &Pattern::Shell).is_none());
    assert!(find_match("root@violin\n#", &Pattern::Shell).is_none());
    assert_eq!(find_match("Password:", &Pattern::PasswordOrShell), Some(0));
    assert_eq!(find_match("root@v#", &Pattern::PasswordOrShell), Some(0));
}

#[test]
fn echo_pattern_needs_newline() {
    let p = Pattern::Echo("stty raw".to_string());
    assert!(find_match("stty raw", &p).is_none());
    assert_eq!(find_match("stty raw\r\n", &p), Some(0));
    assert_eq!(find_match("junk stty raw more\n", &p), Some(5));
}

#[test]
fn partial_reads_accumulate() {
    // The login prompt arrives split across two reads.
    let mut sc = SerialCommander::new("[::1]:4000".to_string(), "id".to_string(), "v".to_string());
    let p = Pattern::Literal("login:".to_string());
    assert!(sc.push_serial_data(&p, "violin log").is_none());
    let out = sc.push_serial_data(&p, "in: ").expect("completed prompt must match");
    assert_eq!(out, "violin ");
}

#[test]
fn login_script_shape() {
    let s = login_script(true);
    assert_eq!(s.len(), 6);
    assert_eq!(s[0].0, "\r\r");
    assert!(matches!(&s[0].1, Pattern::Literal(t) if t == "login:"));
    assert_eq!(s[1].0, "root\r");
    assert!(matches!(s[1].1, Pattern::PasswordOrShell));
    assert_eq!(s[2].0, "\r");
    assert!(matches!(s[2].1, Pattern::Shell));
    assert_eq!(s[3].0, "export TERM=dumb\r");
    assert!(matches!(&s[3].1, Pattern::Echo(c) if c == "export TERM=dumb"));
    assert_eq!(s[4].0, "stty raw\r");
    assert_eq!(s[5].0, "PROMPT_COMMAND='echo __FALCON_EXEC_FINISHED__'\r");
    assert!(matches!(s[5].1, Pattern::Sentinel));
    let quiet = login_script(false);
    assert_eq!(quiet[0].0, "");
    let (bye, pat) = logout_script();
    assert_eq!(bye, "logout\r");
    assert!(matches!(&pat, Pattern::Literal(t) if t == "login:"));
}

#[test]
fn exec_line_framing() {
    assert_eq!(command_line("cat /opt/solo/some_data"), "cat /opt/solo/some_data\r");
    assert_eq!(eoc_detector(), "__FALCON_EXEC_FINISHED__");
}

#[test]
fn strip_output_cases() {
    assert_eq!(strip_exec_output(""), "");
    assert_eq!(strip_exec_output("echo hello"), "");
    assert_eq!(strip_exec_output("cmd\r\n"), "");
    assert_eq!(strip_exec_output("cmd\r\na\r\nb\r\n"), "a\nb");
    assert_eq!(strip_exec_output("cmd\na\nb"), "a\nb");
    assert_eq!(strip_exec_output("cat f\r\nsome data\r\n"), "some data");
}

#[test]
fn console_input_splits_at_quit_byte() {
    let plain: Vec<u8> = b"ls -l\r".to_vec();
    let (fwd, quit) = falcon::serial::console_input_split(&plain);
    assert_eq!(fwd, plain);
    assert!(!quit);
    let mixed: Vec<u8> = vec![b'l', b's', 0x11, b'x'];
    let (fwd, quit) = falcon::serial::console_input_split(&mixed);
    assert_eq!(fwd, vec![b'l', b's']);
    assert!(quit);
    let (fwd, quit) = falcon::serial::console_input_split(&vec![0x11]);
    assert!(fwd.is_empty());
    assert!(quit);
}

#[test]
fn discard_drops_accumulated_text() {
    // After a failed drain the driver discards partial data: the next
    // drain starts from an empty buffer.
    let mut sc = SerialCommander::new("[::1]:4000".to_string(), "id".to_string(), "v".to_string());
    let p = Pattern::Literal("login:".to_string());
    assert!(sc.push_serial_data(&p, "partial data ").is_none());
    sc.discard();
    let out = sc.push_serial_data(&p, "violin login: ").expect("prompt must match");
    assert_eq!(out, "violin ");
}
