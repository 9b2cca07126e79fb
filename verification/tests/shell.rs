use bash_agent::shell::{clean_output, strip_escape_sequences, Run};

#[test]
fn control_sequences_are_stripped() {
    assert_eq!(strip_escape_sequences(b"\x1b[31mred\x1b[0m"), b"red".to_vec());
    assert_eq!(strip_escape_sequences(b"a\x1b[1;32;4mb\x1b[Kc"), b"abc".to_vec());
    assert_eq!(strip_escape_sequences(b"\x1b[?2004h$ "), b"\x1b[?2004h$ ".to_vec());
    assert_eq!(strip_escape_sequences(b"\x1b[12"), b"\x1b[12".to_vec());
    assert_eq!(strip_escape_sequences(b"\x1b["), b"\x1b[".to_vec());
    assert_eq!(strip_escape_sequences(b"\x1b"), b"\x1b".to_vec());
    assert_eq!(strip_escape_sequences(b"\x1b\x1b[mx"), b"\x1bx".to_vec());
    assert_eq!(strip_escape_sequences(b"\x1b[[x"), b"x".to_vec());
    assert_eq!(strip_escape_sequences(b""), Vec::<u8>::new());
    assert_eq!(strip_escape_sequences(b"plain"), b"plain".to_vec());
}

#[test]
fn bytes_without_an_escape_byte_stay() {
    let bytes: Vec<u8> = (0u8..=255).filter(|byte| *byte != 0x1b).collect();
    assert_eq!(strip_escape_sequences(&bytes), bytes);
}

#[test]
fn output_is_decoded_after_stripping() {
    assert_eq!(clean_output(b"\x1b[1mhello\x1b[0m\r\n"), "hello\r\n");
    assert_eq!(clean_output("gr\u{fc}n".as_bytes()), "gr\u{fc}n");
    assert_eq!(clean_output(b"a\xffb"), "a\u{fffd}b");
}

#[test]
fn a_run_sends_the_lines_of_its_command_in_order() {
    let mut run = Run::new("cd /tmp\npwd");
    assert_eq!(run.next_line(), Some("cd /tmp".to_string()));
    run.receive(b"cd /tmp\r\n");
    assert_eq!(run.next_line(), Some("pwd".to_string()));
    run.receive(b"pwd\r\n/tmp\r\n");
    run.receive(b"\x1b[32m$\x1b[0m ");
    assert_eq!(run.next_line(), None);
    assert_eq!(run.next_line(), None);
    let output = run.finish();
    assert_eq!(output, "cd /tmp\r\npwd\r\n/tmp\r\n$ ");
    assert!(output.contains("/tmp"));
}

#[test]
fn a_run_of_echo_gives_its_word_back() {
    let mut run = Run::new("echo hello");
    assert_eq!(run.next_line(), Some("echo hello".to_string()));
    run.receive(b"echo hello\r\nhello\r\n");
    assert_eq!(run.next_line(), None);
    assert!(run.finish().contains("hello"));
}

#[test]
fn a_run_of_an_empty_command_sends_one_empty_line() {
    let mut run = Run::new("");
    assert_eq!(run.next_line(), Some(String::new()));
    assert_eq!(run.next_line(), None);
    assert_eq!(run.finish(), "");
}
