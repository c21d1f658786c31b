use winebasin::channel::{frame_statement, helper_command, Channel, ACK_FD};

#[test]
fn frame_holds_statement_and_marker() {
    assert_eq!(frame_statement(b"umount /m", 1), b"umount /m;\necho 1 >&3;\n".to_vec());
    assert_eq!(frame_statement(b"", 0), b";\necho 0 >&3;\n".to_vec());
    assert_eq!(frame_statement(b"true", 120), b"true;\necho 120 >&3;\n".to_vec());
}

#[test]
fn helper_is_an_elevated_shell_that_stops_on_failure() {
    assert_eq!(ACK_FD, 3);
    let want: Vec<Vec<u8>> = vec![
        b"sudo".to_vec(),
        b"--close-from".to_vec(),
        b"4".to_vec(),
        b"bash".to_vec(),
        b"-eu".to_vec(),
    ];
    assert_eq!(helper_command(), want);
}

#[test]
fn fresh_channel_is_open_with_nothing_in_flight() {
    let channel = Channel::new();
    assert!(channel.is_open());
    assert_eq!(channel.pending(), None);
    assert_eq!(channel.next_marker(), 0);
}

#[test]
fn statements_are_acknowledged_in_order() {
    let mut channel = Channel::new();
    for n in 0u64..5 {
        let text = channel.submit(b"true").expect("channel is ready");
        assert_eq!(text, format!("true;\necho {} >&3;\n", n).into_bytes());
        assert_eq!(channel.pending(), Some(n));
        assert_eq!(channel.next_marker(), n + 1);
        if n > 0 {
            assert!(!channel.observe((n - 1).to_string().as_bytes()));
        }
        assert!(!channel.observe((n + 1).to_string().as_bytes()));
        assert_eq!(channel.pending(), Some(n));
        assert!(channel.observe(n.to_string().as_bytes()));
        assert_eq!(channel.pending(), None);
    }
}

#[test]
fn one_statement_in_flight_at_most() {
    let mut channel = Channel::new();
    assert!(channel.submit(b"first").is_some());
    assert_eq!(channel.submit(b"second"), None);
    assert_eq!(channel.pending(), Some(0));
    assert_eq!(channel.next_marker(), 1);
    assert!(channel.observe(b"0"));
    assert_eq!(channel.submit(b"second"), Some(b"second;\necho 1 >&3;\n".to_vec()));
}

#[test]
fn only_the_exact_marker_acknowledges() {
    let mut channel = Channel::new();
    assert!(!channel.observe(b"0"));
    channel.submit(b"x");
    assert!(!channel.observe(b""));
    assert!(!channel.observe(b" 0"));
    assert!(!channel.observe(b"0 "));
    assert!(!channel.observe(b"00"));
    assert!(!channel.observe(b"1"));
    assert!(channel.observe(b"0"));
    assert!(!channel.observe(b"0"));
}

#[test]
fn closed_channel_takes_and_confirms_nothing() {
    let mut channel = Channel::new();
    channel.submit(b"x");
    channel.close();
    assert!(!channel.is_open());
    assert_eq!(channel.pending(), Some(0));
    assert!(!channel.observe(b"0"));
    assert_eq!(channel.submit(b"y"), None);
    let mut idle = Channel::new();
    idle.close();
    assert_eq!(idle.submit(b"y"), None);
    assert_eq!(idle.next_marker(), 0);
}
