use kino::recording::{next_session_file_step, CreateOutcome, SessionFileStep};
use kino::recording::{
    build_cast_metadata, cast_header, classify_pty_read, command_input_text, exit_code_or_failure,
    is_expected_pty_shutdown_error, pty_exit_code, recorded_command, resize_event_data,
    session_file_name, session_verdict, tty_dimensions_or_default, CastAction, CastEvent,
    CastMetadata, CastStream, ErrorSlot, EventKind, IoErrorKind, ReadStep, SessionVerdict,
};

fn event(elapsed_ms: u64, kind: EventKind, data: &str) -> CastAction {
    CastAction::Write(CastEvent { elapsed_ms, kind, data: data.to_owned() })
}

#[test]
fn cast_writer_persists_header_and_events() {
    let start_ts_unix_ms = 1_700_000_000_000;
    let metadata = CastMetadata {
        command: Some("/bin/sh".to_owned()),
        env: vec![
            ("SHELL".to_owned(), "/bin/sh".to_owned()),
            ("TERM".to_owned(), "xterm-256color".to_owned()),
        ],
    };
    let header = cast_header(start_ts_unix_ms, 120, 40, metadata);
    assert_eq!(header.version, 2);
    assert_eq!(header.width, 120);
    assert_eq!(header.height, 40);
    assert_eq!(header.timestamp, 1_700_000_000_u64);
    assert_eq!(header.command.as_deref(), Some("/bin/sh"));
    assert_eq!(header.env[0], ("SHELL".to_owned(), "/bin/sh".to_owned()));
    assert_eq!(header.env[1], ("TERM".to_owned(), "xterm-256color".to_owned()));

    let mut stream = CastStream::new(start_ts_unix_ms);
    let input = stream.write_input_bytes(start_ts_unix_ms, b"echo hello\n");
    assert_eq!(input, vec![event(0, EventKind::Input, "echo hello\n")]);
    let output = stream.write_output_bytes(start_ts_unix_ms + 500, b"hello\n");
    assert_eq!(output, vec![event(500, EventKind::Output, "hello\n"), CastAction::SyncData]);
    let resize = stream.write_resize(start_ts_unix_ms + 900, 100, 30);
    assert_eq!(resize, vec![event(900, EventKind::Resize, "100x30"), CastAction::SyncData]);
    let finish = stream.finish(start_ts_unix_ms + 900);
    assert_eq!(finish, vec![CastAction::SyncAll]);
    assert_eq!(EventKind::Input.code(), "i");
    assert_eq!(EventKind::Output.code(), "o");
    assert_eq!(EventKind::Resize.code(), "r");
}

#[test]
fn split_characters_wait_for_their_remaining_bytes() {
    let mut stream = CastStream::new(0);
    let euro = "€".as_bytes();
    let first = stream.write_output_bytes(10, &euro[..2]);
    assert!(first.is_empty());
    assert_eq!(stream.pending_output_bytes, euro[..2].to_vec());
    let second = stream.write_output_bytes(20, &[euro[2], b'!']);
    assert_eq!(second, vec![event(20, EventKind::Output, "€!")]);
    assert!(stream.pending_output_bytes.is_empty());
}

#[test]
fn invalid_bytes_become_replacement_characters() {
    let mut stream = CastStream::new(0);
    let actions = stream.write_output_bytes(100, &[b'a', 0xff, b'b']);
    assert_eq!(
        actions,
        vec![
            event(100, EventKind::Output, "a"),
            event(100, EventKind::Output, "\u{FFFD}"),
            event(100, EventKind::Output, "b"),
        ]
    );
}

#[test]
fn finish_flushes_unfinished_characters_lossily() {
    let mut stream = CastStream::new(0);
    let euro = "€".as_bytes();
    assert!(stream.write_input_bytes(300, &euro[..1]).is_empty());
    let actions = stream.finish(300);
    assert_eq!(
        actions,
        vec![event(300, EventKind::Input, "\u{FFFD}"), CastAction::SyncData, CastAction::SyncAll]
    );
    assert!(stream.pending_input_bytes.is_empty());
}

#[test]
fn flushes_at_most_once_per_interval() {
    let mut stream = CastStream::new(1000);
    assert_eq!(stream.write_output_bytes(1100, b"a"), vec![event(100, EventKind::Output, "a")]);
    assert_eq!(
        stream.write_output_bytes(1250, b"b"),
        vec![event(250, EventKind::Output, "b"), CastAction::SyncData]
    );
    assert_eq!(stream.last_sync_ts_unix_ms, 1250);
    assert_eq!(stream.write_output_bytes(1400, b"c"), vec![event(400, EventKind::Output, "c")]);
    assert_eq!(stream.write_output_bytes(10, b"d"), vec![event(0, EventKind::Output, "d")]);
}

#[test]
fn metadata_keeps_shell_and_nonempty_term() {
    let with_term = build_cast_metadata("/bin/bash", Some("ls".to_owned()), Some("xterm".to_owned()));
    assert_eq!(with_term.command.as_deref(), Some("ls"));
    assert_eq!(
        with_term.env,
        vec![
            ("SHELL".to_owned(), "/bin/bash".to_owned()),
            ("TERM".to_owned(), "xterm".to_owned())
        ]
    );
    let empty_term = build_cast_metadata("/bin/bash", None, Some(String::new()));
    assert_eq!(empty_term.env, vec![("SHELL".to_owned(), "/bin/bash".to_owned())]);
    let no_term = build_cast_metadata("/bin/bash", None, None);
    assert_eq!(no_term.env.len(), 1);
}

#[test]
fn command_recording_inputs() {
    assert_eq!(recorded_command(""), None);
    assert_eq!(recorded_command("ls -l").as_deref(), Some("ls -l"));
    assert_eq!(command_input_text(""), None);
    assert_eq!(command_input_text("ls").as_deref(), Some("ls\n"));
    assert_eq!(exit_code_or_failure(Some(3)), 3);
    assert_eq!(exit_code_or_failure(None), 1);
    assert_eq!(pty_exit_code(0), 0);
    assert_eq!(pty_exit_code(u32::MAX), 1);
    assert_eq!(tty_dimensions_or_default(None), (80, 24));
    assert_eq!(tty_dimensions_or_default(Some((132, 50))), (132, 50));
    assert_eq!(resize_event_data(80, 24), "80x24");
}

#[test]
fn session_file_names_count_attempts() {
    assert_eq!(session_file_name(1_700_000_000_000, 42, 0), "ssh-session-1700000000000-42.cast");
    assert_eq!(session_file_name(5, 7, 12), "ssh-session-5-7-12.cast");
}

#[test]
fn session_file_names_differ_between_attempts() {
    let names: Vec<String> = (0..50u32).map(|a| session_file_name(99, 3, a)).collect();
    for i in 0..names.len() {
        for j in (i + 1)..names.len() {
            assert_ne!(names[i], names[j]);
        }
    }
}

#[test]
fn shutdown_errors_are_recognised() {
    assert!(is_expected_pty_shutdown_error(IoErrorKind::BrokenPipe, None));
    assert!(is_expected_pty_shutdown_error(IoErrorKind::WouldBlock, None));
    assert!(is_expected_pty_shutdown_error(IoErrorKind::Other, Some(5)));
    assert!(is_expected_pty_shutdown_error(IoErrorKind::Other, Some(32)));
    assert!(!is_expected_pty_shutdown_error(IoErrorKind::Other, Some(2)));
    assert!(!is_expected_pty_shutdown_error(IoErrorKind::NotFound, None));
    assert_eq!(classify_pty_read(Ok(0)), ReadStep::Stop);
    assert_eq!(classify_pty_read(Ok(7)), ReadStep::Forward(7));
    assert_eq!(classify_pty_read(Err((IoErrorKind::Interrupted, None))), ReadStep::Retry);
    assert_eq!(classify_pty_read(Err((IoErrorKind::Other, Some(5)))), ReadStep::Stop);
    assert_eq!(classify_pty_read(Err((IoErrorKind::Other, None))), ReadStep::Fail);
}

#[test]
fn first_thread_error_wins() {
    let mut slot = ErrorSlot::new();
    slot.store_thread_error("first".to_owned());
    slot.store_thread_error("second".to_owned());
    assert_eq!(slot.take_thread_error().as_deref(), Some("first"));
    assert_eq!(slot.take_thread_error(), None);
}

#[test]
fn session_verdict_prefers_input_then_resize_errors() {
    assert_eq!(
        session_verdict(Some("in".to_owned()), Some("rs".to_owned()), true),
        SessionVerdict::InputFailed("in".to_owned())
    );
    assert_eq!(
        session_verdict(None, Some("rs".to_owned()), true),
        SessionVerdict::ResizeFailed("rs".to_owned())
    );
    assert_eq!(session_verdict(None, None, true), SessionVerdict::OutputFailed);
    assert_eq!(session_verdict(None, None, false), SessionVerdict::Finish);
}

#[test]
fn session_file_search_moves_on_only_past_taken_names() {
    assert_eq!(next_session_file_step(0, CreateOutcome::Created), SessionFileStep::Done);
    assert_eq!(next_session_file_step(0, CreateOutcome::AlreadyExists), SessionFileStep::TryAttempt(1));
    assert_eq!(next_session_file_step(998, CreateOutcome::AlreadyExists), SessionFileStep::TryAttempt(999));
    assert_eq!(next_session_file_step(999, CreateOutcome::AlreadyExists), SessionFileStep::GiveUp);
    assert_eq!(next_session_file_step(3, CreateOutcome::Failed), SessionFileStep::Fail);
}

#[test]
fn lossy_decoding_replaces_each_invalid_sequence_once() {
    assert_eq!(kino::recording::lossy_text(&[0x61, 0xE2, 0x82]), "a\u{FFFD}");
    assert_eq!(kino::recording::lossy_text(&[0xFF, 0xFE, 0x62]), "\u{FFFD}\u{FFFD}b");
    assert_eq!(kino::recording::lossy_text("é".as_bytes()), "é");
}
