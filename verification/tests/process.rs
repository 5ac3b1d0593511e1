use opticalcortex::process::{
    exit_code_debug, output_text, progress_hint, stream_step, OutputCapture, ProcessEvent,
    RunStep, StreamStep,
};

#[test]
fn capture_collects_both_streams_in_order() {
    let mut c = OutputCapture::new();
    assert_eq!(c.code, -1);
    assert!(matches!(c.record(ProcessEvent::Stdout(b"ab".to_vec())), RunStep::Continue));
    assert!(matches!(c.record(ProcessEvent::Stderr(b"E1".to_vec())), RunStep::Continue));
    assert!(matches!(c.record(ProcessEvent::Other), RunStep::Continue));
    assert!(matches!(c.record(ProcessEvent::Stdout(b"cd".to_vec())), RunStep::Continue));
    assert!(matches!(c.record(ProcessEvent::Terminated(Some(3))), RunStep::Finished));
    assert_eq!(c.stdout, b"abcd".to_vec());
    assert_eq!(c.stderr, b"E1".to_vec());
    assert_eq!(c.into_texts(), ("abcd".to_string(), "E1".to_string(), 3));
}

#[test]
fn exit_without_code_is_recorded_as_minus_one() {
    let mut c = OutputCapture::new();
    c.code = 7;
    assert!(matches!(c.record(ProcessEvent::Terminated(None)), RunStep::Finished));
    assert_eq!(c.code, -1);
}

#[test]
fn runner_errors_end_the_capture_as_error_output() {
    let mut c = OutputCapture::new();
    c.record(ProcessEvent::Stdout(b"partial".to_vec()));
    c.record(ProcessEvent::Stderr(b"warn\n".to_vec()));
    c.code = 0;
    assert!(matches!(c.record(ProcessEvent::Error("pipe closed".to_string())), RunStep::Finished));
    assert_eq!(
        c.into_texts(),
        ("partial".to_string(), "warn\nProcess error: pipe closed".to_string(), -1)
    );
}

#[test]
fn checked_capture_fails_on_runner_error() {
    let mut c = OutputCapture::new();
    match c.record_checked(ProcessEvent::Error("gone".to_string()), "yt-dlp") {
        RunStep::Failed(m) => assert_eq!(m, "Process error: gone"),
        _ => panic!("expected a failure"),
    }
    assert!(c.stderr.is_empty());
}

#[test]
fn checked_capture_fails_on_nonzero_exit_with_stderr() {
    let mut c = OutputCapture::new();
    c.record_checked(ProcessEvent::Stderr(b"ERROR: no such playlist\n".to_vec()), "yt-dlp");
    match c.record_checked(ProcessEvent::Terminated(Some(1)), "yt-dlp") {
        RunStep::Failed(m) => assert_eq!(m, "`yt-dlp` exited with code Some(1)\nERROR: no such playlist\n"),
        _ => panic!("expected a failure"),
    }
    let mut c = OutputCapture::new();
    match c.record_checked(ProcessEvent::Terminated(None), "ffmpeg") {
        RunStep::Failed(m) => assert_eq!(m, "`ffmpeg` exited with code None\n"),
        _ => panic!("expected a failure"),
    }
    let mut c = OutputCapture::new();
    c.record_checked(ProcessEvent::Stdout(b"{}".to_vec()), "yt-dlp");
    assert!(matches!(c.record_checked(ProcessEvent::Terminated(Some(0)), "yt-dlp"), RunStep::Finished));
    assert_eq!(c.into_stdout_text(), Ok("{}".to_string()));
}

#[test]
fn stdout_must_be_utf8() {
    let mut c = OutputCapture::new();
    c.record(ProcessEvent::Stdout(vec![b'a', 0xff, b'b']));
    let r = c.into_stdout_text();
    assert_eq!(
        r,
        Err("UTF-8 decode error: invalid utf-8 sequence of 1 bytes from index 1".to_string())
    );
}

#[test]
fn output_is_decoded_leniently() {
    assert_eq!(output_text(&vec![b'a', 0xff, b'b']), "a\u{FFFD}b");
    assert_eq!(output_text(&"héllo".as_bytes().to_vec()), "héllo");
}

#[test]
fn exit_codes_are_written_as_debug() {
    assert_eq!(exit_code_debug(Some(0)), "Some(0)");
    assert_eq!(exit_code_debug(Some(-1)), "Some(-1)");
    assert_eq!(exit_code_debug(Some(i32::MIN)), "Some(-2147483648)");
    assert_eq!(exit_code_debug(Some(255)), "Some(255)");
    assert_eq!(exit_code_debug(None), "None");
}

#[test]
fn streaming_shows_lines_and_judges_the_exit() {
    match stream_step(&ProcessEvent::Stderr(b"[download]  5.0%".to_vec()), "yt-dlp") {
        StreamStep::Show(t) => assert_eq!(t, "[download]  5.0%"),
        _ => panic!("expected a line"),
    }
    assert!(matches!(stream_step(&ProcessEvent::Terminated(Some(0)), "yt-dlp"), StreamStep::Finished));
    assert!(matches!(stream_step(&ProcessEvent::Other, "yt-dlp"), StreamStep::Continue));
    match stream_step(&ProcessEvent::Terminated(Some(2)), "ffmpeg") {
        StreamStep::Failed(m) => assert_eq!(m, "`ffmpeg` exited with code Some(2)"),
        _ => panic!("expected a failure"),
    }
    match stream_step(&ProcessEvent::Error("gone".to_string()), "ffmpeg") {
        StreamStep::Failed(m) => assert_eq!(m, "Process error: gone"),
        _ => panic!("expected a failure"),
    }
}

#[test]
fn progress_words_are_found_before_the_percent_sign() {
    let h = progress_hint("[download]  42.3% of 10.00MiB at 1.00MiB/s");
    assert_eq!(h.percent_word, Some("42.3".to_string()));
    assert!(!h.has_time);
    let h = progress_hint("[download]\t100% of 3MiB");
    assert_eq!(h.percent_word, Some("100".to_string()));
    let h = progress_hint("42%");
    assert_eq!(h.percent_word, None);
    let h = progress_hint("frame=  10 fps=0.0 q=-1.0 size=N/A time=00:00:01.00 bitrate=N/A");
    assert_eq!(h.percent_word, None);
    assert!(h.has_time);
    let h = progress_hint("ratio 5 %");
    assert_eq!(h.percent_word, Some(String::new()));
    let h = progress_hint("");
    assert_eq!(h.percent_word, None);
    assert!(!h.has_time);
}
