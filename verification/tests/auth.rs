use opticalcortex::auth::{
    auth_probe_args, auth_probe_url, classify_auth_output, classify_auth_probe, classify_lowered_output,
    first_auth_attempt, next_verify_step, AuthAttempt, AuthResult, VerifyStep,
};

fn strings(v: &[&str]) -> Vec<String> {
    v.iter().map(|s| s.to_string()).collect()
}

fn message(r: &AuthResult) -> &str {
    match r {
        AuthResult::Valid(m) | AuthResult::AuthError(m) | AuthResult::OtherError(m) => m,
    }
}

#[test]
fn probe_command_line() {
    assert_eq!(
        auth_probe_args("https://www.youtube.com/playlist?list=LL", "browser", "edge", ""),
        strings(&[
            "--flat-playlist",
            "--dump-single-json",
            "--playlist-items",
            "1",
            "--no-warnings",
            "--ignore-errors",
            "--cookies-from-browser",
            "edge",
            "https://www.youtube.com/playlist?list=LL",
        ])
    );
}

#[test]
fn unreadable_cookie_store_is_reported_as_dpapi() {
    let r = classify_auth_output("{\"id\": \"LL\"}", "ERROR: Failed to decrypt with DPAPI", 0, "chrome");
    assert!(matches!(r, AuthResult::AuthError(_)));
    assert_eq!(message(&r), "DPAPI:chrome");
    let r = classify_auth_output("", "App-Bound encryption", 1, "edge");
    assert_eq!(message(&r), "DPAPI:edge");
}

#[test]
fn refused_login_names_the_first_error_line() {
    let r = classify_auth_output(
        "",
        "\n  \nERROR: [youtube] LL: Sign in to confirm you're not a bot\nmore\n",
        1,
        "firefox",
    );
    assert!(matches!(r, AuthResult::AuthError(_)));
    assert_eq!(
        message(&r),
        "YouTube rejected the cookies from firefox. Make sure you are logged into YouTube in firefox.\n\nDetail: ERROR: [youtube] LL: Sign in to confirm you're not a bot"
    );
    let r = classify_auth_output("This playlist is PRIVATE", "", 1, "b");
    assert_eq!(
        message(&r),
        "YouTube rejected the cookies from b. Make sure you are logged into YouTube in b.\n\nDetail: "
    );
}

#[test]
fn successful_probe_is_accepted() {
    let r = classify_auth_output("", "", 0, "firefox");
    assert!(matches!(r, AuthResult::Valid(_)));
    assert_eq!(message(&r), "✓ Auth OK - firefox cookies loaded successfully");
    let r = classify_auth_output("{\"entries\": []}", "warning", 1, "firefox");
    assert!(matches!(r, AuthResult::Valid(_)));
    assert_eq!(
        message(&r),
        "✓ Auth OK - firefox cookies loaded successfully (playlist may be empty, but cookies loaded successfully)"
    );
}

#[test]
fn other_failures_carry_their_error_and_hints() {
    let r = classify_auth_output("", "\r\nERROR: could not open the cookie DATABASE\r\n", 1, "firefox");
    assert!(matches!(r, AuthResult::OtherError(_)));
    assert_eq!(
        message(&r),
        "ERROR: could not open the cookie DATABASE\n\nHint: Close firefox completely and try again - the cookie database may be locked."
    );
    let r = classify_auth_output("", "", 2, "firefox");
    assert_eq!(message(&r), "unknown error");
}

#[test]
fn probe_that_could_not_run_is_read_as_error_output() {
    let r = classify_auth_probe(Err("Failed to spawn `yt-dlp`: not found".to_string()), "x");
    assert!(matches!(r, AuthResult::OtherError(_)));
    assert_eq!(message(&r), "Failed to spawn `yt-dlp`: not found");
    let r = classify_auth_probe(Ok((String::new(), String::new(), 0)), "x");
    assert!(matches!(r, AuthResult::Valid(_)));
}

#[test]
fn verification_probes_liked_videos_then_watch_later() {
    let first = first_auth_attempt();
    assert_eq!(first, AuthAttempt::LikedVideos);
    assert_eq!(auth_probe_url(first), "https://www.youtube.com/playlist?list=LL");
    assert_eq!(
        auth_probe_url(AuthAttempt::WatchLater),
        "https://www.youtube.com/playlist?list=WL"
    );
    match next_verify_step(first, AuthResult::OtherError("e1".to_string()), "firefox") {
        VerifyStep::Probe(AuthAttempt::WatchLater) => {}
        other => panic!("unexpected step {other:?}"),
    }
}

#[test]
fn decisive_results_end_verification_at_once() {
    match next_verify_step(AuthAttempt::LikedVideos, AuthResult::Valid("ok".to_string()), "b") {
        VerifyStep::Done(Ok(m)) => assert_eq!(m, "ok"),
        other => panic!("unexpected step {other:?}"),
    }
    match next_verify_step(AuthAttempt::LikedVideos, AuthResult::AuthError("no".to_string()), "b") {
        VerifyStep::Done(Err(m)) => assert_eq!(m, "no"),
        other => panic!("unexpected step {other:?}"),
    }
    match next_verify_step(AuthAttempt::WatchLater, AuthResult::Valid("ok2".to_string()), "b") {
        VerifyStep::Done(Ok(m)) => assert_eq!(m, "ok2"),
        other => panic!("unexpected step {other:?}"),
    }
}

#[test]
fn two_inconclusive_probes_give_the_user_hints() {
    match next_verify_step(AuthAttempt::WatchLater, AuthResult::OtherError("boom".to_string()), "brave") {
        VerifyStep::Done(Err(m)) => assert_eq!(
            m,
            "Could not verify - cookies were read from brave but YouTube returned an error.\n\n\
             This can happen if:\n\
             • The browser (brave) is open - try closing it and testing again\n\
             • You are not logged into YouTube in brave\n\
             • Your account has no Liked Videos or Watch Later items\n\n\
             Raw error: boom"
        ),
        other => panic!("unexpected step {other:?}"),
    }
}

#[test]
fn lowered_output_decides_the_signs() {
    // The signs are read in the lowered text alone; messages take the raw text.
    let r = classify_lowered_output("error: dpapi failure", "", "ERROR: DPAPI failure", 1, "chrome");
    assert!(matches!(r, AuthResult::AuthError(_)));
    assert_eq!(message(&r), "DPAPI:chrome");
    let r = classify_lowered_output("", "", "ERROR: DPAPI failure", 1, "chrome");
    assert!(matches!(r, AuthResult::OtherError(_)));
    assert_eq!(message(&r), "ERROR: DPAPI failure");
    let r = classify_lowered_output("login required", "", "Login Required\nmore", 1, "b");
    assert_eq!(
        message(&r),
        "YouTube rejected the cookies from b. Make sure you are logged into YouTube in b.\n\nDetail: Login Required"
    );
}
