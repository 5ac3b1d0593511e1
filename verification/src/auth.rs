//! Checking that saved YouTube cookies work: the yt-dlp probe of a playlist
//! that every account has, the reading of what it printed, and the choice
//! between a second probe and a verdict.
use vstd::prelude::*;
use crate::text::{
    contains, contains_text, first_line_or, first_line_or_default, lowercase, push_text,
};
use crate::ytdlp::{append_auth_args, auth_args, push_arg};

verus! {

/// What one probe showed.
#[derive(Clone, Debug)]
pub enum AuthResult {
    /// The cookies work; a message for the user.
    Valid(String),
    /// The cookies were refused or could not be read; the reason.
    AuthError(String),
    /// yt-dlp failed for some other reason; its first error line.
    OtherError(String),
}

/// The three kinds of probe result, without their messages.
#[derive(Clone, Copy, Debug, PartialEq, Eq)]
pub enum AuthVerdict {
    Accepted,
    Rejected,
    Inconclusive,
}

impl AuthResult {
    /// The kind of a result.
    pub open spec fn verdict(self) -> AuthVerdict {
        match self {
            AuthResult::Valid(_) => AuthVerdict::Accepted,
            AuthResult::AuthError(_) => AuthVerdict::Rejected,
            AuthResult::OtherError(_) => AuthVerdict::Inconclusive,
        }
    }

    /// The message of a result.
    pub open spec fn message(self) -> Seq<char> {
        match self {
            AuthResult::Valid(m) => m@,
            AuthResult::AuthError(m) => m@,
            AuthResult::OtherError(m) => m@,
        }
    }
}

// ── The probe ─────────────────────────────────────────────────────────────

/// The yt-dlp command line of a probe: read one item of the playlist at
/// `url` as JSON, without warnings, carrying on past errors, with the login.
pub open spec fn probe_argv(
    url: Seq<char>,
    mode: Seq<char>,
    browser: Seq<char>,
    cookies_file: Seq<char>,
) -> Seq<Seq<char>> {
    seq![
        "--flat-playlist"@,
        "--dump-single-json"@,
        "--playlist-items"@,
        "1"@,
        "--no-warnings"@,
        "--ignore-errors"@,
    ] + auth_args(mode, browser, cookies_file) + seq![url]
}

/// The yt-dlp command line of a probe.
pub fn auth_probe_args(url: &str, mode: &str, browser: &str, cookies_file: &str) -> (r: Vec<
    String,
>)
    ensures
        r.deep_view() == probe_argv(url@, mode@, browser@, cookies_file@),
{
    let mut args: Vec<String> = Vec::new();
    push_arg(&mut args, "--flat-playlist");
    push_arg(&mut args, "--dump-single-json");
    push_arg(&mut args, "--playlist-items");
    push_arg(&mut args, "1");
    push_arg(&mut args, "--no-warnings");
    push_arg(&mut args, "--ignore-errors");
    append_auth_args(&mut args, mode, browser, cookies_file);
    push_arg(&mut args, url);
    proof {
        assert(args.deep_view() =~= probe_argv(url@, mode@, browser@, cookies_file@));
    }
    args
}

/// The output shows that the browser's cookie store could not be decrypted
/// (Windows DPAPI / App-Bound Encryption), which is no login failure.
pub open spec fn decryption_failed(combined: Seq<char>) -> bool {
    contains(combined, "failed to decrypt"@) || contains(combined, "dpapi"@) || contains(
        combined,
        "app-bound"@,
    ) || contains(combined, "ciphertext"@)
}

/// The output shows that YouTube refused the login.
pub open spec fn login_refused(combined: Seq<char>) -> bool {
    contains(combined, "sign in to confirm"@) || contains(combined, "login required"@)
        || contains(combined, "this playlist is private"@) || contains(
        combined,
        "not authenticated"@,
    ) || contains(combined, "could not get cookies"@)
}

/// The output hints that the browser holds its cookie database locked.
pub open spec fn store_locked(combined: Seq<char>) -> bool {
    contains(combined, "database"@) || contains(combined, "sqlite"@) || contains(
        combined,
        "lock"@,
    ) || contains(combined, "unable to open"@)
}

/// What a probe's output (its standard output and error, and its exit code)
/// shows about the cookies of `browser`, given `combined`, the lowercased
/// text of both outputs together: the kind of result and its message.
pub open spec fn probe_verdict_with(
    combined: Seq<char>,
    stdout: Seq<char>,
    stderr: Seq<char>,
    code: int,
    browser: Seq<char>,
) -> (AuthVerdict, Seq<char>) {
    if decryption_failed(combined) {
        (AuthVerdict::Rejected, "DPAPI:"@ + browser)
    } else if login_refused(combined) {
        (
            AuthVerdict::Rejected,
            "YouTube rejected the cookies from "@ + browser
                + ". Make sure you are logged into YouTube in "@ + browser + ".\n\nDetail: "@
                + first_line_or(stderr, Seq::empty()),
        )
    } else if code == 0 || contains(stdout, "\"id\""@) || contains(stdout, "\"entries\""@) {
        (
            AuthVerdict::Accepted,
            "✓ Auth OK - "@ + browser + " cookies loaded successfully"@ + (if code != 0 {
                " (playlist may be empty, but cookies loaded successfully)"@
            } else {
                Seq::empty()
            }),
        )
    } else {
        (
            AuthVerdict::Inconclusive,
            first_line_or(stderr, "unknown error"@) + (if store_locked(combined) {
                "\n\nHint: Close "@ + browser
                    + " completely and try again - the cookie database may be locked."@
            } else {
                Seq::empty()
            }),
        )
    }
}

/// What a probe's output shows about the cookies of `browser`.
pub open spec fn probe_verdict(stdout: Seq<char>, stderr: Seq<char>, code: int, browser: Seq<
    char,
>) -> (AuthVerdict, Seq<char>) {
    probe_verdict_with(lowercase(stdout + stderr), stdout, stderr, code, browser)
}

/// Reads a probe's output, given `lowered`, the lowercased text of its
/// standard output followed by its error output.
pub fn classify_lowered_output(
    lowered: &str,
    stdout: &str,
    stderr: &str,
    code: i32,
    browser: &str,
) -> (r: AuthResult)
    ensures
        (r.verdict(), r.message()) == probe_verdict_with(
            lowered@,
            stdout@,
            stderr@,
            code as int,
            browser@,
        ),
{
    let c = lowered;
    if contains_text(c, "failed to decrypt") || contains_text(c, "dpapi") || contains_text(
        c,
        "app-bound",
    ) || contains_text(c, "ciphertext") {
        let mut m = String::from_str("DPAPI:");
        push_text(&mut m, browser);
        return AuthResult::AuthError(m);
    }
    if contains_text(c, "sign in to confirm") || contains_text(c, "login required")
        || contains_text(c, "this playlist is private") || contains_text(c, "not authenticated")
        || contains_text(c, "could not get cookies") {
        let detail = first_line_or_default(stderr, "");
        let mut m = String::from_str("YouTube rejected the cookies from ");
        push_text(&mut m, browser);
        push_text(&mut m, ". Make sure you are logged into YouTube in ");
        push_text(&mut m, browser);
        push_text(&mut m, ".\n\nDetail: ");
        push_text(&mut m, detail.as_str());
        proof {
            reveal_strlit("");
            assert(""@ =~= Seq::<char>::empty());
        }
        return AuthResult::AuthError(m);
    }
    if code == 0 || contains_text(stdout, "\"id\"") || contains_text(stdout, "\"entries\"") {
        let mut m = String::from_str("✓ Auth OK - ");
        push_text(&mut m, browser);
        push_text(&mut m, " cookies loaded successfully");
        if code != 0 {
            push_text(&mut m, " (playlist may be empty, but cookies loaded successfully)");
        }
        proof {
            assert(m@ =~= probe_verdict_with(lowered@, stdout@, stderr@, code as int, browser@).1);
        }
        return AuthResult::Valid(m);
    }
    let mut m = first_line_or_default(stderr, "unknown error");
    if contains_text(c, "database") || contains_text(c, "sqlite") || contains_text(c, "lock")
        || contains_text(c, "unable to open") {
        push_text(&mut m, "\n\nHint: Close ");
        push_text(&mut m, browser);
        push_text(&mut m, " completely and try again - the cookie database may be locked.");
    }
    proof {
        assert(m@ =~= probe_verdict_with(lowered@, stdout@, stderr@, code as int, browser@).1);
    }
    AuthResult::OtherError(m)
}

/// Reads a probe's output.
pub fn classify_auth_output(stdout: &str, stderr: &str, code: i32, browser: &str) -> (r:
    AuthResult)
    ensures
        (r.verdict(), r.message()) == probe_verdict(stdout@, stderr@, code as int, browser@),
{
    let mut both = String::from_str(stdout);
    push_text(&mut both, stderr);
    let combined = both.as_str().to_lowercase();
    classify_lowered_output(combined.as_str(), stdout, stderr, code, browser)
}

/// Reads the outcome of running a probe: its output, or the error that kept
/// it from running (read as error output with exit code -1).
pub fn classify_auth_probe(run: Result<(String, String, i32), String>, browser: &str) -> (r:
    AuthResult)
    ensures
        (r.verdict(), r.message()) == (match run {
            Ok((o, e, code)) => probe_verdict(o@, e@, code as int, browser@),
            Err(e) => probe_verdict(Seq::empty(), e@, -1, browser@),
        }),
{
    match run {
        Ok((o, e, code)) => classify_auth_output(o.as_str(), e.as_str(), code, browser),
        Err(e) => {
            let empty = String::new();
            classify_auth_output(empty.as_str(), e.as_str(), -1, browser)
        },
    }
}

/// Signs of an unreadable cookie store win over every other sign: such
/// output is a refusal naming the browser, whatever the exit code.
pub proof fn lemma_decryption_failure_wins(
    stdout: Seq<char>,
    stderr: Seq<char>,
    code: int,
    browser: Seq<char>,
)
    requires
        decryption_failed(lowercase(stdout + stderr)),
    ensures
        probe_verdict(stdout, stderr, code, browser) == (AuthVerdict::Rejected, "DPAPI:"@
            + browser),
{
}

/// An output that names a refused login (it holds "sign in to confirm",
/// "login required", "this playlist is private", "not authenticated" or
/// "could not get cookies" once lowercased) and shows no unreadable cookie
/// store ("failed to decrypt", "dpapi", "app-bound" or "ciphertext") is a
/// refusal, whatever the exit code: it tells the user to log into YouTube
/// in the browser and gives the first non-blank line of the error output.
/// Signs of an unreadable store give the refusal `DPAPI:` and the browser.
pub proof fn lemma_refusal_phrases(
    lowered: Seq<char>,
    stdout: Seq<char>,
    stderr: Seq<char>,
    code: int,
    browser: Seq<char>,
)
    ensures
        (contains(lowered, "failed to decrypt"@) || contains(lowered, "dpapi"@) || contains(
            lowered,
            "app-bound"@,
        ) || contains(lowered, "ciphertext"@)) ==> probe_verdict_with(
            lowered,
            stdout,
            stderr,
            code,
            browser,
        ) == (AuthVerdict::Rejected, "DPAPI:"@ + browser),
        (!contains(lowered, "failed to decrypt"@) && !contains(lowered, "dpapi"@) && !contains(
            lowered,
            "app-bound"@,
        ) && !contains(lowered, "ciphertext"@) && (contains(lowered, "sign in to confirm"@)
            || contains(lowered, "login required"@) || contains(
            lowered,
            "this playlist is private"@,
        ) || contains(lowered, "not authenticated"@) || contains(
            lowered,
            "could not get cookies"@,
        ))) ==> probe_verdict_with(lowered, stdout, stderr, code, browser) == (
            AuthVerdict::Rejected,
            "YouTube rejected the cookies from "@ + browser
                + ". Make sure you are logged into YouTube in "@ + browser + ".\n\nDetail: "@
                + first_line_or(stderr, Seq::empty()),
        ),
{
}

/// An output with neither sign of refusal (no "failed to decrypt", "dpapi",
/// "app-bound", "ciphertext", "sign in to confirm", "login required", "this
/// playlist is private", "not authenticated" or "could not get cookies" in
/// the lowered text) is an accepted login when yt-dlp exited with 0 or its
/// standard output holds an `"id"` or `"entries"` key, the message noting
/// an empty playlist when the exit code was not 0. Otherwise it proves
/// nothing: the message is the first non-blank line of the error output
/// (or "unknown error"), with a hint to close the browser when the lowered
/// text mentions "database", "sqlite", "lock" or "unable to open".
pub proof fn lemma_probe_outcomes(
    lowered: Seq<char>,
    stdout: Seq<char>,
    stderr: Seq<char>,
    code: int,
    browser: Seq<char>,
)
    requires
        !contains(lowered, "failed to decrypt"@),
        !contains(lowered, "dpapi"@),
        !contains(lowered, "app-bound"@),
        !contains(lowered, "ciphertext"@),
        !contains(lowered, "sign in to confirm"@),
        !contains(lowered, "login required"@),
        !contains(lowered, "this playlist is private"@),
        !contains(lowered, "not authenticated"@),
        !contains(lowered, "could not get cookies"@),
    ensures
        code == 0 ==> probe_verdict_with(lowered, stdout, stderr, code, browser) == (
            AuthVerdict::Accepted,
            "✓ Auth OK - "@ + browser + " cookies loaded successfully"@,
        ),
        code != 0 && (contains(stdout, "\"id\""@) || contains(stdout, "\"entries\""@))
            ==> probe_verdict_with(lowered, stdout, stderr, code, browser) == (
            AuthVerdict::Accepted,
            "✓ Auth OK - "@ + browser + " cookies loaded successfully"@
                + " (playlist may be empty, but cookies loaded successfully)"@,
        ),
        code != 0 && !contains(stdout, "\"id\""@) && !contains(stdout, "\"entries\""@)
            ==> probe_verdict_with(lowered, stdout, stderr, code, browser) == (
            AuthVerdict::Inconclusive,
            first_line_or(stderr, "unknown error"@) + (if contains(lowered, "database"@)
                || contains(lowered, "sqlite"@) || contains(lowered, "lock"@) || contains(
                lowered,
                "unable to open"@,
            ) {
                "\n\nHint: Close "@ + browser
                    + " completely and try again - the cookie database may be locked."@
            } else {
                Seq::empty()
            }),
        ),
{
    assert(("✓ Auth OK - "@ + browser + " cookies loaded successfully"@ + Seq::<char>::empty())
        =~= "✓ Auth OK - "@ + browser + " cookies loaded successfully"@);
}

/// A clean exit with no sign of failure in the output is an accepted login.
pub proof fn lemma_clean_exit_accepted(stdout: Seq<char>, stderr: Seq<char>, browser: Seq<char>)
    requires
        !decryption_failed(lowercase(stdout + stderr)),
        !login_refused(lowercase(stdout + stderr)),
    ensures
        probe_verdict(stdout, stderr, 0, browser).0 == AuthVerdict::Accepted,
{
}

// ── Verification in up to two probes ─────────────────────────────────────

/// The playlists probed in turn: Liked Videos, then Watch Later (both exist
/// for every signed-in account).
#[derive(Clone, Copy, Debug, PartialEq, Eq)]
pub enum AuthAttempt {
    LikedVideos,
    WatchLater,
}

/// The URL probed at an attempt.
pub open spec fn attempt_url(a: AuthAttempt) -> Seq<char> {
    match a {
        AuthAttempt::LikedVideos => "https://www.youtube.com/playlist?list=LL"@,
        AuthAttempt::WatchLater => "https://www.youtube.com/playlist?list=WL"@,
    }
}

/// The URL probed at an attempt.
pub fn auth_probe_url(a: AuthAttempt) -> (r: String)
    ensures
        r@ == attempt_url(a),
{
    match a {
        AuthAttempt::LikedVideos => String::from_str("https://www.youtube.com/playlist?list=LL"),
        AuthAttempt::WatchLater => String::from_str("https://www.youtube.com/playlist?list=WL"),
    }
}

/// What follows a probe: another probe, or the answer to the user.
#[derive(Debug)]
pub enum VerifyStep {
    Probe(AuthAttempt),
    Done(Result<String, String>),
}

/// The answer when both probes were inconclusive: the cookies may be fine,
/// so the user is told what may have gone wrong, with the raw error.
pub open spec fn inconclusive_message(browser: Seq<char>, error: Seq<char>) -> Seq<char> {
    "Could not verify - cookies were read from "@ + browser
        + " but YouTube returned an error.\n\nThis can happen if:\n• The browser ("@ + browser
        + ") is open - try closing it and testing again\n• You are not logged into YouTube in "@
        + browser + "\n• Your account has no Liked Videos or Watch Later items\n\nRaw error: "@
        + error
}

/// The step after the probe of attempt `a` gave `r`.
pub open spec fn verify_step(a: AuthAttempt, r: AuthResult, browser: Seq<char>) -> VerifyStepView {
    match r {
        AuthResult::Valid(m) => VerifyStepView::Done(Ok(m@)),
        AuthResult::AuthError(e) => VerifyStepView::Done(Err(e@)),
        AuthResult::OtherError(e) => match a {
            AuthAttempt::LikedVideos => VerifyStepView::Probe(AuthAttempt::WatchLater),
            AuthAttempt::WatchLater => VerifyStepView::Done(Err(inconclusive_message(browser, e@))),
        },
    }
}

/// A step, with its texts as sequences of characters.
pub enum VerifyStepView {
    Probe(AuthAttempt),
    Done(Result<Seq<char>, Seq<char>>),
}

impl VerifyStep {
    pub open spec fn view_step(self) -> VerifyStepView {
        match self {
            VerifyStep::Probe(a) => VerifyStepView::Probe(a),
            VerifyStep::Done(Ok(m)) => VerifyStepView::Done(Ok(m@)),
            VerifyStep::Done(Err(e)) => VerifyStepView::Done(Err(e@)),
        }
    }
}

/// The attempt that verification starts with.
pub fn first_auth_attempt() -> (a: AuthAttempt)
    ensures
        a == AuthAttempt::LikedVideos,
{
    AuthAttempt::LikedVideos
}

/// Decides what follows the probe of attempt `a`.
pub fn next_verify_step(a: AuthAttempt, r: AuthResult, browser: &str) -> (s: VerifyStep)
    ensures
        s.view_step() == verify_step(a, r, browser@),
{
    match r {
        AuthResult::Valid(m) => VerifyStep::Done(Ok(m)),
        AuthResult::AuthError(e) => VerifyStep::Done(Err(e)),
        AuthResult::OtherError(e) => match a {
            AuthAttempt::LikedVideos => VerifyStep::Probe(AuthAttempt::WatchLater),
            AuthAttempt::WatchLater => {
                let mut m = String::from_str("Could not verify - cookies were read from ");
                push_text(&mut m, browser);
                push_text(
                    &mut m,
                    " but YouTube returned an error.\n\nThis can happen if:\n• The browser (",
                );
                push_text(&mut m, browser);
                push_text(
                    &mut m,
                    ") is open - try closing it and testing again\n• You are not logged into YouTube in ",
                );
                push_text(&mut m, browser);
                push_text(
                    &mut m,
                    "\n• Your account has no Liked Videos or Watch Later items\n\nRaw error: ",
                );
                push_text(&mut m, e.as_str());
                proof {
                    assert(m@ =~= inconclusive_message(browser@, e@));
                }
                VerifyStep::Done(Err(m))
            },
        },
    }
}

/// Verification ends by the second probe: after Watch Later there is always
/// an answer.
pub proof fn lemma_at_most_two_probes(r: AuthResult, browser: Seq<char>)
    ensures
        verify_step(AuthAttempt::WatchLater, r, browser) is Done,
{
}

/// A refused or accepted login is answered at once, never probed again.
pub proof fn lemma_decisive_results_end(a: AuthAttempt, r: AuthResult, browser: Seq<char>)
    requires
        r.verdict() != AuthVerdict::Inconclusive,
    ensures
        verify_step(a, r, browser) == (if r.verdict() == AuthVerdict::Accepted {
            VerifyStepView::Done(Ok(r.message()))
        } else {
            VerifyStepView::Done(Err(r.message()))
        }),
{
}

/// Only an inconclusive first probe leads to a second one, and the second
/// probe is of Watch Later.
pub proof fn lemma_retry_only_when_inconclusive(a: AuthAttempt, r: AuthResult, browser: Seq<char>)
    ensures
        verify_step(a, r, browser) is Probe <==> (a == AuthAttempt::LikedVideos && r.verdict()
            == AuthVerdict::Inconclusive),
        verify_step(a, r, browser) matches VerifyStepView::Probe(next) ==> next
            == AuthAttempt::WatchLater,
{
}

} // verus!
