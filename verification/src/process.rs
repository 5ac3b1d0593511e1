//! Following a child process (yt-dlp or ffmpeg) through the events its
//! runner reports: collecting its output, deciding when it has finished or
//! failed, and reading progress from its lines.
use vstd::prelude::*;
use vstd::utf8::{decode_utf8, encode_utf8, valid_utf8};
use crate::text::{
    chars_of, contains, contains_text, find_char, find_char_in, int_decimal, lemma_find_char,
    push_int, push_text, string_of_range, trim, trim_range,
};

verus! {

// ── Decoding output ───────────────────────────────────────────────────────

/// The text that `String::from_utf8_lossy` makes of some bytes: their UTF-8
/// decoding, with U+FFFD in place of each invalid sequence.
pub uninterp spec fn lossy_utf8(bytes: Seq<u8>) -> Seq<char>;

/// Decodes bytes as UTF-8 by `String::from_utf8_lossy`; valid UTF-8 is
/// decoded unchanged.
#[verifier::external_body]
fn decode_lossy(bytes: &[u8]) -> (r: String)
    ensures
        r@ == lossy_utf8(bytes@),
        valid_utf8(bytes@) ==> r@ == decode_utf8(bytes@),
{
    String::from_utf8_lossy(bytes).into_owned()
}

/// The message of the error that `String::from_utf8` gives for bytes that
/// are not valid UTF-8 (its `Display`: where the first invalid or incomplete
/// sequence starts, and how long it is), a function of the bytes alone.
pub uninterp spec fn utf8_error_text(bytes: Seq<u8>) -> Seq<char>;

/// `String::from_utf8`: the decoded text when the bytes are valid UTF-8,
/// otherwise the error, converted to its message.
#[verifier::external_body]
fn string_from_utf8(bytes: Vec<u8>) -> (r: Result<String, String>)
    ensures
        r is Ok <==> valid_utf8(bytes@),
        r matches Ok(s) ==> s@ == decode_utf8(bytes@),
        r matches Err(m) ==> m@ == utf8_error_text(bytes@),
{
    match String::from_utf8(bytes) {
        Ok(s) => Ok(s),
        Err(e) => Err(e.to_string()),
    }
}

/// The text of some output bytes, as shown to the user.
pub fn output_text(bytes: &Vec<u8>) -> (r: String)
    ensures
        r@ == lossy_utf8(bytes@),
        valid_utf8(bytes@) ==> r@ == decode_utf8(bytes@),
{
    decode_lossy(bytes.as_slice())
}

// ── Events ────────────────────────────────────────────────────────────────

/// What the process runner reports about a child process.
#[derive(Clone, Debug)]
pub enum ProcessEvent {
    /// Bytes the child wrote to its standard output.
    Stdout(Vec<u8>),
    /// Bytes the child wrote to its standard error.
    Stderr(Vec<u8>),
    /// The runner failed; its message.
    Error(String),
    /// The child exited, with its exit code when it had one.
    Terminated(Option<i32>),
    /// Anything else the runner reports.
    Other,
}

/// What to do after an event.
#[derive(Debug)]
pub enum RunStep {
    /// Wait for the next event.
    Continue,
    /// The child has finished successfully.
    Finished,
    /// The run failed; the message for the user.
    Failed(String),
}

/// How an exit code is written by `{:?}`: `Some(0)`, `Some(-1)`, `None`.
pub open spec fn exit_code_text(code: Option<i32>) -> Seq<char> {
    match code {
        Some(c) => "Some("@ + int_decimal(c as int) + ")"@,
        None => "None"@,
    }
}

/// The exit code as `{:?}` writes it.
pub fn exit_code_debug(code: Option<i32>) -> (r: String)
    ensures
        r@ == exit_code_text(code),
{
    match code {
        Some(c) => {
            let mut r = String::from_str("Some(");
            push_int(&mut r, c as i64);
            push_text(&mut r, ")");
            r
        },
        None => String::from_str("None"),
    }
}

/// The message for a runner failure.
pub open spec fn runner_error_text(e: Seq<char>) -> Seq<char> {
    "Process error: "@ + e
}

fn runner_error(e: &str) -> (r: String)
    ensures
        r@ == runner_error_text(e@),
{
    let mut r = String::from_str("Process error: ");
    push_text(&mut r, e);
    r
}

/// The message for a child that exited unsuccessfully.
pub open spec fn exit_failure_text(program: Seq<char>, code: Option<i32>) -> Seq<char> {
    "`"@ + program + "` exited with code "@ + exit_code_text(code)
}

fn exit_failure(program: &str, code: Option<i32>) -> (r: String)
    ensures
        r@ == exit_failure_text(program@, code),
{
    let mut r = String::from_str("`");
    push_text(&mut r, program);
    push_text(&mut r, "` exited with code ");
    let c = exit_code_debug(code);
    push_text(&mut r, c.as_str());
    r
}

// ── Capturing a child's output ────────────────────────────────────────────

/// The output collected from a child so far, and its exit code (-1 until
/// the child exits with a code).
pub struct OutputCapture {
    pub stdout: Vec<u8>,
    pub stderr: Vec<u8>,
    pub code: i32,
}

fn append_bytes(dst: &mut Vec<u8>, src: &[u8])
    ensures
        final(dst)@ == old(dst)@ + src@,
{
    let mut i: usize = 0;
    while i < src.len()
        invariant
            i <= src@.len(),
            dst@ == old(dst)@ + src@.take(i as int),
        decreases src@.len() - i,
    {
        dst.push(src[i]);
        assert(src@.take(i + 1) =~= src@.take(i as int).push(src@[i as int]));
        i = i + 1;
    }
    assert(src@.take(src@.len() as int) =~= src@);
}

/// The state of a capture: standard output, error output, exit code.
pub type CaptureState = (Seq<u8>, Seq<u8>, i32);

/// The bytes a runner failure adds to the error output: its message,
/// encoded as UTF-8.
pub open spec fn runner_error_bytes(e: Seq<char>) -> Seq<u8> {
    encode_utf8(runner_error_text(e))
}

/// How an event changes a capture: output chunks are appended to their
/// stream, a runner failure is written to the error output with exit code
/// -1, and an exit sets the code (-1 when it has none).
pub open spec fn capture_step(state: CaptureState, ev: ProcessEvent) -> CaptureState {
    match ev {
        ProcessEvent::Stdout(b) => (state.0 + b@, state.1, state.2),
        ProcessEvent::Stderr(b) => (state.0, state.1 + b@, state.2),
        ProcessEvent::Error(e) => (state.0, state.1 + runner_error_bytes(e@), -1i32),
        ProcessEvent::Terminated(c) => (
            state.0,
            state.1,
            match c {
                Some(x) => x,
                None => -1i32,
            },
        ),
        _ => state,
    }
}

/// The capture after a run of events, from an empty one.
pub open spec fn capture_run(evs: Seq<ProcessEvent>) -> CaptureState
    decreases evs.len(),
{
    if evs.len() == 0 {
        (Seq::empty(), Seq::empty(), -1i32)
    } else {
        capture_step(capture_run(evs.drop_last()), evs.last())
    }
}

impl OutputCapture {
    /// The state of this capture.
    pub open spec fn state(&self) -> CaptureState {
        (self.stdout@, self.stderr@, self.code)
    }

    /// Nothing collected yet.
    pub fn new() -> (c: OutputCapture)
        ensures
            c.stdout@ == Seq::<u8>::empty(),
            c.stderr@ == Seq::<u8>::empty(),
            c.code == -1,
            c.state() == capture_run(Seq::empty()),
    {
        OutputCapture { stdout: Vec::new(), stderr: Vec::new(), code: -1 }
    }

    /// Takes in an event when the whole outcome is wanted, whatever happens:
    /// output is appended, the exit code is kept (-1 when it has none), and
    /// a runner failure ends the run like an exit, its message appended to
    /// the error output and the code -1. Nothing fails.
    pub fn record(&mut self, ev: ProcessEvent) -> (step: RunStep)
        ensures
            final(self).state() == capture_step(old(self).state(), ev),
            match ev {
                ProcessEvent::Stdout(b) => {
                    &&& final(self).stdout@ == old(self).stdout@ + b@
                    &&& final(self).stderr@ == old(self).stderr@
                    &&& final(self).code == old(self).code
                    &&& step is Continue
                },
                ProcessEvent::Stderr(b) => {
                    &&& final(self).stdout@ == old(self).stdout@
                    &&& final(self).stderr@ == old(self).stderr@ + b@
                    &&& final(self).code == old(self).code
                    &&& step is Continue
                },
                ProcessEvent::Error(e) => {
                    &&& final(self).stdout@ == old(self).stdout@
                    &&& final(self).stderr@ == old(self).stderr@ + runner_error_bytes(e@)
                    &&& final(self).code == -1
                    &&& step is Finished
                },
                ProcessEvent::Terminated(c) => {
                    &&& final(self).stdout@ == old(self).stdout@
                    &&& final(self).stderr@ == old(self).stderr@
                    &&& final(self).code == (match c {
                        Some(x) => x,
                        None => -1i32,
                    })
                    &&& step is Finished
                },
                ProcessEvent::Other => {
                    &&& *final(self) == *old(self)
                    &&& step is Continue
                },
            },
    {
        match ev {
            ProcessEvent::Stdout(b) => {
                append_bytes(&mut self.stdout, b.as_slice());
                RunStep::Continue
            },
            ProcessEvent::Stderr(b) => {
                append_bytes(&mut self.stderr, b.as_slice());
                RunStep::Continue
            },
            ProcessEvent::Error(e) => {
                let m = runner_error(e.as_str());
                append_bytes(&mut self.stderr, m.as_str().as_bytes());
                self.code = -1;
                RunStep::Finished
            },
            ProcessEvent::Terminated(c) => {
                self.code = match c {
                    Some(x) => x,
                    None => -1,
                };
                RunStep::Finished
            },
            ProcessEvent::Other => RunStep::Continue,
        }
    }

    /// Takes in an event when only a successful run's output is wanted:
    /// output is appended as by `record`, a runner failure fails with its
    /// message, and an exit with any code but 0 fails, with the error output
    /// in the message.
    pub fn record_checked(&mut self, ev: ProcessEvent, program: &str) -> (step: RunStep)
        ensures
            match ev {
                ProcessEvent::Stdout(b) => {
                    &&& final(self).stdout@ == old(self).stdout@ + b@
                    &&& final(self).stderr@ == old(self).stderr@
                    &&& step is Continue
                },
                ProcessEvent::Stderr(b) => {
                    &&& final(self).stdout@ == old(self).stdout@
                    &&& final(self).stderr@ == old(self).stderr@ + b@
                    &&& step is Continue
                },
                ProcessEvent::Error(e) => {
                    &&& final(self).stdout@ == old(self).stdout@
                    &&& final(self).stderr@ == old(self).stderr@
                    &&& step matches RunStep::Failed(m) && m@ == runner_error_text(e@)
                },
                ProcessEvent::Terminated(c) => {
                    &&& final(self).stdout@ == old(self).stdout@
                    &&& final(self).stderr@ == old(self).stderr@
                    &&& (c == Some(0i32) ==> step is Finished)
                    &&& (c != Some(0i32) ==> (step matches RunStep::Failed(m) && m@
                        == exit_failure_text(program@, c) + seq!['\n'] + lossy_utf8(
                        old(self).stderr@,
                    )))
                },
                ProcessEvent::Other => {
                    &&& final(self).stdout@ == old(self).stdout@
                    &&& final(self).stderr@ == old(self).stderr@
                    &&& step is Continue
                },
            },
    {
        match ev {
            ProcessEvent::Terminated(c) => {
                let ok = match c {
                    Some(x) => x == 0,
                    None => false,
                };
                if ok {
                    RunStep::Finished
                } else {
                    let mut m = exit_failure(program, c);
                    m.push('\n');
                    let err = output_text(&self.stderr);
                    push_text(&mut m, err.as_str());
                    RunStep::Failed(m)
                }
            },
            ProcessEvent::Error(e) => RunStep::Failed(runner_error(e.as_str())),
            other => self.record(other),
        }
    }

    /// The collected output as text, and the exit code.
    pub fn into_texts(self) -> (r: (String, String, i32))
        ensures
            r.0@ == lossy_utf8(self.stdout@),
            r.1@ == lossy_utf8(self.stderr@),
            r.2 == self.code,
    {
        let o = output_text(&self.stdout);
        let e = output_text(&self.stderr);
        (o, e, self.code)
    }

    /// The collected standard output, which must be valid UTF-8.
    pub fn into_stdout_text(self) -> (r: Result<String, String>)
        ensures
            r is Ok <==> valid_utf8(self.stdout@),
            r matches Ok(s) ==> s@ == decode_utf8(self.stdout@),
            r matches Err(m) ==> m@ == "UTF-8 decode error: "@ + utf8_error_text(self.stdout@),
    {
        match string_from_utf8(self.stdout) {
            Ok(s) => Ok(s),
            Err(detail) => {
                let mut m = String::from_str("UTF-8 decode error: ");
                push_text(&mut m, detail.as_str());
                Err(m)
            },
        }
    }
}

/// The standard-output chunks of a run of events, concatenated.
pub open spec fn stdout_chunks(evs: Seq<ProcessEvent>) -> Seq<u8>
    decreases evs.len(),
{
    if evs.len() == 0 {
        Seq::empty()
    } else {
        stdout_chunks(evs.drop_last()) + match evs.last() {
            ProcessEvent::Stdout(b) => b@,
            _ => Seq::empty(),
        }
    }
}

/// The error-output chunks of a run of events, with the message of each
/// runner failure, concatenated.
pub open spec fn stderr_chunks(evs: Seq<ProcessEvent>) -> Seq<u8>
    decreases evs.len(),
{
    if evs.len() == 0 {
        Seq::empty()
    } else {
        stderr_chunks(evs.drop_last()) + match evs.last() {
            ProcessEvent::Stderr(b) => b@,
            ProcessEvent::Error(e) => runner_error_bytes(e@),
            _ => Seq::empty(),
        }
    }
}

/// Output is collected in order and nothing is lost: after any run of
/// events, the captured standard output and error output are the
/// concatenations of the chunks of each stream (runner failures written to
/// the error output).
pub proof fn lemma_capture_keeps_all_output(evs: Seq<ProcessEvent>)
    ensures
        capture_run(evs).0 == stdout_chunks(evs),
        capture_run(evs).1 == stderr_chunks(evs),
    decreases evs.len(),
{
    if evs.len() == 0 {
    } else {
        lemma_capture_keeps_all_output(evs.drop_last());
        match evs.last() {
            ProcessEvent::Stdout(b) => {
                assert(capture_run(evs).1 =~= stderr_chunks(evs));
            },
            ProcessEvent::Stderr(b) => {
                assert(capture_run(evs).0 =~= stdout_chunks(evs));
            },
            ProcessEvent::Error(e) => {
                assert(capture_run(evs).0 =~= stdout_chunks(evs));
            },
            _ => {
                assert(capture_run(evs).0 =~= stdout_chunks(evs));
                assert(capture_run(evs).1 =~= stderr_chunks(evs));
            },
        }
    }
}

/// The exit code captured is that of the last exit event, or -1.
pub proof fn lemma_capture_code_of_last_exit(evs: Seq<ProcessEvent>, c: Option<i32>)
    ensures
        capture_run(evs.push(ProcessEvent::Terminated(c))).2 == (match c {
            Some(x) => x,
            None => -1i32,
        }),
{
    assert(evs.push(ProcessEvent::Terminated(c)).drop_last() =~= evs);
}

// ── Streaming a child's output ────────────────────────────────────────────

/// What to do after an event when the output is shown as it comes.
#[derive(Debug)]
pub enum StreamStep {
    /// Show this line of output (from either stream) and wait for more.
    Show(String),
    Continue,
    Finished,
    Failed(String),
}

/// Decides what an event means while output is shown as it comes.
pub fn stream_step(ev: &ProcessEvent, program: &str) -> (step: StreamStep)
    ensures
        match *ev {
            ProcessEvent::Stdout(b) => step matches StreamStep::Show(t) && t@ == lossy_utf8(b@),
            ProcessEvent::Stderr(b) => step matches StreamStep::Show(t) && t@ == lossy_utf8(b@),
            ProcessEvent::Error(e) => step matches StreamStep::Failed(m) && m@ == runner_error_text(
                e@,
            ),
            ProcessEvent::Terminated(c) => if c == Some(0i32) {
                step is Finished
            } else {
                step matches StreamStep::Failed(m) && m@ == exit_failure_text(program@, c)
            },
            ProcessEvent::Other => step is Continue,
        },
{
    match ev {
        ProcessEvent::Stdout(b) => StreamStep::Show(output_text(b)),
        ProcessEvent::Stderr(b) => StreamStep::Show(output_text(b)),
        ProcessEvent::Error(e) => StreamStep::Failed(runner_error(e.as_str())),
        ProcessEvent::Terminated(c) => {
            let ok = match c {
                Some(x) => *x == 0,
                None => false,
            };
            if ok {
                StreamStep::Finished
            } else {
                StreamStep::Failed(exit_failure(program, *c))
            }
        },
        ProcessEvent::Other => StreamStep::Continue,
    }
}

// ── Progress ──────────────────────────────────────────────────────────────

/// The position of the last space or tab in `s`.
pub open spec fn find_last_blank(s: Seq<char>) -> Option<int>
    decreases s.len(),
{
    if s.len() == 0 {
        None
    } else if s.last() == ' ' || s.last() == '\t' {
        Some(s.len() - 1)
    } else {
        find_last_blank(s.drop_last())
    }
}

/// The text that may hold a percentage in a progress line such as
/// `[download]  42.3% of …`: the trimmed word just before the first `%`,
/// when a space or tab stands before it.
pub open spec fn percent_word(line: Seq<char>) -> Option<Seq<char>> {
    match find_char(line, '%') {
        Some(pos) => match find_last_blank(line.take(pos)) {
            Some(start) => Some(trim(line.subrange(start + 1, pos))),
            None => None,
        },
        None => None,
    }
}

/// What a line of tool output says about progress: the word that may be a
/// percentage, and whether the line reports a time position (ffmpeg's
/// `time=`), which means progress of unknown extent.
pub struct ProgressHint {
    pub percent_word: Option<String>,
    pub has_time: bool,
}

/// Reads what a line of output says about progress.
pub fn progress_hint(line: &str) -> (h: ProgressHint)
    ensures
        match percent_word(line@) {
            Some(w) => h.percent_word matches Some(x) && x@ == w,
            None => h.percent_word is None,
        },
        h.has_time == contains(line@, "time="@),
{
    let cs = chars_of(line);
    let n = cs.len();
    proof {
        assert(cs@.subrange(0, n as int) =~= cs@);
        lemma_find_char(cs@, '%');
    }
    let word = match find_char_in(&cs, '%', 0, n) {
        Some(pos) => {
            let mut k = pos;
            let mut found = false;
            while k > 0 && !found
                invariant
                    k <= pos < n,
                    n == cs@.len(),
                    !found ==> find_last_blank(cs@.take(pos as int)) == find_last_blank(
                        cs@.take(k as int),
                    ),
                    found ==> k > 0 && find_last_blank(cs@.take(pos as int)) == Some(
                        (k - 1) as int,
                    ),
                decreases k + (if found {
                    0int
                } else {
                    1int
                }),
            {
                let c = cs[k - 1];
                if c == ' ' || c == '\t' {
                    found = true;
                    proof {
                        assert(cs@.take(k as int).last() == c);
                    }
                } else {
                    assert(cs@.take(k as int).drop_last() =~= cs@.take(k - 1));
                    k = k - 1;
                }
            }
            if found {
                let (a, b) = trim_range(&cs, k, pos);
                Some(string_of_range(&cs, a, b))
            } else {
                proof {
                    assert(cs@.take(0) =~= Seq::<char>::empty());
                }
                None
            }
        },
        None => None,
    };
    ProgressHint { percent_word: word, has_time: contains_text(line, "time=") }
}

} // verus!
