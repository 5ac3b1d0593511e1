//! What the app knows about the machine: whether yt-dlp, ffmpeg and a
//! JavaScript runtime are installed, how old yt-dlp is, and which logins
//! have saved cookies.
use vstd::prelude::*;
use crate::text::{chars_of, find_char, find_char_in, lemma_find_char, trim, trimmed};
use crate::ytdlp::JsRuntime;

verus! {

/// The tools found on the machine.
#[derive(Clone, Debug)]
pub struct ToolStatus {
    pub yt_dlp: bool,
    pub ffmpeg: bool,
    /// What `yt-dlp --version` printed, trimmed.
    pub yt_dlp_version: Option<String>,
    /// The version is from before 2024.
    pub yt_dlp_outdated: bool,
    /// node, nodejs or deno is installed (yt-dlp needs one to solve
    /// YouTube's challenges when it logs in).
    pub has_js_runtime: bool,
}

/// The cookie files saved by earlier logins.
#[derive(Clone, Debug)]
pub struct AuthState {
    pub yt_cookies: Option<String>,
    pub ig_cookies: Option<String>,
    pub fb_cookies: Option<String>,
}

// ── Unsigned decimal numbers ──────────────────────────────────────────────

pub open spec fn is_digit(c: char) -> bool {
    '0' <= c && c <= '9'
}

/// The value of a decimal digit.
pub open spec fn digit_value(c: char) -> int {
    c as int - '0' as int
}

/// The value of a sequence of decimal digits.
pub open spec fn digits_value(s: Seq<char>) -> int
    decreases s.len(),
{
    if s.len() == 0 {
        0
    } else {
        digits_value(s.drop_last()) * 10 + digit_value(s.last())
    }
}

/// `s` is one or more decimal digits.
pub open spec fn all_digits(s: Seq<char>) -> bool {
    s.len() > 0 && forall|i: int| 0 <= i < s.len() ==> is_digit(#[trigger] s[i])
}

/// What `str::parse::<u32>` gives: the value of an optional `+` followed by
/// one or more decimal digits, when it fits in 32 bits.
pub open spec fn parse_u32(s: Seq<char>) -> Option<u32> {
    let d = if s.len() > 0 && s[0] == '+' {
        s.drop_first()
    } else {
        s
    };
    if all_digits(d) && digits_value(d) <= u32::MAX {
        Some(digits_value(d) as u32)
    } else {
        None
    }
}

proof fn lemma_digits_value_grows(d: Seq<char>, k: int)
    requires
        0 <= k <= d.len(),
        forall|i: int| 0 <= i < d.len() ==> is_digit(#[trigger] d[i]),
    ensures
        0 <= digits_value(d.take(k)) <= digits_value(d),
    decreases d.len(),
{
    if d.len() > 0 {
        let p = d.drop_last();
        assert forall|i: int| 0 <= i < p.len() implies is_digit(#[trigger] p[i]) by {
            assert(p[i] == d[i]);
        }
        assert(is_digit(d[d.len() - 1]));
        if k == d.len() {
            assert(d.take(k) =~= d);
            lemma_digits_value_grows(p, p.len() as int);
            assert(p.take(p.len() as int) =~= p);
        } else {
            lemma_digits_value_grows(p, k);
            assert(p.take(k) =~= d.take(k));
            lemma_digits_value_grows(p, p.len() as int);
            assert(p.take(p.len() as int) =~= p);
        }
    } else {
        assert(d.take(k) =~= d);
    }
}

/// Parses `cs[lo..hi]` as `str::parse::<u32>` does.
fn parse_u32_range(cs: &Vec<char>, lo: usize, hi: usize) -> (r: Option<u32>)
    requires
        lo <= hi <= cs@.len(),
    ensures
        r == parse_u32(cs@.subrange(lo as int, hi as int)),
{
    let ghost s = cs@.subrange(lo as int, hi as int);
    let start = if lo < hi && cs[lo] == '+' {
        lo + 1
    } else {
        lo
    };
    let ghost d = cs@.subrange(start as int, hi as int);
    proof {
        if lo < hi && cs@[lo as int] == '+' {
            assert(s.drop_first() =~= d);
        } else {
            assert(s =~= d);
        }
    }
    if start == hi {
        return None;
    }
    let mut acc: u64 = 0;
    let mut k = start;
    while k < hi
        invariant
            lo <= start <= k <= hi <= cs@.len(),
            start < hi,
            d == cs@.subrange(start as int, hi as int),
            parse_u32(cs@.subrange(lo as int, hi as int)) == (if all_digits(d) && digits_value(d)
                <= u32::MAX {
                Some(digits_value(d) as u32)
            } else {
                None
            }),
            forall|i: int| 0 <= i < k - start ==> is_digit(#[trigger] d[i]),
            acc == digits_value(d.take(k - start)),
            acc <= u32::MAX,
        decreases hi - k,
    {
        let c = cs[k];
        if !('0' <= c && c <= '9') {
            proof {
                assert(d[k - start] == c);
                assert(!all_digits(d));
            }
            return None;
        }
        let v = (c as u32 - '0' as u32) as u64;
        proof {
            assert(d[k - start] == c);
            assert(d.take(k - start + 1).drop_last() =~= d.take(k - start));
            assert(d.take(k - start + 1).last() == c);
        }
        let next = acc * 10 + v;
        if next > 4294967295 {
            proof {
                assert(next == digits_value(d.take(k - start + 1)));
                if all_digits(d) {
                    lemma_digits_value_grows(d, k - start + 1);
                }
            }
            return None;
        }
        acc = next;
        k = k + 1;
    }
    proof {
        assert(d.take(hi - start) =~= d);
    }
    Some(acc as u32)
}

// ── yt-dlp's version ──────────────────────────────────────────────────────

/// The year of a yt-dlp version `YYYY.MM.DD`: the text before the first
/// dot, read as a number.
pub open spec fn version_year(ver: Seq<char>) -> Option<u32> {
    match find_char(ver, '.') {
        Some(i) => parse_u32(ver.take(i)),
        None => parse_u32(ver),
    }
}

/// A version is outdated when its year is before 2024; a version whose year
/// cannot be read is not called outdated.
pub open spec fn version_outdated(ver: Seq<char>) -> bool {
    match version_year(ver) {
        Some(y) => y < 2024,
        None => false,
    }
}

/// Whether a yt-dlp version is from before 2024.
pub fn is_outdated_version(ver: &str) -> (r: bool)
    ensures
        r == version_outdated(ver@),
{
    let cs = chars_of(ver);
    let n = cs.len();
    proof {
        assert(cs@.subrange(0, n as int) =~= cs@);
        lemma_find_char(cs@, '.');
    }
    let year = match find_char_in(&cs, '.', 0, n) {
        Some(i) => {
            proof {
                assert(cs@.subrange(0, i as int) =~= cs@.take(i as int));
            }
            parse_u32_range(&cs, 0, i)
        },
        None => parse_u32_range(&cs, 0, n),
    };
    match year {
        Some(y) => y < 2024,
        None => false,
    }
}

/// The version shown for what `yt-dlp --version` printed (when it ran), and
/// whether it is outdated.
pub open spec fn version_info(output: Option<Seq<char>>) -> (Option<Seq<char>>, bool) {
    match output {
        Some(t) => (Some(trim(t)), version_outdated(trim(t))),
        None => (None, false),
    }
}

/// The version and its age from what `yt-dlp --version` printed.
pub fn yt_dlp_version_info(output: Option<&str>) -> (r: (Option<String>, bool))
    ensures
        (match r.0 {
            Some(v) => Some(v@),
            None => None,
        }, r.1) == version_info(
            match output {
                Some(t) => Some(t@),
                None => None,
            },
        ),
{
    match output {
        Some(t) => {
            let ver = trimmed(t);
            let old = is_outdated_version(ver.as_str());
            (Some(ver), old)
        },
        None => (None, false),
    }
}

/// The status of the tools from what was found: yt-dlp and ffmpeg on the
/// path, what `yt-dlp --version` printed (when yt-dlp was found and the
/// command ran), and the JavaScript runtime.
pub fn tool_status(
    yt_dlp: bool,
    ffmpeg: bool,
    version_output: Option<String>,
    js: JsRuntime,
) -> (s: ToolStatus)
    ensures
        s.yt_dlp == yt_dlp,
        s.ffmpeg == ffmpeg,
        (match s.yt_dlp_version {
            Some(v) => Some(v@),
            None => None,
        }, s.yt_dlp_outdated) == version_info(
            if yt_dlp {
                match version_output {
                    Some(t) => Some(t@),
                    None => None,
                }
            } else {
                None
            },
        ),
        s.has_js_runtime == (js != JsRuntime::Missing),
{
    let (yt_dlp_version, yt_dlp_outdated) = if yt_dlp {
        match &version_output {
            Some(t) => yt_dlp_version_info(Some(t.as_str())),
            None => yt_dlp_version_info(None),
        }
    } else {
        (None, false)
    };
    ToolStatus {
        yt_dlp,
        ffmpeg,
        yt_dlp_version,
        yt_dlp_outdated,
        has_js_runtime: !matches!(js, JsRuntime::Missing),
    }
}

/// No version means nothing is called outdated.
pub proof fn lemma_outdated_needs_version(output: Option<Seq<char>>)
    ensures
        version_info(output).0 is None ==> !version_info(output).1,
        version_info(output).1 ==> version_year(version_info(output).0->0) is Some,
{
}

} // verus!
