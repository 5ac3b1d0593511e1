//! Command lines for yt-dlp and ffmpeg downloads: quality presets, login
//! arguments, output templates, and the choice between the two tools.
use vstd::prelude::*;
use crate::text::{contains, contains_text, lowercase, occurs_at, push_text, same_text, trim, trimmed};

verus! {

// ── Argument lists ────────────────────────────────────────────────────────

/// Appends one argument to an argument list.
pub fn push_arg(args: &mut Vec<String>, a: &str)
    ensures
        final(args).deep_view() == old(args).deep_view().push(a@),
{
    args.push(String::from_str(a));
    proof {
        assert(final(args).deep_view() =~= old(args).deep_view().push(a@));
    }
}

/// Appends an owned argument to an argument list.
pub fn push_owned_arg(args: &mut Vec<String>, a: String)
    ensures
        final(args).deep_view() == old(args).deep_view().push(a@),
{
    let ghost v = a@;
    args.push(a);
    proof {
        assert(final(args).deep_view() =~= old(args).deep_view().push(v));
    }
}

// ── Quality presets ───────────────────────────────────────────────────────

/// The yt-dlp format selector for a quality preset; any other text is taken
/// to be a selector already and passed through.
pub open spec fn ytdlp_format(q: Seq<char>) -> Seq<char> {
    if q == "best"@ {
        "bestvideo+bestaudio/best"@
    } else if q == "1080p"@ {
        "bestvideo[height<=1080]+bestaudio/best[height<=1080]"@
    } else if q == "720p"@ {
        "bestvideo[height<=720]+bestaudio/best[height<=720]"@
    } else if q == "480p"@ {
        "bestvideo[height<=480]+bestaudio/best[height<=480]"@
    } else if q == "360p"@ {
        "bestvideo[height<=360]+bestaudio/best[height<=360]"@
    } else if q == "audio_mp3"@ {
        "bestaudio/best"@
    } else if q == "audio_m4a"@ {
        "bestaudio[ext=m4a]/bestaudio/best"@
    } else {
        q
    }
}

/// Maps a quality preset to a yt-dlp format selector.
pub fn format_to_ytdlp_format(q: &str) -> (r: String)
    ensures
        r@ == ytdlp_format(q@),
{
    let sel: &str = if same_text(q, "best") {
        "bestvideo+bestaudio/best"
    } else if same_text(q, "1080p") {
        "bestvideo[height<=1080]+bestaudio/best[height<=1080]"
    } else if same_text(q, "720p") {
        "bestvideo[height<=720]+bestaudio/best[height<=720]"
    } else if same_text(q, "480p") {
        "bestvideo[height<=480]+bestaudio/best[height<=480]"
    } else if same_text(q, "360p") {
        "bestvideo[height<=360]+bestaudio/best[height<=360]"
    } else if same_text(q, "audio_mp3") {
        "bestaudio/best"
    } else if same_text(q, "audio_m4a") {
        "bestaudio[ext=m4a]/bestaudio/best"
    } else {
        q
    };
    String::from_str(sel)
}

/// Mapping a selector a second time changes nothing: no selector that a
/// preset maps to is itself a preset name.
pub proof fn lemma_ytdlp_format_idempotent(q: Seq<char>)
    ensures
        ytdlp_format(ytdlp_format(q)) == ytdlp_format(q),
{
    reveal_strlit("best");
    reveal_strlit("1080p");
    reveal_strlit("720p");
    reveal_strlit("480p");
    reveal_strlit("360p");
    reveal_strlit("audio_mp3");
    reveal_strlit("audio_m4a");
    reveal_strlit("bestvideo+bestaudio/best");
    reveal_strlit("bestvideo[height<=1080]+bestaudio/best[height<=1080]");
    reveal_strlit("bestvideo[height<=720]+bestaudio/best[height<=720]");
    reveal_strlit("bestvideo[height<=480]+bestaudio/best[height<=480]");
    reveal_strlit("bestvideo[height<=360]+bestaudio/best[height<=360]");
    reveal_strlit("bestaudio/best");
    reveal_strlit("bestaudio[ext=m4a]/bestaudio/best");
}

// ── Stream detection ──────────────────────────────────────────────────────

/// The tool for a lowercased URL: ffmpeg ("m3u8") for an HLS playlist,
/// yt-dlp ("ytdlp") otherwise.
pub open spec fn stream_kind(lowered: Seq<char>) -> Seq<char> {
    if contains(lowered, ".m3u8"@) || contains(lowered, "m3u8"@) {
        "m3u8"@
    } else {
        "ytdlp"@
    }
}

/// The tool for an already lowercased URL.
pub fn stream_kind_of_lowercased(lowered: &str) -> (r: String)
    ensures
        r@ == stream_kind(lowered@),
{
    if contains_text(lowered, ".m3u8") || contains_text(lowered, "m3u8") {
        String::from_str("m3u8")
    } else {
        String::from_str("ytdlp")
    }
}

/// Detects whether a URL looks like an M3U8 stream ("m3u8") or is left to
/// yt-dlp ("ytdlp"); the test ignores case.
pub fn detect_type(url: String) -> (r: String)
    ensures
        r@ == stream_kind(lowercase(url@)),
{
    let u = url.as_str().to_lowercase();
    stream_kind_of_lowercased(u.as_str())
}

/// A URL is taken for a stream exactly when its lowercased text contains
/// `m3u8`; the test for `.m3u8` adds nothing.
pub proof fn lemma_stream_kind_is_m3u8_test(lowered: Seq<char>)
    ensures
        stream_kind(lowered) == (if contains(lowered, "m3u8"@) {
            "m3u8"@
        } else {
            "ytdlp"@
        }),
{
    reveal_strlit(".m3u8");
    reveal_strlit("m3u8");
    if contains(lowered, ".m3u8"@) {
        let i = choose|i: int| occurs_at(lowered, ".m3u8"@, i);
        assert(lowered.subrange(i + 1, i + 5) =~= lowered.subrange(i, i + 5).skip(1));
        assert(".m3u8"@.skip(1) =~= "m3u8"@);
        assert(occurs_at(lowered, "m3u8"@, i + 1));
    }
}

// ── Login arguments ───────────────────────────────────────────────────────

/// The yt-dlp arguments that pass a login: browser cookies for mode
/// "browser", a cookies.txt file for mode "cookies_file", nothing otherwise
/// or when the browser or file is empty.
pub open spec fn auth_args(mode: Seq<char>, browser: Seq<char>, cookies_file: Seq<char>) -> Seq<
    Seq<char>,
> {
    if mode == "browser"@ {
        if browser.len() > 0 {
            seq!["--cookies-from-browser"@, browser]
        } else {
            Seq::empty()
        }
    } else if mode == "cookies_file"@ {
        if cookies_file.len() > 0 {
            seq!["--cookies"@, cookies_file]
        } else {
            Seq::empty()
        }
    } else {
        Seq::empty()
    }
}

/// Appends the login arguments for `mode` to `args`.
pub fn append_auth_args(args: &mut Vec<String>, mode: &str, browser: &str, cookies_file: &str)
    ensures
        final(args).deep_view() == old(args).deep_view() + auth_args(
            mode@,
            browser@,
            cookies_file@,
        ),
{
    if same_text(mode, "browser") {
        if !browser.is_empty() {
            push_arg(args, "--cookies-from-browser");
            push_arg(args, browser);
        }
    } else if same_text(mode, "cookies_file") {
        if !cookies_file.is_empty() {
            push_arg(args, "--cookies");
            push_arg(args, cookies_file);
        }
    }
    proof {
        assert(final(args).deep_view() =~= old(args).deep_view() + auth_args(
            mode@,
            browser@,
            cookies_file@,
        ));
    }
}

/// Login arguments come as one option and its value, or not at all.
pub proof fn lemma_auth_args_shape(mode: Seq<char>, browser: Seq<char>, cookies_file: Seq<char>)
    ensures
        auth_args(mode, browser, cookies_file).len() == 0 || auth_args(
            mode,
            browser,
            cookies_file,
        ).len() == 2,
        mode != "browser"@ && mode != "cookies_file"@ ==> auth_args(
            mode,
            browser,
            cookies_file,
        ).len() == 0,
{
}

// ── Downloads ─────────────────────────────────────────────────────────────

/// What the user asked to download, and how.
#[derive(Clone, Debug)]
pub struct DownloadRequest {
    pub url: String,
    pub output_dir: String,
    /// A quality preset ("best", "1080p", …, "audio_mp3") or a selector.
    pub quality: String,
    /// The file name without extension; empty lets yt-dlp choose.
    pub filename: String,
    pub subtitles: bool,
    pub embed_thumbnail: bool,
    pub no_playlist: bool,
    /// "none", "browser" or "cookies_file".
    pub auth_mode: String,
    pub auth_browser: String,
    pub cookies_file: String,
}

/// The JavaScript runtime found on the machine, which yt-dlp needs to solve
/// YouTube's challenges when it logs in.
#[derive(Clone, Copy, Debug, PartialEq, Eq)]
pub enum JsRuntime {
    Node,
    Deno,
    Missing,
}

/// yt-dlp's output template: a folder per playlist for playlist downloads,
/// the title for single videos, or the name the user gave.
pub open spec fn output_template(req: DownloadRequest) -> Seq<char> {
    let name = trim(req.filename@);
    if name.len() == 0 {
        if !req.no_playlist {
            req.output_dir@ + "/%(playlist_title)s/%(playlist_index)s - %(title).80s.%(ext)s"@
        } else {
            req.output_dir@ + "/%(title).100s.%(ext)s"@
        }
    } else {
        req.output_dir@ + seq!['/'] + name + ".%(ext)s"@
    }
}

/// The request logs in (its mode is neither empty nor "none").
pub open spec fn uses_auth(req: DownloadRequest) -> bool {
    req.auth_mode@.len() > 0 && req.auth_mode@ != "none"@
}

/// The YouTube client arguments: the iOS client when not logged in (it needs
/// no JavaScript), otherwise the JavaScript runtime that was found.
pub open spec fn client_args(req: DownloadRequest, js: JsRuntime) -> Seq<Seq<char>> {
    if !uses_auth(req) {
        seq!["--extractor-args"@, "youtube:player_client=ios,web"@]
    } else {
        match js {
            JsRuntime::Node => seq!["--js-runtimes"@, "node"@],
            JsRuntime::Deno => seq!["--js-runtimes"@, "deno"@],
            JsRuntime::Missing => Seq::empty(),
        }
    }
}

/// Audio extraction arguments for the audio presets.
pub open spec fn audio_args(quality: Seq<char>) -> Seq<Seq<char>> {
    if quality == "audio_mp3"@ {
        seq!["-x"@, "--audio-format"@, "mp3"@, "--audio-quality"@, "192K"@]
    } else if quality == "audio_m4a"@ {
        seq!["-x"@, "--audio-format"@, "m4a"@]
    } else {
        Seq::empty()
    }
}

/// The full yt-dlp command line for a download.
pub open spec fn download_argv(req: DownloadRequest, js: JsRuntime) -> Seq<Seq<char>> {
    seq![
        "--newline"@,
        "--no-colors"@,
        "-f"@,
        ytdlp_format(req.quality@),
        "--merge-output-format"@,
        "mp4"@,
        "-o"@,
        output_template(req),
    ] + client_args(req, js) + (if req.no_playlist {
        seq!["--no-playlist"@]
    } else {
        Seq::empty()
    }) + (if req.subtitles {
        seq!["--write-subs"@, "--write-auto-subs"@, "--sub-format"@, "srt"@]
    } else {
        Seq::empty()
    }) + (if req.embed_thumbnail {
        seq!["--embed-thumbnail"@]
    } else {
        Seq::empty()
    }) + audio_args(req.quality@) + auth_args(
        req.auth_mode@,
        req.auth_browser@,
        req.cookies_file@,
    ) + seq![req.url@]
}

/// yt-dlp's output template for a request.
pub fn ytdlp_output_template(req: &DownloadRequest) -> (r: String)
    ensures
        r@ == output_template(*req),
{
    let name = trimmed(req.filename.as_str());
    let mut out = req.output_dir.clone();
    if name.as_str().is_empty() {
        if !req.no_playlist {
            push_text(&mut out, "/%(playlist_title)s/%(playlist_index)s - %(title).80s.%(ext)s");
        } else {
            push_text(&mut out, "/%(title).100s.%(ext)s");
        }
    } else {
        out.push('/');
        push_text(&mut out, name.as_str());
        push_text(&mut out, ".%(ext)s");
    }
    proof {
        assert(out@ =~= output_template(*req));
    }
    out
}

/// Whether the request logs in.
pub fn request_uses_auth(req: &DownloadRequest) -> (r: bool)
    ensures
        r == uses_auth(*req),
{
    !req.auth_mode.as_str().is_empty() && !same_text(req.auth_mode.as_str(), "none")
}

fn append_client_args(args: &mut Vec<String>, req: &DownloadRequest, js: JsRuntime)
    ensures
        final(args).deep_view() == old(args).deep_view() + client_args(*req, js),
{
    if !request_uses_auth(req) {
        push_arg(args, "--extractor-args");
        push_arg(args, "youtube:player_client=ios,web");
    } else {
        match js {
            JsRuntime::Node => {
                push_arg(args, "--js-runtimes");
                push_arg(args, "node");
            },
            JsRuntime::Deno => {
                push_arg(args, "--js-runtimes");
                push_arg(args, "deno");
            },
            JsRuntime::Missing => {},
        }
    }
    proof {
        assert(final(args).deep_view() =~= old(args).deep_view() + client_args(*req, js));
    }
}

fn append_option_args(args: &mut Vec<String>, req: &DownloadRequest)
    ensures
        final(args).deep_view() == old(args).deep_view() + (if req.no_playlist {
            seq!["--no-playlist"@]
        } else {
            Seq::empty()
        }) + (if req.subtitles {
            seq!["--write-subs"@, "--write-auto-subs"@, "--sub-format"@, "srt"@]
        } else {
            Seq::empty()
        }) + (if req.embed_thumbnail {
            seq!["--embed-thumbnail"@]
        } else {
            Seq::empty()
        }),
{
    let ghost start = args.deep_view();
    if req.no_playlist {
        push_arg(args, "--no-playlist");
    }
    let ghost a1 = args.deep_view();
    if req.subtitles {
        push_arg(args, "--write-subs");
        push_arg(args, "--write-auto-subs");
        push_arg(args, "--sub-format");
        push_arg(args, "srt");
    }
    let ghost a2 = args.deep_view();
    if req.embed_thumbnail {
        push_arg(args, "--embed-thumbnail");
    }
    proof {
        assert(final(args).deep_view() =~= start + (if req.no_playlist {
            seq!["--no-playlist"@]
        } else {
            Seq::empty()
        }) + (if req.subtitles {
            seq!["--write-subs"@, "--write-auto-subs"@, "--sub-format"@, "srt"@]
        } else {
            Seq::empty()
        }) + (if req.embed_thumbnail {
            seq!["--embed-thumbnail"@]
        } else {
            Seq::empty()
        }));
    }
}

fn append_audio_args(args: &mut Vec<String>, quality: &str)
    ensures
        final(args).deep_view() == old(args).deep_view() + audio_args(quality@),
{
    if same_text(quality, "audio_mp3") {
        push_arg(args, "-x");
        push_arg(args, "--audio-format");
        push_arg(args, "mp3");
        push_arg(args, "--audio-quality");
        push_arg(args, "192K");
    } else if same_text(quality, "audio_m4a") {
        push_arg(args, "-x");
        push_arg(args, "--audio-format");
        push_arg(args, "m4a");
    }
    proof {
        assert(final(args).deep_view() =~= old(args).deep_view() + audio_args(quality@));
    }
}

/// The yt-dlp command line for a download, given the JavaScript runtime
/// found on the machine (consulted only when the request logs in).
pub fn ytdlp_download_args(req: &DownloadRequest, js: JsRuntime) -> (r: Vec<String>)
    ensures
        r.deep_view() == download_argv(*req, js),
{
    let mut args: Vec<String> = Vec::new();
    push_arg(&mut args, "--newline");
    push_arg(&mut args, "--no-colors");
    push_arg(&mut args, "-f");
    push_owned_arg(&mut args, format_to_ytdlp_format(req.quality.as_str()));
    push_arg(&mut args, "--merge-output-format");
    push_arg(&mut args, "mp4");
    push_arg(&mut args, "-o");
    push_owned_arg(&mut args, ytdlp_output_template(req));
    let ghost head = args.deep_view();
    append_client_args(&mut args, req, js);
    let ghost a1 = args.deep_view();
    append_option_args(&mut args, req);
    let ghost a2 = args.deep_view();
    append_audio_args(&mut args, req.quality.as_str());
    let ghost a3 = args.deep_view();
    append_auth_args(
        &mut args,
        req.auth_mode.as_str(),
        req.auth_browser.as_str(),
        req.cookies_file.as_str(),
    );
    push_owned_arg(&mut args, req.url.clone());
    proof {
        assert(args.deep_view() =~= download_argv(*req, js));
    }
    args
}

/// The download goes through yt-dlp, and the URL is its last argument,
/// after the format selector and the output template.
pub proof fn lemma_download_argv_shape(req: DownloadRequest, js: JsRuntime)
    ensures
        download_argv(req, js).last() == req.url@,
        download_argv(req, js)[2] == "-f"@,
        download_argv(req, js)[3] == ytdlp_format(req.quality@),
        download_argv(req, js)[6] == "-o"@,
        download_argv(req, js)[7] == output_template(req),
{
}

/// A name given by the user (trimmed, and not empty) names the download
/// whether or not it is a playlist: yt-dlp writes the folder, `/`, that
/// name and the media's extension. Without a name a playlist goes into a
/// folder named by its title, each entry numbered, and a single video is
/// named by its title.
pub proof fn lemma_download_template_names(req: DownloadRequest, js: JsRuntime)
    ensures
        trim(req.filename@).len() > 0 ==> output_template(req) == req.output_dir@ + seq!['/']
            + trim(req.filename@) + ".%(ext)s"@,
        trim(req.filename@).len() > 0 ==> download_argv(req, js)[7] == req.output_dir@ + seq![
            '/',
        ] + trim(req.filename@) + ".%(ext)s"@,
        trim(req.filename@).len() == 0 && !req.no_playlist ==> download_argv(req, js)[7]
            == req.output_dir@ + "/%(playlist_title)s/%(playlist_index)s - %(title).80s.%(ext)s"@,
        trim(req.filename@).len() == 0 && req.no_playlist ==> download_argv(req, js)[7]
            == req.output_dir@ + "/%(title).100s.%(ext)s"@,
{
    lemma_download_argv_shape(req, js);
}

/// The pieces of a download command line: the fixed head (format selector
/// and output template), the client arguments with the options, and the
/// login arguments with the URL.
proof fn lemma_download_argv_parts(req: DownloadRequest, js: JsRuntime)
    ensures
        ({
            let head = seq![
                "--newline"@,
                "--no-colors"@,
                "-f"@,
                ytdlp_format(req.quality@),
                "--merge-output-format"@,
                "mp4"@,
                "-o"@,
                output_template(req),
            ];
            let rest = (if req.no_playlist {
                seq!["--no-playlist"@]
            } else {
                Seq::empty()
            }) + (if req.subtitles {
                seq!["--write-subs"@, "--write-auto-subs"@, "--sub-format"@, "srt"@]
            } else {
                Seq::empty()
            }) + (if req.embed_thumbnail {
                seq!["--embed-thumbnail"@]
            } else {
                Seq::empty()
            }) + audio_args(req.quality@);
            download_argv(req, js) == head + (client_args(req, js) + rest) + (auth_args(
                req.auth_mode@,
                req.auth_browser@,
                req.cookies_file@,
            ) + seq![req.url@])
        }),
{
    let head = seq![
        "--newline"@,
        "--no-colors"@,
        "-f"@,
        ytdlp_format(req.quality@),
        "--merge-output-format"@,
        "mp4"@,
        "-o"@,
        output_template(req),
    ];
    let rest = (if req.no_playlist {
        seq!["--no-playlist"@]
    } else {
        Seq::empty()
    }) + (if req.subtitles {
        seq!["--write-subs"@, "--write-auto-subs"@, "--sub-format"@, "srt"@]
    } else {
        Seq::empty()
    }) + (if req.embed_thumbnail {
        seq!["--embed-thumbnail"@]
    } else {
        Seq::empty()
    }) + audio_args(req.quality@);
    assert(download_argv(req, js) =~= head + (client_args(req, js) + rest) + (auth_args(
        req.auth_mode@,
        req.auth_browser@,
        req.cookies_file@,
    ) + seq![req.url@]));
}

/// The YouTube client follows the login: without one (mode empty or
/// "none") yt-dlp uses the iOS and web clients, and with one it is pointed
/// at the JavaScript runtime that was found (node or deno), or told nothing
/// when none was.
pub proof fn lemma_download_client(req: DownloadRequest, js: JsRuntime)
    ensures
        (req.auth_mode@.len() == 0 || req.auth_mode@ == "none"@) ==> download_argv(req, js)[8]
            == "--extractor-args"@ && download_argv(req, js)[9]
            == "youtube:player_client=ios,web"@,
        (req.auth_mode@.len() > 0 && req.auth_mode@ != "none"@ && js == JsRuntime::Node)
            ==> download_argv(req, js)[8] == "--js-runtimes"@ && download_argv(req, js)[9]
            == "node"@,
        (req.auth_mode@.len() > 0 && req.auth_mode@ != "none"@ && js == JsRuntime::Deno)
            ==> download_argv(req, js)[8] == "--js-runtimes"@ && download_argv(req, js)[9]
            == "deno"@,
{
    lemma_download_argv_parts(req, js);
    let a = download_argv(req, js);
    let client = client_args(req, js);
    if client.len() == 2 {
        assert(a[8] == client[0]);
        assert(a[9] == client[1]);
    }
}

/// A browser login ends the download command line with
/// `--cookies-from-browser`, the browser and the URL; a cookies-file login
/// with `--cookies`, the file and the URL.
pub proof fn lemma_download_login(req: DownloadRequest, js: JsRuntime)
    ensures
        (req.auth_mode@ == "browser"@ && req.auth_browser@.len() > 0) ==> {
            let a = download_argv(req, js);
            &&& a[a.len() - 3] == "--cookies-from-browser"@
            &&& a[a.len() - 2] == req.auth_browser@
            &&& a[a.len() - 1] == req.url@
        },
        (req.auth_mode@ == "cookies_file"@ && req.cookies_file@.len() > 0) ==> {
            let a = download_argv(req, js);
            &&& a[a.len() - 3] == "--cookies"@
            &&& a[a.len() - 2] == req.cookies_file@
            &&& a[a.len() - 1] == req.url@
        },
{
    reveal_strlit("browser");
    reveal_strlit("cookies_file");
    assert("browser"@[0] == 'b' && "cookies_file"@[0] == 'c');
    lemma_download_argv_parts(req, js);
    let a = download_argv(req, js);
    let login = auth_args(req.auth_mode@, req.auth_browser@, req.cookies_file@);
    if login.len() == 2 {
        let tail = login + seq![req.url@];
        assert(a[a.len() - 3] == tail[0]);
        assert(a[a.len() - 2] == tail[1]);
        assert(a[a.len() - 1] == tail[2]);
    }
}

/// The output path of an M3U8 stream download: the user's name, or
/// `stream_output`, as an MP4 file in the output folder.
pub open spec fn m3u8_output_path(req: DownloadRequest) -> Seq<char> {
    let name = trim(req.filename@);
    req.output_dir@ + seq!['/'] + (if name.len() == 0 {
        "stream_output"@
    } else {
        name
    }) + ".mp4"@
}

/// The ffmpeg command line for an M3U8 stream: video copied, audio
/// re-encoded to AAC so that the MP4 container plays everywhere.
pub open spec fn m3u8_argv(req: DownloadRequest) -> Seq<Seq<char>> {
    seq![
        "-y"@,
        "-loglevel"@,
        "info"@,
        "-stats"@,
        "-i"@,
        req.url@,
        "-c:v"@,
        "copy"@,
        "-c:a"@,
        "aac"@,
        "-bsf:a"@,
        "aac_adtstoasc"@,
        "-movflags"@,
        "+faststart"@,
        m3u8_output_path(req),
    ]
}

/// The output path of an M3U8 stream download.
pub fn m3u8_output(req: &DownloadRequest) -> (r: String)
    ensures
        r@ == m3u8_output_path(*req),
{
    let name = trimmed(req.filename.as_str());
    let mut out = req.output_dir.clone();
    out.push('/');
    if name.as_str().is_empty() {
        push_text(&mut out, "stream_output");
    } else {
        push_text(&mut out, name.as_str());
    }
    push_text(&mut out, ".mp4");
    proof {
        assert(out@ =~= m3u8_output_path(*req));
    }
    out
}

/// The ffmpeg command line for an M3U8 stream download.
pub fn m3u8_args(req: &DownloadRequest) -> (r: Vec<String>)
    ensures
        r.deep_view() == m3u8_argv(*req),
{
    let mut args: Vec<String> = Vec::new();
    push_arg(&mut args, "-y");
    push_arg(&mut args, "-loglevel");
    push_arg(&mut args, "info");
    push_arg(&mut args, "-stats");
    push_arg(&mut args, "-i");
    push_owned_arg(&mut args, req.url.clone());
    push_arg(&mut args, "-c:v");
    push_arg(&mut args, "copy");
    push_arg(&mut args, "-c:a");
    push_arg(&mut args, "aac");
    push_arg(&mut args, "-bsf:a");
    push_arg(&mut args, "aac_adtstoasc");
    push_arg(&mut args, "-movflags");
    push_arg(&mut args, "+faststart");
    push_owned_arg(&mut args, m3u8_output(req));
    proof {
        assert(args.deep_view() =~= m3u8_argv(*req));
    }
    args
}

// ── Choosing the tool ─────────────────────────────────────────────────────

/// The URL is taken for an M3U8 stream, which ffmpeg downloads.
pub open spec fn is_stream_url(url: Seq<char>) -> bool {
    stream_kind(lowercase(url)) == "m3u8"@
}

/// The log line that names an output path.
pub open spec fn output_note_text(out: Seq<char>) -> Seq<char> {
    "Output → "@ + out
}

/// The log line that names an output path.
pub fn output_note(out: &str) -> (r: String)
    ensures
        r@ == output_note_text(out@),
{
    let mut r = String::from_str("Output → ");
    push_text(&mut r, out);
    r
}

/// How a download runs: the program, the log lines to show before it
/// starts, and its arguments.
pub struct DownloadPlan {
    pub program: String,
    pub notes: Vec<String>,
    pub args: Vec<String>,
}

/// Whether starting this download needs to know which JavaScript runtime is
/// installed: only yt-dlp downloads that log in do.
pub fn needs_js_runtime(req: &DownloadRequest) -> (r: bool)
    ensures
        r == (!is_stream_url(req.url@) && uses_auth(*req)),
{
    let kind = detect_type(req.url.clone());
    !same_text(kind.as_str(), "m3u8") && request_uses_auth(req)
}

/// The plan for a download: ffmpeg for M3U8 streams, yt-dlp for the rest.
pub fn plan_download(req: &DownloadRequest, js: JsRuntime) -> (p: DownloadPlan)
    ensures
        is_stream_url(req.url@) ==> {
            &&& p.program@ == "ffmpeg"@
            &&& p.notes.deep_view() == seq![
                "Detected M3U8 stream - using ffmpeg…"@,
                output_note_text(m3u8_output_path(*req)),
            ]
            &&& p.args.deep_view() == m3u8_argv(*req)
        },
        !is_stream_url(req.url@) ==> {
            &&& p.program@ == "yt-dlp"@
            &&& p.notes.deep_view() == seq!["Starting yt-dlp…"@]
            &&& p.args.deep_view() == download_argv(*req, js)
        },
{
    let kind = detect_type(req.url.clone());
    let mut notes: Vec<String> = Vec::new();
    if same_text(kind.as_str(), "m3u8") {
        push_arg(&mut notes, "Detected M3U8 stream - using ffmpeg…");
        let out = m3u8_output(req);
        push_owned_arg(&mut notes, output_note(out.as_str()));
        proof {
            assert(notes.deep_view() =~= seq![
                "Detected M3U8 stream - using ffmpeg…"@,
                output_note_text(m3u8_output_path(*req)),
            ]);
        }
        DownloadPlan { program: String::from_str("ffmpeg"), notes, args: m3u8_args(req) }
    } else {
        push_arg(&mut notes, "Starting yt-dlp…");
        proof {
            assert(notes.deep_view() =~= seq!["Starting yt-dlp…"@]);
        }
        DownloadPlan {
            program: String::from_str("yt-dlp"),
            notes,
            args: ytdlp_download_args(req, js),
        }
    }
}

// ── Playlist listings ─────────────────────────────────────────────────────

/// The yt-dlp command line that lists the playlist at `url` as one JSON
/// document, without fetching the videos themselves.
pub open spec fn listing_argv(
    mode: Seq<char>,
    browser: Seq<char>,
    cookies_file: Seq<char>,
    url: Seq<char>,
) -> Seq<Seq<char>> {
    seq!["--flat-playlist"@, "--dump-single-json"@, "--no-warnings"@] + auth_args(
        mode,
        browser,
        cookies_file,
    ) + seq![url]
}

fn listing_args(mode: &str, browser: &str, cookies_file: &str, url: String) -> (r: Vec<String>)
    ensures
        r.deep_view() == listing_argv(mode@, browser@, cookies_file@, url@),
{
    let mut args: Vec<String> = Vec::new();
    push_arg(&mut args, "--flat-playlist");
    push_arg(&mut args, "--dump-single-json");
    push_arg(&mut args, "--no-warnings");
    append_auth_args(&mut args, mode, browser, cookies_file);
    push_owned_arg(&mut args, url);
    proof {
        assert(args.deep_view() =~= listing_argv(mode@, browser@, cookies_file@, url@));
    }
    args
}

/// The command line that lists the playlists of the signed-in user.
pub fn playlists_listing_args(mode: &str, browser: &str, cookies_file: &str) -> (r: Vec<String>)
    ensures
        r.deep_view() == listing_argv(
            mode@,
            browser@,
            cookies_file@,
            "https://www.youtube.com/feed/playlists"@,
        ),
{
    listing_args(mode, browser, cookies_file, String::from_str("https://www.youtube.com/feed/playlists"))
}

/// The command line that lists the videos of one playlist.
pub fn playlist_videos_args(playlist_id: &str, mode: &str, browser: &str, cookies_file: &str) -> (r:
    Vec<String>)
    ensures
        r.deep_view() == listing_argv(
            mode@,
            browser@,
            cookies_file@,
            "https://www.youtube.com/playlist?list="@ + playlist_id@,
        ),
{
    let mut url = String::from_str("https://www.youtube.com/playlist?list=");
    push_text(&mut url, playlist_id);
    listing_args(mode, browser, cookies_file, url)
}

} // verus!
