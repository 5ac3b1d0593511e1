use opticalcortex::storage::{cookies_dir_parts, Platform};
use opticalcortex::convert::{convert_output_name, convert_output_path, ffmpeg_convert_args, ConvertRequest};
use opticalcortex::ytdlp::{
    append_auth_args, detect_type, format_to_ytdlp_format, m3u8_args, m3u8_output,
    needs_js_runtime, output_note, plan_download, playlist_videos_args, playlists_listing_args,
    stream_kind_of_lowercased, ytdlp_download_args, ytdlp_output_template, DownloadRequest,
    JsRuntime,
};

fn strings(v: &[&str]) -> Vec<String> {
    v.iter().map(|s| s.to_string()).collect()
}

#[test]
fn quality_presets_map_to_selectors() {
    assert_eq!(format_to_ytdlp_format("best"), "bestvideo+bestaudio/best");
    assert_eq!(
        format_to_ytdlp_format("1080p"),
        "bestvideo[height<=1080]+bestaudio/best[height<=1080]"
    );
    assert_eq!(format_to_ytdlp_format("720p"), "bestvideo[height<=720]+bestaudio/best[height<=720]");
    assert_eq!(format_to_ytdlp_format("480p"), "bestvideo[height<=480]+bestaudio/best[height<=480]");
    assert_eq!(format_to_ytdlp_format("360p"), "bestvideo[height<=360]+bestaudio/best[height<=360]");
    assert_eq!(format_to_ytdlp_format("audio_mp3"), "bestaudio/best");
    assert_eq!(format_to_ytdlp_format("audio_m4a"), "bestaudio[ext=m4a]/bestaudio/best");
    assert_eq!(format_to_ytdlp_format("worst[height>=144]"), "worst[height>=144]");
    assert_eq!(format_to_ytdlp_format("Best"), "Best");
}

#[test]
fn quality_mapping_is_idempotent() {
    for q in ["best", "1080p", "720p", "480p", "360p", "audio_mp3", "audio_m4a", "other", ""] {
        let once = format_to_ytdlp_format(q);
        assert_eq!(format_to_ytdlp_format(&once), once);
    }
}

#[test]
fn login_arguments_by_mode() {
    let mut args = strings(&["x"]);
    append_auth_args(&mut args, "browser", "firefox", "/c.txt");
    assert_eq!(args, strings(&["x", "--cookies-from-browser", "firefox"]));
    let mut args = Vec::new();
    append_auth_args(&mut args, "cookies_file", "firefox", "/c.txt");
    assert_eq!(args, strings(&["--cookies", "/c.txt"]));
    let mut args = strings(&["y"]);
    append_auth_args(&mut args, "browser", "", "/c.txt");
    append_auth_args(&mut args, "cookies_file", "chrome", "");
    append_auth_args(&mut args, "none", "chrome", "/c.txt");
    append_auth_args(&mut args, "Browser", "chrome", "/c.txt");
    assert_eq!(args, strings(&["y"]));
}

#[test]
fn stream_detection_ignores_case() {
    assert_eq!(detect_type("https://cdn.example.com/live/INDEX.M3U8?t=1".to_string()), "m3u8");
    assert_eq!(detect_type("https://example.com/hls/m3u8/abc".to_string()), "m3u8");
    assert_eq!(detect_type("https://www.youtube.com/watch?v=x".to_string()), "ytdlp");
    assert_eq!(detect_type(String::new()), "ytdlp");
    assert_eq!(stream_kind_of_lowercased("a.m3u8"), "m3u8");
    assert_eq!(stream_kind_of_lowercased("A.M3U8"), "ytdlp");
}

fn request() -> DownloadRequest {
    DownloadRequest {
        url: "https://www.youtube.com/watch?v=abc".to_string(),
        output_dir: "/home/u/Videos".to_string(),
        quality: "720p".to_string(),
        filename: String::new(),
        subtitles: false,
        embed_thumbnail: false,
        no_playlist: false,
        auth_mode: "none".to_string(),
        auth_browser: String::new(),
        cookies_file: String::new(),
    }
}

#[test]
fn output_templates() {
    let mut r = request();
    assert_eq!(
        ytdlp_output_template(&r),
        "/home/u/Videos/%(playlist_title)s/%(playlist_index)s - %(title).80s.%(ext)s"
    );
    r.no_playlist = true;
    assert_eq!(ytdlp_output_template(&r), "/home/u/Videos/%(title).100s.%(ext)s");
    r.filename = "  my clip ".to_string();
    assert_eq!(ytdlp_output_template(&r), "/home/u/Videos/my clip.%(ext)s");
}

#[test]
fn download_without_login_uses_ios_client() {
    let r = request();
    assert_eq!(
        ytdlp_download_args(&r, JsRuntime::Node),
        strings(&[
            "--newline",
            "--no-colors",
            "-f",
            "bestvideo[height<=720]+bestaudio/best[height<=720]",
            "--merge-output-format",
            "mp4",
            "-o",
            "/home/u/Videos/%(playlist_title)s/%(playlist_index)s - %(title).80s.%(ext)s",
            "--extractor-args",
            "youtube:player_client=ios,web",
            "https://www.youtube.com/watch?v=abc",
        ])
    );
    assert!(!needs_js_runtime(&r));
}

#[test]
fn download_with_login_and_every_option() {
    let mut r = request();
    r.quality = "audio_mp3".to_string();
    r.filename = "song".to_string();
    r.subtitles = true;
    r.embed_thumbnail = true;
    r.no_playlist = true;
    r.auth_mode = "browser".to_string();
    r.auth_browser = "firefox".to_string();
    assert!(needs_js_runtime(&r));
    assert_eq!(
        ytdlp_download_args(&r, JsRuntime::Deno),
        strings(&[
            "--newline",
            "--no-colors",
            "-f",
            "bestaudio/best",
            "--merge-output-format",
            "mp4",
            "-o",
            "/home/u/Videos/song.%(ext)s",
            "--js-runtimes",
            "deno",
            "--no-playlist",
            "--write-subs",
            "--write-auto-subs",
            "--sub-format",
            "srt",
            "--embed-thumbnail",
            "-x",
            "--audio-format",
            "mp3",
            "--audio-quality",
            "192K",
            "--cookies-from-browser",
            "firefox",
            "https://www.youtube.com/watch?v=abc",
        ])
    );
    r.quality = "audio_m4a".to_string();
    r.auth_mode = "cookies_file".to_string();
    r.cookies_file = "/c.txt".to_string();
    let args = ytdlp_download_args(&r, JsRuntime::Missing);
    assert_eq!(&args[8..], &strings(&[
        "--no-playlist",
        "--write-subs",
        "--write-auto-subs",
        "--sub-format",
        "srt",
        "--embed-thumbnail",
        "-x",
        "--audio-format",
        "m4a",
        "--cookies",
        "/c.txt",
        "https://www.youtube.com/watch?v=abc",
    ])[..]);
    let node = ytdlp_download_args(&r, JsRuntime::Node);
    assert_eq!(&node[8..10], &strings(&["--js-runtimes", "node"])[..]);
}

#[test]
fn empty_auth_mode_counts_as_no_login() {
    let mut r = request();
    r.auth_mode = String::new();
    let args = ytdlp_download_args(&r, JsRuntime::Missing);
    assert_eq!(args[8], "--extractor-args");
}

#[test]
fn m3u8_streams_go_to_ffmpeg() {
    let mut r = request();
    r.url = "https://cdn.example.com/live.m3u8".to_string();
    assert_eq!(m3u8_output(&r), "/home/u/Videos/stream_output.mp4");
    r.filename = " show ".to_string();
    assert_eq!(m3u8_output(&r), "/home/u/Videos/show.mp4");
    assert_eq!(
        m3u8_args(&r),
        strings(&[
            "-y",
            "-loglevel",
            "info",
            "-stats",
            "-i",
            "https://cdn.example.com/live.m3u8",
            "-c:v",
            "copy",
            "-c:a",
            "aac",
            "-bsf:a",
            "aac_adtstoasc",
            "-movflags",
            "+faststart",
            "/home/u/Videos/show.mp4",
        ])
    );
    r.auth_mode = "browser".to_string();
    assert!(!needs_js_runtime(&r));
    let plan = plan_download(&r, JsRuntime::Missing);
    assert_eq!(plan.program, "ffmpeg");
    assert_eq!(
        plan.notes,
        strings(&["Detected M3U8 stream - using ffmpeg…", "Output → /home/u/Videos/show.mp4"])
    );
    assert_eq!(plan.args, m3u8_args(&r));
}

#[test]
fn other_urls_go_to_ytdlp() {
    let r = request();
    let plan = plan_download(&r, JsRuntime::Missing);
    assert_eq!(plan.program, "yt-dlp");
    assert_eq!(plan.notes, strings(&["Starting yt-dlp…"]));
    assert_eq!(plan.args, ytdlp_download_args(&r, JsRuntime::Missing));
    assert_eq!(output_note("/x.mp4"), "Output → /x.mp4");
}

#[test]
fn listing_command_lines() {
    assert_eq!(
        playlists_listing_args("browser", "chrome", ""),
        strings(&[
            "--flat-playlist",
            "--dump-single-json",
            "--no-warnings",
            "--cookies-from-browser",
            "chrome",
            "https://www.youtube.com/feed/playlists",
        ])
    );
    assert_eq!(
        playlist_videos_args("PL123", "none", "", ""),
        strings(&[
            "--flat-playlist",
            "--dump-single-json",
            "--no-warnings",
            "https://www.youtube.com/playlist?list=PL123",
        ])
    );
}

fn conversion(format: &str, quality: &str) -> ConvertRequest {
    ConvertRequest {
        input_path: "/in/clip.mov".to_string(),
        output_dir: "/out".to_string(),
        output_format: format.to_string(),
        video_quality: quality.to_string(),
    }
}

#[test]
fn conversion_to_mp4_at_high_quality() {
    assert_eq!(
        ffmpeg_convert_args(&conversion("mp4", "high"), "/out/clip.mp4"),
        Ok(strings(&[
            "-y", "-i", "/in/clip.mov", "-c:v", "libx264", "-preset", "fast", "-crf", "18", "-c:a",
            "aac", "-b:a", "320k", "-movflags", "+faststart", "/out/clip.mp4",
        ]))
    );
    assert_eq!(
        ffmpeg_convert_args(&conversion("mkv", "medium"), "o.mkv"),
        Ok(strings(&[
            "-y", "-i", "/in/clip.mov", "-c:v", "libx264", "-preset", "fast", "-crf", "23", "-c:a",
            "aac", "-b:a", "192k", "o.mkv",
        ]))
    );
}

#[test]
fn conversion_to_webm_gif_and_audio() {
    assert_eq!(
        ffmpeg_convert_args(&conversion("webm", "low"), "o.webm"),
        Ok(strings(&[
            "-y", "-i", "/in/clip.mov", "-c:v", "libvpx-vp9", "-crf", "38", "-b:v", "0", "-c:a",
            "libopus", "-b:a", "128k", "o.webm",
        ]))
    );
    assert_eq!(
        ffmpeg_convert_args(&conversion("gif", "high"), "o.gif"),
        Ok(strings(&["-y", "-i", "/in/clip.mov", "-vf", "fps=15,scale=480:-1:flags=lanczos", "-loop", "0", "o.gif"]))
    );
    assert_eq!(
        ffmpeg_convert_args(&conversion("mp3", "low"), "o.mp3"),
        Ok(strings(&["-y", "-i", "/in/clip.mov", "-vn", "-c:a", "libmp3lame", "-b:a", "128k", "o.mp3"]))
    );
    assert_eq!(
        ffmpeg_convert_args(&conversion("aac", "x"), "o.aac"),
        Ok(strings(&["-y", "-i", "/in/clip.mov", "-vn", "-c:a", "aac", "-b:a", "192k", "o.aac"]))
    );
    assert_eq!(
        ffmpeg_convert_args(&conversion("wav", "high"), "o.wav"),
        Ok(strings(&["-y", "-i", "/in/clip.mov", "-vn", "-c:a", "pcm_s16le", "o.wav"]))
    );
    assert_eq!(
        ffmpeg_convert_args(&conversion("flac", "high"), "o.flac"),
        Ok(strings(&["-y", "-i", "/in/clip.mov", "-vn", "-c:a", "flac", "o.flac"]))
    );
    assert_eq!(
        ffmpeg_convert_args(&conversion("opus", "high"), "o.opus"),
        Ok(strings(&["-y", "-i", "/in/clip.mov", "-vn", "-c:a", "libopus", "-b:a", "320k", "o.opus"]))
    );
    assert_eq!(ffmpeg_convert_args(&conversion("avi", "low"), "o.avi").unwrap()[8], "28");
    assert_eq!(ffmpeg_convert_args(&conversion("m4a", "low"), "o.m4a").unwrap()[7], "128k");
}

#[test]
fn unsupported_conversion_format_is_refused() {
    assert_eq!(
        ffmpeg_convert_args(&conversion("MP4", "high"), "o"),
        Err("Unsupported output format: MP4".to_string())
    );
    assert_eq!(
        ffmpeg_convert_args(&conversion("", "high"), "o"),
        Err("Unsupported output format: ".to_string())
    );
}

#[test]
fn conversion_output_path() {
    assert_eq!(convert_output_name(Some("clip".to_string()), "mp4"), "clip.mp4");
    assert_eq!(convert_output_name(None, "gif"), "output.gif");
    let out = convert_output_path(&conversion("mp4", "high"));
    assert!(out.ends_with(".mp4"));
    assert_eq!(std::path::Path::new(&out), std::path::Path::new("/out").join("clip.mp4"));
    let mut no_stem = conversion("mp3", "low");
    no_stem.input_path = String::new();
    let out = convert_output_path(&no_stem);
    assert_eq!(std::path::Path::new(&out), std::path::Path::new("/out").join("output.mp3"));
}

#[test]
fn conversion_output_path_follows_the_input_stem() {
    let with_input = |input: &str, format: &str| {
        let mut r = conversion(format, "high");
        r.input_path = input.to_string();
        convert_output_path(&r)
    };
    assert_eq!(with_input("/in/.hidden", "mp3"), "/out/.hidden.mp3");
    assert_eq!(with_input("/in/a.b.c/./", "mp4"), "/out/a.b.mp4");
    assert_eq!(with_input("/in/..", "mp4"), "/out/output.mp4");
    assert_eq!(with_input("clip", "gif"), "/out/clip.gif");
    let mut r = conversion("mp4", "high");
    r.output_dir = "/out/".to_string();
    assert_eq!(convert_output_path(&r), "/out/clip.mp4");
    r.output_dir = String::new();
    assert_eq!(convert_output_path(&r), "clip.mp4");
}

#[test]
fn conversion_output_path_puts_one_separator_after_the_folder() {
    let mut r = conversion("mp3", "low");
    r.output_dir = "/music".to_string();
    let out = convert_output_path(&r);
    let sep = std::path::MAIN_SEPARATOR;
    assert_eq!(out, format!("/music{}clip.mp3", sep));
    assert_ne!(out, "/musicclip.mp3");
}

#[test]
fn conversion_output_path_keeps_a_windows_style_stem() {
    let mut r = conversion("mp3", "high");
    r.input_path = "C:\\videos\\clip.mp4".to_string();
    let out = convert_output_path(&r);
    assert!(out.ends_with("clip.mp3"));
    assert!(out.starts_with("/out"));
}

#[test]
fn cookie_folder_by_platform_and_environment() {
    let s = |v: &str| Some(v.to_string());
    assert_eq!(
        cookies_dir_parts(Platform::Windows, s("C:\\Users\\a\\AppData\\Roaming"), s("/x"), s("/h")),
        strings(&["C:\\Users\\a\\AppData\\Roaming", "OpticalCortex"])
    );
    assert_eq!(cookies_dir_parts(Platform::Windows, None, s("/x"), s("/h")), strings(&["."]));
    assert_eq!(
        cookies_dir_parts(Platform::MacOs, None, s("/x"), s("/Users/a")),
        strings(&["/Users/a", "Library", "Application Support", "OpticalCortex"])
    );
    assert_eq!(cookies_dir_parts(Platform::MacOs, None, s("/x"), None), strings(&["/x", "OpticalCortex"]));
    assert_eq!(
        cookies_dir_parts(Platform::Other, s("C:"), s("/home/a/.cfg"), s("/home/a")),
        strings(&["/home/a/.cfg", "OpticalCortex"])
    );
    assert_eq!(
        cookies_dir_parts(Platform::Other, None, None, s("/home/a")),
        strings(&["/home/a", ".config", "OpticalCortex"])
    );
    assert_eq!(cookies_dir_parts(Platform::Other, None, None, None), strings(&["."]));
}
