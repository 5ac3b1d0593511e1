//! ffmpeg command lines for converting a media file to another container or
//! audio format at a chosen quality.
use vstd::prelude::*;
use crate::text::{
    lemma_concat_avoids, lemma_part_avoids, lemma_split_avoids, push_text, same_text, split_char,
};
use crate::ytdlp::{push_arg, push_owned_arg};

verus! {

/// A conversion the user asked for.
#[derive(Clone, Debug)]
pub struct ConvertRequest {
    pub input_path: String,
    pub output_dir: String,
    /// mp4, mkv, webm, mov, avi, gif, mp3, m4a, aac, wav, flac or opus.
    pub output_format: String,
    /// high, medium or low (video formats only).
    pub video_quality: String,
}

/// The x264 constant rate factor for a quality.
pub open spec fn crf(quality: Seq<char>) -> Seq<char> {
    if quality == "high"@ {
        "18"@
    } else if quality == "low"@ {
        "28"@
    } else {
        "23"@
    }
}

/// The VP9 constant rate factor for a quality.
pub open spec fn crf_vp9(quality: Seq<char>) -> Seq<char> {
    if quality == "high"@ {
        "24"@
    } else if quality == "low"@ {
        "38"@
    } else {
        "31"@
    }
}

/// The audio bit rate for a quality.
pub open spec fn audio_bitrate(quality: Seq<char>) -> Seq<char> {
    if quality == "high"@ {
        "320k"@
    } else if quality == "low"@ {
        "128k"@
    } else {
        "192k"@
    }
}

/// The x264 + AAC codec arguments shared by mp4, mov, avi and mkv.
pub open spec fn h264_args(quality: Seq<char>) -> Seq<Seq<char>> {
    seq![
        "-c:v"@,
        "libx264"@,
        "-preset"@,
        "fast"@,
        "-crf"@,
        crf(quality),
        "-c:a"@,
        "aac"@,
        "-b:a"@,
        audio_bitrate(quality),
    ]
}

/// The codec arguments for an output format, or `None` for a format that is
/// not supported.
pub open spec fn codec_args(format: Seq<char>, quality: Seq<char>) -> Option<Seq<Seq<char>>> {
    if format == "mp4"@ {
        Some(h264_args(quality) + seq!["-movflags"@, "+faststart"@])
    } else if format == "mov"@ || format == "avi"@ || format == "mkv"@ {
        Some(h264_args(quality))
    } else if format == "webm"@ {
        Some(
            seq![
                "-c:v"@,
                "libvpx-vp9"@,
                "-crf"@,
                crf_vp9(quality),
                "-b:v"@,
                "0"@,
                "-c:a"@,
                "libopus"@,
                "-b:a"@,
                "128k"@,
            ],
        )
    } else if format == "gif"@ {
        Some(seq!["-vf"@, "fps=15,scale=480:-1:flags=lanczos"@, "-loop"@, "0"@])
    } else if format == "mp3"@ {
        Some(seq!["-vn"@, "-c:a"@, "libmp3lame"@, "-b:a"@, audio_bitrate(quality)])
    } else if format == "m4a"@ || format == "aac"@ {
        Some(seq!["-vn"@, "-c:a"@, "aac"@, "-b:a"@, audio_bitrate(quality)])
    } else if format == "wav"@ {
        Some(seq!["-vn"@, "-c:a"@, "pcm_s16le"@])
    } else if format == "flac"@ {
        Some(seq!["-vn"@, "-c:a"@, "flac"@])
    } else if format == "opus"@ {
        Some(seq!["-vn"@, "-c:a"@, "libopus"@, "-b:a"@, audio_bitrate(quality)])
    } else {
        None
    }
}

/// The ffmpeg command line converting `input` to `out`, or the error for an
/// unsupported format.
pub open spec fn convert_argv(
    input: Seq<char>,
    format: Seq<char>,
    quality: Seq<char>,
    out: Seq<char>,
) -> Result<Seq<Seq<char>>, Seq<char>> {
    match codec_args(format, quality) {
        Some(codec) => Ok(seq!["-y"@, "-i"@, input] + codec + seq![out]),
        None => Err("Unsupported output format: "@ + format),
    }
}

fn quality_pick(quality: &str, high: &'static str, low: &'static str, medium: &'static str) -> (r:
    &'static str)
    ensures
        r@ == (if quality@ == "high"@ {
            high@
        } else if quality@ == "low"@ {
            low@
        } else {
            medium@
        }),
{
    if same_text(quality, "high") {
        high
    } else if same_text(quality, "low") {
        low
    } else {
        medium
    }
}

fn append_h264(args: &mut Vec<String>, quality: &str)
    ensures
        final(args).deep_view() == old(args).deep_view() + h264_args(quality@),
{
    push_arg(args, "-c:v");
    push_arg(args, "libx264");
    push_arg(args, "-preset");
    push_arg(args, "fast");
    push_arg(args, "-crf");
    push_arg(args, quality_pick(quality, "18", "28", "23"));
    push_arg(args, "-c:a");
    push_arg(args, "aac");
    push_arg(args, "-b:a");
    push_arg(args, quality_pick(quality, "320k", "128k", "192k"));
    proof {
        assert(final(args).deep_view() =~= old(args).deep_view() + h264_args(quality@));
    }
}

/// Appends the codec arguments for the format; false when the format is
/// not supported (the list is then unchanged).
fn append_codec_args(args: &mut Vec<String>, format: &str, quality: &str) -> (ok: bool)
    ensures
        ok == codec_args(format@, quality@) is Some,
        ok ==> final(args).deep_view() == old(args).deep_view() + codec_args(
            format@,
            quality@,
        )->0,
        !ok ==> final(args).deep_view() == old(args).deep_view(),
{
    let ghost start = args.deep_view();
    let abr = quality_pick(quality, "320k", "128k", "192k");
    if same_text(format, "mp4") {
        append_h264(args, quality);
        push_arg(args, "-movflags");
        push_arg(args, "+faststart");
    } else if same_text(format, "mov") || same_text(format, "avi") || same_text(format, "mkv") {
        append_h264(args, quality);
    } else if same_text(format, "webm") {
        push_arg(args, "-c:v");
        push_arg(args, "libvpx-vp9");
        push_arg(args, "-crf");
        push_arg(args, quality_pick(quality, "24", "38", "31"));
        push_arg(args, "-b:v");
        push_arg(args, "0");
        push_arg(args, "-c:a");
        push_arg(args, "libopus");
        push_arg(args, "-b:a");
        push_arg(args, "128k");
    } else if same_text(format, "gif") {
        push_arg(args, "-vf");
        push_arg(args, "fps=15,scale=480:-1:flags=lanczos");
        push_arg(args, "-loop");
        push_arg(args, "0");
    } else if same_text(format, "mp3") {
        push_arg(args, "-vn");
        push_arg(args, "-c:a");
        push_arg(args, "libmp3lame");
        push_arg(args, "-b:a");
        push_arg(args, abr);
    } else if same_text(format, "m4a") || same_text(format, "aac") {
        push_arg(args, "-vn");
        push_arg(args, "-c:a");
        push_arg(args, "aac");
        push_arg(args, "-b:a");
        push_arg(args, abr);
    } else if same_text(format, "wav") {
        push_arg(args, "-vn");
        push_arg(args, "-c:a");
        push_arg(args, "pcm_s16le");
    } else if same_text(format, "flac") {
        push_arg(args, "-vn");
        push_arg(args, "-c:a");
        push_arg(args, "flac");
    } else if same_text(format, "opus") {
        push_arg(args, "-vn");
        push_arg(args, "-c:a");
        push_arg(args, "libopus");
        push_arg(args, "-b:a");
        push_arg(args, abr);
    } else {
        return false;
    }
    proof {
        assert(final(args).deep_view() =~= start + codec_args(format@, quality@)->0);
    }
    true
}

/// The ffmpeg command line for a conversion writing to `out`.
pub fn ffmpeg_convert_args(req: &ConvertRequest, out: &str) -> (r: Result<Vec<String>, String>)
    ensures
        match convert_argv(
            req.input_path@,
            req.output_format@,
            req.video_quality@,
            out@,
        ) {
            Ok(argv) => r matches Ok(args) && args.deep_view() == argv,
            Err(e) => r matches Err(m) && m@ == e,
        },
{
    let mut args: Vec<String> = Vec::new();
    push_arg(&mut args, "-y");
    push_arg(&mut args, "-i");
    push_owned_arg(&mut args, req.input_path.clone());
    let ghost head = args.deep_view();
    if !append_codec_args(&mut args, req.output_format.as_str(), req.video_quality.as_str()) {
        let mut m = String::from_str("Unsupported output format: ");
        push_text(&mut m, req.output_format.as_str());
        return Err(m);
    }
    push_arg(&mut args, out);
    proof {
        let codec = codec_args(req.output_format@, req.video_quality@)->0;
        assert(args.deep_view() =~= seq!["-y"@, "-i"@, req.input_path@] + codec + seq![out@]);
    }
    Ok(args)
}

/// A conversion reads its input first and writes its output last, and is
/// refused exactly for the formats outside the supported list.
pub proof fn lemma_convert_argv_shape(
    input: Seq<char>,
    format: Seq<char>,
    quality: Seq<char>,
    out: Seq<char>,
)
    ensures
        convert_argv(input, format, quality, out) is Ok <==> (format == "mp4"@ || format == "mov"@
            || format == "avi"@ || format == "mkv"@ || format == "webm"@ || format == "gif"@
            || format == "mp3"@ || format == "m4a"@ || format == "aac"@ || format == "wav"@
            || format == "flac"@ || format == "opus"@),
        convert_argv(input, format, quality, out) matches Ok(argv) ==> argv[0] == "-y"@
            && argv[1] == "-i"@ && argv[2] == input && argv.last() == out,
{
}

/// The names of the supported formats differ in their first three
/// characters.
proof fn lemma_format_names()
    ensures
        "mp4"@.len() == 3 && "mp4"@[0] == 'm' && "mp4"@[1] == 'p' && "mp4"@[2] == '4',
        "mov"@.len() == 3 && "mov"@[0] == 'm' && "mov"@[1] == 'o' && "mov"@[2] == 'v',
        "avi"@.len() == 3 && "avi"@[0] == 'a' && "avi"@[1] == 'v' && "avi"@[2] == 'i',
        "mkv"@.len() == 3 && "mkv"@[0] == 'm' && "mkv"@[1] == 'k' && "mkv"@[2] == 'v',
        "webm"@.len() == 4 && "webm"@[0] == 'w' && "webm"@[1] == 'e' && "webm"@[2] == 'b',
        "gif"@.len() == 3 && "gif"@[0] == 'g' && "gif"@[1] == 'i' && "gif"@[2] == 'f',
        "mp3"@.len() == 3 && "mp3"@[0] == 'm' && "mp3"@[1] == 'p' && "mp3"@[2] == '3',
        "m4a"@.len() == 3 && "m4a"@[0] == 'm' && "m4a"@[1] == '4' && "m4a"@[2] == 'a',
        "aac"@.len() == 3 && "aac"@[0] == 'a' && "aac"@[1] == 'a' && "aac"@[2] == 'c',
        "wav"@.len() == 3 && "wav"@[0] == 'w' && "wav"@[1] == 'a' && "wav"@[2] == 'v',
        "flac"@.len() == 4 && "flac"@[0] == 'f' && "flac"@[1] == 'l' && "flac"@[2] == 'a',
        "opus"@.len() == 4 && "opus"@[0] == 'o' && "opus"@[1] == 'p' && "opus"@[2] == 'u',
{
    reveal_strlit("mp4");
    reveal_strlit("mov");
    reveal_strlit("avi");
    reveal_strlit("mkv");
    reveal_strlit("webm");
    reveal_strlit("gif");
    reveal_strlit("mp3");
    reveal_strlit("m4a");
    reveal_strlit("aac");
    reveal_strlit("wav");
    reveal_strlit("flac");
    reveal_strlit("opus");
}

/// The codecs of each supported format, by quality (`high`, `low`, and any
/// other text for medium): mp4, mov, avi and mkv encode H.264 (x264, preset
/// fast, CRF 18 / 23 / 28) with AAC audio at 320k / 192k / 128k, mp4 also
/// moving its index to the front; webm encodes VP9 (CRF 24 / 31 / 38, no
/// bit-rate cap) with Opus at 128k; gif keeps 15 frames a second at 480
/// pixels wide and loops; mp3, m4a, aac and opus drop the video and encode
/// the audio at the quality's bit rate; wav and flac drop the video and
/// encode the audio losslessly.
pub proof fn lemma_conversion_codecs(
    input: Seq<char>,
    format: Seq<char>,
    quality: Seq<char>,
    out: Seq<char>,
)
    ensures
        ({
            let x264_crf = if quality == "high"@ {
                "18"@
            } else if quality == "low"@ {
                "28"@
            } else {
                "23"@
            };
            let abr = if quality == "high"@ {
                "320k"@
            } else if quality == "low"@ {
                "128k"@
            } else {
                "192k"@
            };
            let vp9_crf = if quality == "high"@ {
                "24"@
            } else if quality == "low"@ {
                "38"@
            } else {
                "31"@
            };
            let h264 = seq![
                "-c:v"@,
                "libx264"@,
                "-preset"@,
                "fast"@,
                "-crf"@,
                x264_crf,
                "-c:a"@,
                "aac"@,
                "-b:a"@,
                abr,
            ];
            let head = seq!["-y"@, "-i"@, input];
            &&& format == "mp4"@ ==> convert_argv(input, format, quality, out) == Ok::<
                Seq<Seq<char>>,
                Seq<char>,
            >(head + h264 + seq!["-movflags"@, "+faststart"@, out])
            &&& (format == "mov"@ || format == "avi"@ || format == "mkv"@) ==> convert_argv(
                input,
                format,
                quality,
                out,
            ) == Ok::<Seq<Seq<char>>, Seq<char>>(head + h264 + seq![out])
            &&& format == "webm"@ ==> convert_argv(input, format, quality, out) == Ok::<
                Seq<Seq<char>>,
                Seq<char>,
            >(
                head + seq![
                    "-c:v"@,
                    "libvpx-vp9"@,
                    "-crf"@,
                    vp9_crf,
                    "-b:v"@,
                    "0"@,
                    "-c:a"@,
                    "libopus"@,
                    "-b:a"@,
                    "128k"@,
                    out,
                ],
            )
            &&& format == "gif"@ ==> convert_argv(input, format, quality, out) == Ok::<
                Seq<Seq<char>>,
                Seq<char>,
            >(head + seq!["-vf"@, "fps=15,scale=480:-1:flags=lanczos"@, "-loop"@, "0"@, out])
            &&& format == "mp3"@ ==> convert_argv(input, format, quality, out) == Ok::<
                Seq<Seq<char>>,
                Seq<char>,
            >(head + seq!["-vn"@, "-c:a"@, "libmp3lame"@, "-b:a"@, abr, out])
            &&& (format == "m4a"@ || format == "aac"@) ==> convert_argv(
                input,
                format,
                quality,
                out,
            ) == Ok::<Seq<Seq<char>>, Seq<char>>(
                head + seq!["-vn"@, "-c:a"@, "aac"@, "-b:a"@, abr, out],
            )
            &&& format == "opus"@ ==> convert_argv(input, format, quality, out) == Ok::<
                Seq<Seq<char>>,
                Seq<char>,
            >(head + seq!["-vn"@, "-c:a"@, "libopus"@, "-b:a"@, abr, out])
            &&& format == "wav"@ ==> convert_argv(input, format, quality, out) == Ok::<
                Seq<Seq<char>>,
                Seq<char>,
            >(head + seq!["-vn"@, "-c:a"@, "pcm_s16le"@, out])
            &&& format == "flac"@ ==> convert_argv(input, format, quality, out) == Ok::<
                Seq<Seq<char>>,
                Seq<char>,
            >(head + seq!["-vn"@, "-c:a"@, "flac"@, out])
        }),
{
    let x264_crf = if quality == "high"@ {
        "18"@
    } else if quality == "low"@ {
        "28"@
    } else {
        "23"@
    };
    let abr = if quality == "high"@ {
        "320k"@
    } else if quality == "low"@ {
        "128k"@
    } else {
        "192k"@
    };
    let vp9_crf = if quality == "high"@ {
        "24"@
    } else if quality == "low"@ {
        "38"@
    } else {
        "31"@
    };
    let h264 = seq![
        "-c:v"@,
        "libx264"@,
        "-preset"@,
        "fast"@,
        "-crf"@,
        x264_crf,
        "-c:a"@,
        "aac"@,
        "-b:a"@,
        abr,
    ];
    let head = seq!["-y"@, "-i"@, input];
    lemma_format_names();
    assert(h264_args(quality) =~= h264);
    if let Some(codec) = codec_args(format, quality) {
        let argv = head + codec + seq![out];
        assert(convert_argv(input, format, quality, out) == Ok::<Seq<Seq<char>>, Seq<char>>(argv));
        if format == "mp4"@ {
            assert(argv =~= head + h264 + seq!["-movflags"@, "+faststart"@, out]);
        } else if format == "mov"@ || format == "avi"@ || format == "mkv"@ {
            assert(argv =~= head + h264 + seq![out]);
        } else if format == "webm"@ {
            assert(argv =~= head + seq![
                "-c:v"@,
                "libvpx-vp9"@,
                "-crf"@,
                vp9_crf,
                "-b:v"@,
                "0"@,
                "-c:a"@,
                "libopus"@,
                "-b:a"@,
                "128k"@,
                out,
            ]);
        } else if format == "gif"@ {
            assert(argv =~= head + seq![
                "-vf"@,
                "fps=15,scale=480:-1:flags=lanczos"@,
                "-loop"@,
                "0"@,
                out,
            ]);
        } else if format == "mp3"@ {
            assert(argv =~= head + seq!["-vn"@, "-c:a"@, "libmp3lame"@, "-b:a"@, abr, out]);
        } else if format == "m4a"@ || format == "aac"@ {
            assert(argv =~= head + seq!["-vn"@, "-c:a"@, "aac"@, "-b:a"@, abr, out]);
        } else if format == "wav"@ {
            assert(argv =~= head + seq!["-vn"@, "-c:a"@, "pcm_s16le"@, out]);
        } else if format == "flac"@ {
            assert(argv =~= head + seq!["-vn"@, "-c:a"@, "flac"@, out]);
        } else if format == "opus"@ {
            assert(argv =~= head + seq!["-vn"@, "-c:a"@, "libopus"@, "-b:a"@, abr, out]);
        }
    }
}

/// A higher quality never gets a higher constant rate factor (the lower,
/// the better), nor a lower audio bit rate: for H.264 18 < 23 < 28, for
/// VP9 24 < 31 < 38, and 320k > 192k > 128k, from high through medium to
/// low.
pub proof fn lemma_quality_order(input: Seq<char>, format: Seq<char>, out: Seq<char>)
    ensures
        (format == "mov"@ || format == "avi"@ || format == "mkv"@) ==> {
            &&& convert_argv(input, format, "high"@, out)->Ok_0[8] == "18"@
            &&& convert_argv(input, format, "medium"@, out)->Ok_0[8] == "23"@
            &&& convert_argv(input, format, "low"@, out)->Ok_0[8] == "28"@
            &&& convert_argv(input, format, "high"@, out)->Ok_0[12] == "320k"@
            &&& convert_argv(input, format, "medium"@, out)->Ok_0[12] == "192k"@
            &&& convert_argv(input, format, "low"@, out)->Ok_0[12] == "128k"@
        },
        format == "webm"@ ==> {
            &&& convert_argv(input, format, "high"@, out)->Ok_0[6] == "24"@
            &&& convert_argv(input, format, "medium"@, out)->Ok_0[6] == "31"@
            &&& convert_argv(input, format, "low"@, out)->Ok_0[6] == "38"@
        },
{
    reveal_strlit("high");
    reveal_strlit("medium");
    reveal_strlit("low");
    assert("high"@[0] == 'h' && "medium"@[0] == 'm' && "low"@[0] == 'l');
    lemma_conversion_codecs(input, format, "high"@, out);
    lemma_conversion_codecs(input, format, "medium"@, out);
    lemma_conversion_codecs(input, format, "low"@, out);
}

// ── Output path ───────────────────────────────────────────────────────────

/// A path that reads the same on every system: no `\\` (a separator on
/// Windows only), no `:` (a drive prefix on Windows), and no leading `//`
/// (a network prefix on Windows). Its separators are its `/`s.
pub open spec fn portable_path(p: Seq<char>) -> bool {
    !p.contains('\\') && !p.contains(':') && !(p.len() >= 2 && p[0] == '/' && p[1] == '/')
}

/// The pieces that name something, in order: empty pieces (repeated or
/// trailing separators) and `.` pieces are dropped, as path components
/// drop them.
pub open spec fn named_pieces(pieces: Seq<Seq<char>>) -> Seq<Seq<char>>
    decreases pieces.len(),
{
    if pieces.len() == 0 {
        Seq::empty()
    } else {
        let rest = named_pieces(pieces.drop_last());
        let x = pieces.last();
        if x.len() > 0 && x != seq!['.'] {
            rest.push(x)
        } else {
            rest
        }
    }
}

/// The file name of a portable path (`Path::file_name`): its last named
/// component, none when it has none or the last is `..`.
pub open spec fn file_name_of(p: Seq<char>) -> Option<Seq<char>> {
    let ns = named_pieces(split_char(p, '/'));
    if ns.len() == 0 || ns.last() == seq!['.', '.'] {
        None
    } else {
        Some(ns.last())
    }
}

/// The position of the last `.` in `s`.
pub open spec fn last_dot(s: Seq<char>) -> Option<int>
    decreases s.len(),
{
    if s.len() == 0 {
        None
    } else if s.last() == '.' {
        Some(s.len() - 1)
    } else {
        last_dot(s.drop_last())
    }
}

/// The stem of a file name: the text before its last `.`, or all of it
/// when it has no `.` or only a leading one.
pub open spec fn stem_of_name(name: Seq<char>) -> Seq<char> {
    match last_dot(name) {
        Some(i) => if i > 0 {
            name.take(i)
        } else {
            name
        },
        None => name,
    }
}

/// The stem of a portable path (`Path::file_stem`).
pub open spec fn file_stem_of(p: Seq<char>) -> Option<Seq<char>> {
    match file_name_of(p) {
        Some(n) => Some(stem_of_name(n)),
        None => None,
    }
}

/// The stem (file name without its extension) of a path, by
/// `std::path::Path::file_stem`, or `None` when the path has no file name
/// (converted from text, so nothing is lost). For a portable path it is as
/// the documentation of `file_name`, `components` and `file_stem` gives it:
/// the last component (separators repeated or trailing and `.` components
/// ignored; none when the last is `..` or there is none), before its last
/// `.` unless that `.` leads. Other paths read differently on Windows and
/// elsewhere, and nothing is stated of them.
///
/// On every system a path that does not start with two separators (a
/// network or device prefix on Windows) has as its file name a text that
/// ends with the part after its last `/` or `\\`; when that part has no `:`,
/// is not `..` and has a `.` after its first character, the stem ends with
/// the text before that part's last `.` (`tail_stem`).
#[verifier::external_body]
fn path_file_stem(path: &str) -> (r: Option<String>)
    ensures
        portable_path(path@) ==> match file_stem_of(path@) {
            Some(t) => r matches Some(s) && s@ == t,
            None => r is None,
        },
        match tail_stem(path@) {
            Some(t) => r matches Some(s) && ends_with(s@, t),
            None => true,
        },
{
    match std::path::Path::new(path).file_stem() {
        Some(stem) => Some(stem.to_string_lossy().into_owned()),
        None => None,
    }
}

/// `s` is a separator on some system: `/` everywhere, `\\` on Windows.
pub open spec fn is_separator(c: char) -> bool {
    c == '/' || c == '\\'
}

/// The part of `s` after its last `/` or `\\` (all of `s` when it has
/// none): the last component of a path on every system.
pub open spec fn last_component(s: Seq<char>) -> Seq<char>
    decreases s.len(),
{
    if s.len() == 0 {
        s
    } else if is_separator(s.last()) {
        Seq::empty()
    } else {
        last_component(s.drop_last()).push(s.last())
    }
}

/// `r` is `dir`, then nothing or one separator, then `name`.
pub open spec fn joined_in(r: Seq<char>, dir: Seq<char>, name: Seq<char>) -> bool {
    ||| r == dir + name
    ||| r == dir + seq!['/'] + name
    ||| r == dir + seq!['\\'] + name
}

/// `s` ends with `t`.
pub open spec fn ends_with(s: Seq<char>, t: Seq<char>) -> bool {
    t.len() <= s.len() && s.skip(s.len() - t.len()) == t
}

/// The text before the last `.` of a path's last component (the part after
/// its last `/` or `\\`), for a path that does not start with two separators
/// and whose last component has no `:`, is not `..`, and has that `.` after
/// its first character.
pub open spec fn tail_stem(p: Seq<char>) -> Option<Seq<char>> {
    let l = last_component(p);
    if (p.len() >= 2 && is_separator(p[0]) && is_separator(p[1])) || l == seq!['.', '.']
        || l.contains(':') {
        None
    } else {
        match last_dot(l) {
            Some(i) => if i > 0 {
                Some(l.take(i))
            } else {
                None
            },
            None => None,
        }
    }
}

/// A directory with a Windows verbatim prefix (`\\\\?\\`, either slash),
/// under which joining normalises the path.
pub open spec fn verbatim_prefix(d: Seq<char>) -> bool {
    d.len() >= 4 && is_separator(d[0]) && is_separator(d[1]) && d[2] == '?' && is_separator(d[3])
}

/// A name that joins as a plain relative component on every system: no
/// separator and no drive prefix.
pub open spec fn plain_name(n: Seq<char>) -> bool {
    !n.contains('/') && !n.contains('\\') && !n.contains(':')
}

/// A directory that is a bare drive such as `C:`, after which Windows adds
/// no separator.
pub open spec fn bare_drive(d: Seq<char>) -> bool {
    d.len() == 2 && d[1] == ':'
}

/// `dir` with `name` adjoined, by `std::path::Path::join`, as text (both
/// come from text, so the conversion back loses nothing). Joining extends
/// `dir` with `name`, or replaces it when `name` is absolute or has a
/// drive prefix, and on a verbatim Windows path drops `.` and `..`
/// components; whatever the system, the path then ends with the last
/// component of `name` unless that component is `.` or `..`. A plain
/// name on a directory without a verbatim prefix is appended (`PathBuf::push`):
/// after the directory comes nothing when it is empty, ends in a separator
/// of the system (`/` is one everywhere) or is a bare drive, and otherwise
/// the system's separator, `/` or `\\`; then the name.
#[verifier::external_body]
fn path_join(dir: &str, name: &str) -> (r: String)
    ensures
        last_component(name@) != seq!['.'] && last_component(name@) != seq!['.', '.']
            ==> ends_with(r@, last_component(name@)),
        plain_name(name@) && !verbatim_prefix(dir@) ==> joined_in(r@, dir@, name@),
        plain_name(name@) && !verbatim_prefix(dir@) && (dir@.len() == 0 || dir@.last() == '/')
            ==> r@ == dir@ + name@,
        plain_name(name@) && !verbatim_prefix(dir@) && dir@.len() > 0 && !is_separator(
            dir@.last(),
        ) && !bare_drive(dir@) ==> (r@ == dir@ + seq!['/'] + name@ || r@ == dir@ + seq!['\\']
            + name@),
{
    std::path::Path::new(dir).join(name).to_string_lossy().into_owned()
}

proof fn lemma_last_component_append(x: Seq<char>, y: Seq<char>)
    requires
        forall|i: int| 0 <= i < y.len() ==> !is_separator(#[trigger] y[i]),
    ensures
        last_component(x + y) == last_component(x) + y,
    decreases y.len(),
{
    if y.len() == 0 {
        assert(x + y =~= x);
        assert(last_component(x) + y =~= last_component(x));
    } else {
        let y1 = y.drop_last();
        assert forall|i: int| 0 <= i < y1.len() implies !is_separator(#[trigger] y1[i]) by {
            assert(y1[i] == y[i]);
        }
        lemma_last_component_append(x, y1);
        assert((x + y).drop_last() =~= x + y1);
        assert((x + y).last() == y.last());
        assert(!is_separator(y[y.len() - 1]));
        assert(last_component(x) + y =~= (last_component(x) + y1).push(y.last()));
    }
}

/// The file name of a conversion's output: the input's stem (or `output`
/// when it has none) with the new format as extension.
pub open spec fn output_file_name(stem: Option<Seq<char>>, format: Seq<char>) -> Seq<char> {
    match stem {
        Some(s) => s + seq!['.'] + format,
        None => "output"@ + seq!['.'] + format,
    }
}

/// The file name of a conversion's output for a given input stem.
pub fn convert_output_name(stem: Option<String>, format: &str) -> (r: String)
    ensures
        r@ == output_file_name(
            match stem {
                Some(s) => Some(s@),
                None => None,
            },
            format@,
        ),
{
    let mut r = match stem {
        Some(s) => s,
        None => String::from_str("output"),
    };
    r.push('.');
    push_text(&mut r, format);
    r
}

proof fn lemma_named_pieces_avoid(ps: Seq<Seq<char>>, x: char)
    requires
        forall|k: int| 0 <= k < ps.len() ==> !(#[trigger] ps[k]).contains(x),
    ensures
        forall|k: int|
            0 <= k < named_pieces(ps).len() ==> !(#[trigger] named_pieces(ps)[k]).contains(x),
    decreases ps.len(),
{
    if ps.len() > 0 {
        let init = ps.drop_last();
        assert forall|k: int| 0 <= k < init.len() implies !(#[trigger] init[k]).contains(x) by {
            assert(init[k] == ps[k]);
        }
        lemma_named_pieces_avoid(init, x);
        let all = named_pieces(ps);
        let rest = named_pieces(init);
        assert forall|k: int| 0 <= k < all.len() implies !(#[trigger] all[k]).contains(x) by {
            if k < rest.len() {
                assert(all[k] == rest[k]);
            } else {
                assert(all[k] == ps.last());
            }
        }
    }
}

proof fn lemma_last_dot(s: Seq<char>)
    ensures
        last_dot(s) matches Some(i) ==> 0 <= i < s.len(),
    decreases s.len(),
{
    if s.len() > 0 && s.last() != '.' {
        lemma_last_dot(s.drop_last());
    }
}

proof fn lemma_stem_avoids(input: Seq<char>, x: char)
    requires
        !input.contains(x),
        x != '/',
    ensures
        file_stem_of(input) matches Some(t) ==> !t.contains(x),
{
    let ps = split_char(input, '/');
    lemma_split_avoids(input, '/', x);
    lemma_named_pieces_avoid(ps, x);
    if let Some(n) = file_name_of(input) {
        let ns = named_pieces(ps);
        assert(n == ns[ns.len() - 1]);
        lemma_last_dot(n);
        if let Some(i) = last_dot(n) {
            if i > 0 {
                lemma_part_avoids(n, 0, i, x);
                assert(n.take(i) =~= n.subrange(0, i));
            }
        }
    }
}

proof fn lemma_stem_no_slash(input: Seq<char>)
    ensures
        file_stem_of(input) matches Some(t) ==> !t.contains('/'),
{
    let ps = split_char(input, '/');
    lemma_split_avoids(input, '/', '/');
    assert forall|k: int| 0 <= k < ps.len() implies !(#[trigger] ps[k]).contains('/') by {}
    lemma_named_pieces_avoid(ps, '/');
    if let Some(n) = file_name_of(input) {
        let ns = named_pieces(ps);
        assert(n == ns[ns.len() - 1]);
        lemma_last_dot(n);
        if let Some(i) = last_dot(n) {
            if i > 0 {
                lemma_part_avoids(n, 0, i, '/');
                assert(n.take(i) =~= n.subrange(0, i));
            }
        }
    }
}

proof fn lemma_single_avoids(c: char, x: char)
    requires
        c != x,
    ensures
        !seq![c].contains(x),
{
    if seq![c].contains(x) {
        let j = choose|j: int| 0 <= j < 1 && seq![c][j] == x;
        assert(seq![c][j] == c);
    }
}

/// For a portable input path and a plain format, the output name is a
/// plain name.
proof fn lemma_output_name_plain(input: Seq<char>, format: Seq<char>)
    requires
        portable_path(input),
        plain_name(format),
    ensures
        plain_name(output_file_name(file_stem_of(input), format)),
{
    lemma_stem_no_slash(input);
    lemma_stem_avoids(input, '\\');
    lemma_stem_avoids(input, ':');
    reveal_strlit("output");
    let stem = match file_stem_of(input) {
        Some(t) => t,
        None => "output"@,
    };
    assert(output_file_name(file_stem_of(input), format) == stem + seq!['.'] + format);
    assert(plain_name(stem)) by {
        if file_stem_of(input) is None {
            assert(!stem.contains('/') && !stem.contains('\\') && !stem.contains(':')) by {
                if stem.contains('/') || stem.contains('\\') || stem.contains(':') {
                    let j = choose|j: int|
                        0 <= j < stem.len() && (stem[j] == '/' || stem[j] == '\\' || stem[j]
                            == ':');
                    assert(stem[j] != '/' && stem[j] != '\\' && stem[j] != ':');
                }
            }
        }
    }
    lemma_single_avoids('.', '/');
    lemma_single_avoids('.', '\\');
    lemma_single_avoids('.', ':');
    lemma_concat_avoids(stem, seq!['.'], '/');
    lemma_concat_avoids(stem + seq!['.'], format, '/');
    lemma_concat_avoids(stem, seq!['.'], '\\');
    lemma_concat_avoids(stem + seq!['.'], format, '\\');
    lemma_concat_avoids(stem, seq!['.'], ':');
    lemma_concat_avoids(stem + seq!['.'], format, ':');
}

/// `s` holds no separator of any system.
pub open spec fn no_separator(s: Seq<char>) -> bool {
    forall|i: int| 0 <= i < s.len() ==> !is_separator(#[trigger] s[i])
}

proof fn lemma_last_component_plain(s: Seq<char>)
    ensures
        no_separator(last_component(s)),
    decreases s.len(),
{
    if s.len() > 0 && !is_separator(s.last()) {
        lemma_last_component_plain(s.drop_last());
        let l = last_component(s.drop_last());
        assert forall|i: int| 0 <= i < l.push(s.last()).len() implies !is_separator(
            #[trigger] l.push(s.last())[i],
        ) by {
            if i < l.len() {
                assert(l.push(s.last())[i] == l[i]);
            }
        }
    }
}

proof fn lemma_ends_with_trans(a: Seq<char>, b: Seq<char>, c: Seq<char>)
    requires
        ends_with(a, b),
        ends_with(b, c),
    ensures
        ends_with(a, c),
{
    assert forall|k: int| 0 <= k < c.len() implies a.skip(a.len() - c.len())[k] == c[k] by {
        assert(a.skip(a.len() - b.len())[b.len() - c.len() + k] == b[b.len() - c.len() + k]);
        assert(b.skip(b.len() - c.len())[k] == c[k]);
    }
    assert(a.skip(a.len() - c.len()) =~= c);
}

/// When `y` holds no separator, the path ends with `y` if it ends with the
/// last component of `x + y`.
proof fn lemma_ends_with_tail(r: Seq<char>, x: Seq<char>, y: Seq<char>)
    requires
        no_separator(y),
        ends_with(r, last_component(x + y)),
    ensures
        ends_with(r, y),
{
    lemma_last_component_append(x, y);
    let l = last_component(x + y);
    assert(l.skip(l.len() - y.len()) =~= y);
    lemma_ends_with_trans(r, l, y);
}

/// The path a conversion writes: the output name (the input's stem, or
/// `output`, with the format as extension) inside the output folder. For a
/// portable input path, a plain format and an output folder without a
/// verbatim prefix, it is the folder and that name, with no separator
/// between them when the folder is empty or ends in `/`, and with one (`/`
/// or `\\` by the system) when it ends in neither separator and is no bare
/// drive. Whatever the system, the path ends with the format as extension
/// (ffmpeg picks the container by it) when the format is a plain
/// extension, and then with the input's `tail_stem` before it where the
/// input has one.
pub fn convert_output_path(req: &ConvertRequest) -> (r: String)
    ensures
        (portable_path(req.input_path@) && plain_name(req.output_format@) && !verbatim_prefix(
            req.output_dir@,
        )) ==> joined_in(
            r@,
            req.output_dir@,
            output_file_name(file_stem_of(req.input_path@), req.output_format@),
        ),
        (portable_path(req.input_path@) && plain_name(req.output_format@) && !verbatim_prefix(
            req.output_dir@,
        ) && (req.output_dir@.len() == 0 || req.output_dir@.last() == '/')) ==> r@
            == req.output_dir@ + output_file_name(
            file_stem_of(req.input_path@),
            req.output_format@,
        ),
        (portable_path(req.input_path@) && plain_name(req.output_format@) && !verbatim_prefix(
            req.output_dir@,
        ) && req.output_dir@.len() > 0 && !is_separator(req.output_dir@.last()) && !bare_drive(
            req.output_dir@,
        )) ==> (r@ == req.output_dir@ + seq!['/'] + output_file_name(
            file_stem_of(req.input_path@),
            req.output_format@,
        ) || r@ == req.output_dir@ + seq!['\\'] + output_file_name(
            file_stem_of(req.input_path@),
            req.output_format@,
        )),
        (req.output_format@.len() > 0 && req.output_format@ != seq!['.'] && no_separator(
            req.output_format@,
        )) ==> ends_with(r@, seq!['.'] + req.output_format@),
        tail_stem(req.input_path@) matches Some(t) ==> (req.output_format@.len() > 0
            && no_separator(req.output_format@) ==> ends_with(
            r@,
            t + seq!['.'] + req.output_format@,
        )),
{
    let stem = path_file_stem(req.input_path.as_str());
    let ghost stem_view: Option<Seq<char>> = if stem is Some {
        Some(stem->0@)
    } else {
        None
    };
    let name = convert_output_name(stem, req.output_format.as_str());
    let r = path_join(req.output_dir.as_str(), name.as_str());
    proof {
        if portable_path(req.input_path@) && plain_name(req.output_format@) {
            lemma_output_name_plain(req.input_path@, req.output_format@);
        }
        let fmt = req.output_format@;
        if fmt.len() > 0 && fmt != seq!['.'] && no_separator(fmt) {
            let ext = seq!['.'] + fmt;
            assert forall|i: int| 0 <= i < ext.len() implies !is_separator(#[trigger] ext[i]) by {
                if i > 0 {
                    assert(ext[i] == fmt[i - 1]);
                }
            }
            let x = name@.take(name@.len() - ext.len());
            assert(name@ =~= x + ext);
            lemma_last_component_append(x, ext);
            let last = last_component(name@);
            assert(last.len() >= 2);
            if last == seq!['.', '.'] {
                assert(last_component(x).len() == 0);
                assert(ext =~= last);
                assert(fmt =~= seq!['.']);
            }
            lemma_ends_with_tail(r@, x, ext);
        }
        if let Some(t) = tail_stem(req.input_path@) {
            if fmt.len() > 0 && no_separator(fmt) {
                let sv = stem_view->0;
                let l = last_component(req.input_path@);
                lemma_last_component_plain(req.input_path@);
                lemma_last_dot(l);
                let k = last_dot(l)->0;
                assert(t == l.take(k) && 0 < k < l.len());
                let y = t + seq!['.'] + fmt;
                assert forall|i: int| 0 <= i < y.len() implies !is_separator(#[trigger] y[i]) by {
                    if i < t.len() {
                        assert(y[i] == t[i]);
                        assert(t[i] == l[i]);
                    } else if i == t.len() {
                        assert(y[i] == '.');
                    } else {
                        assert(y[i] == fmt[i - t.len() - 1]);
                    }
                }
                let x = sv.take(sv.len() - t.len());
                assert(sv =~= x + t);
                assert(name@ =~= x + y);
                lemma_last_component_append(x, y);
                assert(last_component(name@).len() >= y.len());
                lemma_ends_with_tail(r@, x, y);
            }
        }
    }
    r
}

} // verus!
