use opticalcortex::json::{
    extract_thumbnail, playlists_from_listing, videos_from_listing, Json, JsonNumber,
};
use opticalcortex::tools::{is_outdated_version, tool_status, yt_dlp_version_info};
use opticalcortex::ytdlp::JsRuntime;

fn s(t: &str) -> Json {
    Json::Str(t.to_string())
}

fn uint(n: u64) -> Json {
    Json::Number(JsonNumber { unsigned: Some(n), whole_u64: n, whole_i64: n as i64 })
}

fn float(whole: u64) -> Json {
    Json::Number(JsonNumber { unsigned: None, whole_u64: whole, whole_i64: whole as i64 })
}

fn obj(members: Vec<(&str, Json)>) -> Json {
    Json::Object(members.into_iter().map(|(k, v)| (k.to_string(), v)).collect())
}

#[test]
fn playlists_are_read_from_entries() {
    let root = obj(vec![(
        "entries",
        Json::Array(vec![
            obj(vec![
                ("id", s("PL1")),
                ("title", s("Mix")),
                ("thumbnail", s("")),
                ("thumbnails", Json::Array(vec![obj(vec![("url", s("small"))]), obj(vec![("url", s("big"))])])),
                ("video_count", uint(9)),
                ("playlist_count", uint(12)),
            ]),
            obj(vec![("title", s("no id"))]),
            obj(vec![("id", uint(5))]),
            obj(vec![("id", s("PL2")), ("video_count", uint(3))]),
            obj(vec![("id", s("PL3"))]),
        ]),
    )]);
    let lists = playlists_from_listing(&root).unwrap();
    assert_eq!(lists.len(), 3);
    assert_eq!((lists[0].id.as_str(), lists[0].title.as_str()), ("PL1", "Mix"));
    assert_eq!(lists[0].thumbnail, "big");
    assert_eq!(lists[0].video_count, 12);
    assert_eq!((lists[1].id.as_str(), lists[1].title.as_str()), ("PL2", "Untitled"));
    assert_eq!(lists[1].video_count, 3);
    assert_eq!(lists[1].thumbnail, "");
    assert_eq!(lists[2].video_count, 0);
}

#[test]
fn listing_without_entries_is_refused() {
    assert_eq!(
        playlists_from_listing(&obj(vec![("entries", Json::Null)])).unwrap_err(),
        "No entries in response"
    );
    assert_eq!(videos_from_listing(&Json::Array(vec![])).unwrap_err(), "No entries in response");
}

#[test]
fn videos_are_read_from_entries() {
    let root = obj(vec![(
        "entries",
        Json::Array(vec![
            obj(vec![
                ("id", s("v1")),
                ("title", s("First")),
                ("thumbnail", s("https://img/1.jpg")),
                ("duration", float(212)),
                ("webpage_url", s("https://www.youtube.com/watch?v=v1&x=1")),
            ]),
            obj(vec![("id", s("v2")), ("duration", s("long"))]),
        ]),
    )]);
    let videos = videos_from_listing(&root).unwrap();
    assert_eq!(videos.len(), 2);
    assert_eq!(videos[0].thumbnail, "https://img/1.jpg");
    assert_eq!(videos[0].duration_secs, 212);
    assert_eq!(videos[0].url, "https://www.youtube.com/watch?v=v1&x=1");
    assert_eq!(videos[1].title, "Untitled");
    assert_eq!(videos[1].duration_secs, 0);
    assert_eq!(videos[1].thumbnail, "https://i.ytimg.com/vi/v2/mqdefault.jpg");
    assert_eq!(videos[1].url, "https://www.youtube.com/watch?v=v2");
}

#[test]
fn thumbnail_fallbacks() {
    let e = obj(vec![("thumbnails", Json::Array(vec![obj(vec![("url", uint(1))])]))]);
    assert_eq!(extract_thumbnail(&e, "id", true), "https://i.ytimg.com/vi/id/mqdefault.jpg");
    assert_eq!(extract_thumbnail(&e, "id", false), "");
    let e = obj(vec![("thumbnails", Json::Array(vec![obj(vec![("url", s(""))])]))]);
    assert_eq!(extract_thumbnail(&e, "id", true), "");
}

#[test]
fn yt_dlp_versions_before_2024_are_outdated() {
    assert!(is_outdated_version("2023.12.30"));
    assert!(!is_outdated_version("2024.03.10"));
    assert!(!is_outdated_version("2025.01.15"));
    assert!(is_outdated_version("+2021.1"));
    assert!(is_outdated_version("1999"));
    assert!(!is_outdated_version("abc.1"));
    assert!(!is_outdated_version(""));
    assert!(!is_outdated_version(".2020"));
    assert!(!is_outdated_version("-2020.1"));
    assert!(!is_outdated_version("99999999999.1"));
    assert!(is_outdated_version("0002023.5"));
    assert!(!is_outdated_version("0004294967295"));
    assert!(!is_outdated_version("4294967296"));
}

#[test]
fn version_text_is_trimmed() {
    assert_eq!(yt_dlp_version_info(Some(" 2023.07.06\n")), (Some("2023.07.06".to_string()), true));
    assert_eq!(yt_dlp_version_info(Some("2024.08.06\r\n")), (Some("2024.08.06".to_string()), false));
    assert_eq!(yt_dlp_version_info(None), (None, false));
}

#[test]
fn tool_status_from_probes() {
    let st = tool_status(true, false, Some("2022.01.01\n".to_string()), JsRuntime::Deno);
    assert!(st.yt_dlp && !st.ffmpeg);
    assert_eq!(st.yt_dlp_version, Some("2022.01.01".to_string()));
    assert!(st.yt_dlp_outdated);
    assert!(st.has_js_runtime);
    let st = tool_status(false, true, Some("2022.01.01".to_string()), JsRuntime::Missing);
    assert_eq!(st.yt_dlp_version, None);
    assert!(!st.yt_dlp_outdated);
    assert!(!st.has_js_runtime);
}
