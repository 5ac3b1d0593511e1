//! JSON documents as the library reads them (yt-dlp's playlist listings and
//! the cookie lists of the browser's DevTools protocol), and the playlist and
//! video records taken from them.
use vstd::prelude::*;
use crate::text::{push_text, same_text};

verus! {

/// A JSON number, by the readings the library makes of it: as an unsigned
/// integer when it is one that fits in 64 bits, and as a floating-point
/// number converted by `as` to a whole `u64` and to a whole `i64`
/// (truncating toward zero, saturating at the bounds, NaN giving 0).
#[derive(Clone, Copy, Debug)]
pub struct JsonNumber {
    pub unsigned: Option<u64>,
    pub whole_u64: u64,
    pub whole_i64: i64,
}

/// A JSON value. An object's members are looked up by key, the first
/// member with that key counting (a parsed object has distinct keys).
#[derive(Debug)]
pub enum Json {
    Null,
    Bool(bool),
    Number(JsonNumber),
    Str(String),
    Array(Vec<Json>),
    Object(Vec<(String, Json)>),
}

/// The value under `key` among an object's members.
pub open spec fn member(members: Seq<(String, Json)>, key: Seq<char>) -> Option<Json>
    decreases members.len(),
{
    if members.len() == 0 {
        None
    } else if members[0].0@ == key {
        Some(members[0].1)
    } else {
        member(members.drop_first(), key)
    }
}

impl Json {
    /// `value[key]`: the member under `key` of an object, and `Null` when
    /// there is none or the value is no object.
    pub open spec fn at(self, key: Seq<char>) -> Json {
        match self {
            Json::Object(members) => match member(members@, key) {
                Some(v) => v,
                None => Json::Null,
            },
            _ => Json::Null,
        }
    }

    /// `as_str`: the text of a string.
    pub open spec fn text(self) -> Option<Seq<char>> {
        match self {
            Json::Str(s) => Some(s@),
            _ => None,
        }
    }

    /// `as_array`: the items of an array.
    pub open spec fn items(self) -> Option<Seq<Json>> {
        match self {
            Json::Array(v) => Some(v@),
            _ => None,
        }
    }

    /// `as_u64`: the value of a number that is an unsigned 64-bit integer.
    pub open spec fn unsigned(self) -> Option<u64> {
        match self {
            Json::Number(n) => n.unsigned,
            _ => None,
        }
    }

    /// `as_bool`: the value of a boolean.
    pub open spec fn flag(self) -> Option<bool> {
        match self {
            Json::Bool(b) => Some(b),
            _ => None,
        }
    }

    /// The member under `key`, if any.
    pub fn get(&self, key: &str) -> (r: Option<&Json>)
        ensures
            match r {
                Some(v) => self.at(key@) == *v,
                None => self.at(key@) == Json::Null,
            },
    {
        match self {
            Json::Object(members) => {
                let mut i: usize = 0;
                assert(members@.skip(0) =~= members@);
                while i < members.len()
                    invariant
                        i <= members@.len(),
                        member(members@, key@) == member(members@.skip(i as int), key@),
                        self.at(key@) == (match member(members@, key@) {
                            Some(v) => v,
                            None => Json::Null,
                        }),
                    decreases members@.len() - i,
                {
                    if same_text(members[i].0.as_str(), key) {
                        assert(members@.skip(i as int)[0] == members@[i as int]);
                        return Some(&members[i].1);
                    }
                    assert(members@.skip(i as int).drop_first() =~= members@.skip(i + 1));
                    i = i + 1;
                }
                assert(members@.skip(i as int).len() == 0);
                None
            },
            _ => None,
        }
    }

    /// The text of the member under `key`, if it is a string.
    pub fn text_at(&self, key: &str) -> (r: Option<String>)
        ensures
            match self.at(key@).text() {
                Some(t) => r matches Some(s) && s@ == t,
                None => r is None,
            },
    {
        match self.get(key) {
            Some(Json::Str(s)) => Some(s.clone()),
            _ => None,
        }
    }

    /// The items of the member under `key`, if it is an array.
    pub fn items_at(&self, key: &str) -> (r: Option<&Vec<Json>>)
        ensures
            match self.at(key@).items() {
                Some(xs) => r matches Some(v) && v@ == xs,
                None => r is None,
            },
    {
        match self.get(key) {
            Some(Json::Array(v)) => Some(v),
            _ => None,
        }
    }

    /// The member under `key`, if it is an unsigned 64-bit integer.
    pub fn unsigned_at(&self, key: &str) -> (r: Option<u64>)
        ensures
            r == self.at(key@).unsigned(),
    {
        match self.get(key) {
            Some(Json::Number(n)) => n.unsigned,
            _ => None,
        }
    }

    /// The member under `key`, if it is a boolean.
    pub fn flag_at(&self, key: &str) -> (r: Option<bool>)
        ensures
            r == self.at(key@).flag(),
    {
        match self.get(key) {
            Some(Json::Bool(b)) => Some(*b),
            _ => None,
        }
    }

    /// The member under `key`, if it is a number.
    pub fn number_at(&self, key: &str) -> (r: Option<JsonNumber>)
        ensures
            match self.at(key@) {
                Json::Number(n) => r == Some(n),
                _ => r is None,
            },
    {
        match self.get(key) {
            Some(Json::Number(n)) => Some(*n),
            _ => None,
        }
    }
}

// ── Playlists and videos ──────────────────────────────────────────────────

/// A playlist of the user's library.
#[derive(Clone, Debug)]
pub struct PlaylistInfo {
    pub id: String,
    pub title: String,
    pub thumbnail: String,
    pub video_count: u64,
}

/// A video of a playlist.
#[derive(Clone, Debug)]
pub struct VideoInfo {
    pub id: String,
    pub title: String,
    pub thumbnail: String,
    pub duration_secs: u64,
    pub url: String,
}

/// A playlist record, with its texts as sequences of characters.
pub struct PlaylistView {
    pub id: Seq<char>,
    pub title: Seq<char>,
    pub thumbnail: Seq<char>,
    pub video_count: u64,
}

/// A video record, with its texts as sequences of characters.
pub struct VideoView {
    pub id: Seq<char>,
    pub title: Seq<char>,
    pub thumbnail: Seq<char>,
    pub duration_secs: u64,
    pub url: Seq<char>,
}

impl DeepView for PlaylistInfo {
    type V = PlaylistView;

    open spec fn deep_view(&self) -> PlaylistView {
        PlaylistView {
            id: self.id@,
            title: self.title@,
            thumbnail: self.thumbnail@,
            video_count: self.video_count,
        }
    }
}

impl DeepView for VideoInfo {
    type V = VideoView;

    open spec fn deep_view(&self) -> VideoView {
        VideoView {
            id: self.id@,
            title: self.title@,
            thumbnail: self.thumbnail@,
            duration_secs: self.duration_secs,
            url: self.url@,
        }
    }
}

/// The thumbnail of a listing entry: its `thumbnail` when not empty, else
/// the `url` of the last of its `thumbnails` (usually the largest), else
/// YouTube's medium image for a video and nothing for a playlist.
pub open spec fn thumbnail_of(entry: Json, id: Seq<char>, is_video: bool) -> Seq<char> {
    let direct = entry.at("thumbnail"@).text();
    let last_url = match entry.at("thumbnails"@).items() {
        Some(arr) => if arr.len() > 0 {
            arr.last().at("url"@).text()
        } else {
            None
        },
        None => None,
    };
    if direct is Some && direct->0.len() > 0 {
        direct->0
    } else if last_url is Some {
        last_url->0
    } else if is_video {
        "https://i.ytimg.com/vi/"@ + id + "/mqdefault.jpg"@
    } else {
        Seq::empty()
    }
}

/// The thumbnail of a listing entry.
pub fn extract_thumbnail(entry: &Json, id: &str, is_video: bool) -> (r: String)
    ensures
        r@ == thumbnail_of(*entry, id@, is_video),
{
    if let Some(t) = entry.text_at("thumbnail") {
        if !t.as_str().is_empty() {
            return t;
        }
    }
    if let Some(arr) = entry.items_at("thumbnails") {
        if arr.len() > 0 {
            if let Some(u) = arr[arr.len() - 1].text_at("url") {
                return u;
            }
        }
    }
    if is_video {
        let mut r = String::from_str("https://i.ytimg.com/vi/");
        push_text(&mut r, id);
        push_text(&mut r, "/mqdefault.jpg");
        r
    } else {
        String::new()
    }
}

/// The playlist record of a listing entry, or `None` for an entry without
/// a textual `id`. The title defaults to "Untitled" and the count to 0.
pub open spec fn playlist_of(entry: Json) -> Option<PlaylistView> {
    match entry.at("id"@).text() {
        Some(id) => Some(
            PlaylistView {
                id,
                title: match entry.at("title"@).text() {
                    Some(t) => t,
                    None => "Untitled"@,
                },
                thumbnail: thumbnail_of(entry, id, false),
                video_count: match entry.at("playlist_count"@).unsigned() {
                    Some(c) => c,
                    None => match entry.at("video_count"@).unsigned() {
                        Some(c) => c,
                        None => 0,
                    },
                },
            },
        ),
        None => None,
    }
}

/// The video record of a listing entry, or `None` for an entry without a
/// textual `id`. The duration is the whole number of seconds (0 when not
/// given), the URL defaults to the watch page of the id.
pub open spec fn video_of(entry: Json) -> Option<VideoView> {
    match entry.at("id"@).text() {
        Some(id) => Some(
            VideoView {
                id,
                title: match entry.at("title"@).text() {
                    Some(t) => t,
                    None => "Untitled"@,
                },
                thumbnail: thumbnail_of(entry, id, true),
                duration_secs: match entry.at("duration"@) {
                    Json::Number(n) => n.whole_u64,
                    _ => 0,
                },
                url: match entry.at("webpage_url"@).text() {
                    Some(u) => u,
                    None => "https://www.youtube.com/watch?v="@ + id,
                },
            },
        ),
        None => None,
    }
}

/// The playlist records of the entries that have one, in order.
pub open spec fn playlists_of(entries: Seq<Json>) -> Seq<PlaylistView>
    decreases entries.len(),
{
    if entries.len() == 0 {
        Seq::empty()
    } else {
        let rest = playlists_of(entries.drop_last());
        match playlist_of(entries.last()) {
            Some(p) => rest.push(p),
            None => rest,
        }
    }
}

/// The video records of the entries that have one, in order.
pub open spec fn videos_of(entries: Seq<Json>) -> Seq<VideoView>
    decreases entries.len(),
{
    if entries.len() == 0 {
        Seq::empty()
    } else {
        let rest = videos_of(entries.drop_last());
        match video_of(entries.last()) {
            Some(v) => rest.push(v),
            None => rest,
        }
    }
}

fn playlist_from_entry(e: &Json) -> (r: Option<PlaylistInfo>)
    ensures
        match playlist_of(*e) {
            Some(p) => r matches Some(x) && x.deep_view() == p,
            None => r is None,
        },
{
    let id = match e.text_at("id") {
        Some(id) => id,
        None => return None,
    };
    let title = match e.text_at("title") {
        Some(t) => t,
        None => String::from_str("Untitled"),
    };
    let thumbnail = extract_thumbnail(e, id.as_str(), false);
    let video_count = match e.unsigned_at("playlist_count") {
        Some(c) => c,
        None => match e.unsigned_at("video_count") {
            Some(c) => c,
            None => 0,
        },
    };
    Some(PlaylistInfo { id, title, thumbnail, video_count })
}

fn video_from_entry(e: &Json) -> (r: Option<VideoInfo>)
    ensures
        match video_of(*e) {
            Some(v) => r matches Some(x) && x.deep_view() == v,
            None => r is None,
        },
{
    let id = match e.text_at("id") {
        Some(id) => id,
        None => return None,
    };
    let title = match e.text_at("title") {
        Some(t) => t,
        None => String::from_str("Untitled"),
    };
    let thumbnail = extract_thumbnail(e, id.as_str(), true);
    let duration_secs = match e.number_at("duration") {
        Some(n) => n.whole_u64,
        None => 0,
    };
    let url = match e.text_at("webpage_url") {
        Some(u) => u,
        None => {
            let mut u = String::from_str("https://www.youtube.com/watch?v=");
            push_text(&mut u, id.as_str());
            u
        },
    };
    Some(VideoInfo { id, title, thumbnail, duration_secs, url })
}

/// The playlists of a yt-dlp listing of the user's playlists; an error when
/// the listing has no `entries` array.
pub fn playlists_from_listing(root: &Json) -> (r: Result<Vec<PlaylistInfo>, String>)
    ensures
        match root.at("entries"@).items() {
            Some(entries) => r matches Ok(v) && v.deep_view() == playlists_of(entries),
            None => r matches Err(m) && m@ == "No entries in response"@,
        },
{
    let entries = match root.items_at("entries") {
        Some(es) => es,
        None => return Err(String::from_str("No entries in response")),
    };
    let mut out: Vec<PlaylistInfo> = Vec::new();
    let mut i: usize = 0;
    while i < entries.len()
        invariant
            i <= entries@.len(),
            out.deep_view() == playlists_of(entries@.take(i as int)),
        decreases entries@.len() - i,
    {
        let p = playlist_from_entry(&entries[i]);
        proof {
            assert(entries@.take(i + 1).drop_last() =~= entries@.take(i as int));
        }
        match p {
            Some(x) => {
                out.push(x);
                proof {
                    assert(out.deep_view() =~= playlists_of(entries@.take(i + 1)));
                }
            },
            None => {},
        }
        i = i + 1;
    }
    proof {
        assert(entries@.take(entries@.len() as int) =~= entries@);
    }
    Ok(out)
}

/// The videos of a yt-dlp listing of one playlist; an error when the
/// listing has no `entries` array.
pub fn videos_from_listing(root: &Json) -> (r: Result<Vec<VideoInfo>, String>)
    ensures
        match root.at("entries"@).items() {
            Some(entries) => r matches Ok(v) && v.deep_view() == videos_of(entries),
            None => r matches Err(m) && m@ == "No entries in response"@,
        },
{
    let entries = match root.items_at("entries") {
        Some(es) => es,
        None => return Err(String::from_str("No entries in response")),
    };
    let mut out: Vec<VideoInfo> = Vec::new();
    let mut i: usize = 0;
    while i < entries.len()
        invariant
            i <= entries@.len(),
            out.deep_view() == videos_of(entries@.take(i as int)),
        decreases entries@.len() - i,
    {
        let v = video_from_entry(&entries[i]);
        proof {
            assert(entries@.take(i + 1).drop_last() =~= entries@.take(i as int));
        }
        match v {
            Some(x) => {
                out.push(x);
                proof {
                    assert(out.deep_view() =~= videos_of(entries@.take(i + 1)));
                }
            },
            None => {},
        }
        i = i + 1;
    }
    proof {
        assert(entries@.take(entries@.len() as int) =~= entries@);
    }
    Ok(out)
}

/// Every entry with a textual id gives exactly one record, and no record
/// comes from anywhere else: there are as many playlists as entries with
/// an id.
pub open spec fn count_with_id(entries: Seq<Json>) -> nat
    decreases entries.len(),
{
    if entries.len() == 0 {
        0
    } else {
        count_with_id(entries.drop_last()) + (if entries.last().at("id"@).text() is Some {
            1nat
        } else {
            0nat
        })
    }
}

/// There are as many playlist (and video) records as entries with an id.
pub proof fn lemma_one_record_per_id(entries: Seq<Json>)
    ensures
        playlists_of(entries).len() == count_with_id(entries),
        videos_of(entries).len() == count_with_id(entries),
    decreases entries.len(),
{
    if entries.len() > 0 {
        lemma_one_record_per_id(entries.drop_last());
    }
}

} // verus!
