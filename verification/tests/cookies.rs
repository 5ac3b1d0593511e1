use opticalcortex::json::{Json, JsonNumber};
use opticalcortex::netscape::{
    build_netscape_cookies, cdp_cookies_file, native_cookies_file, youtube_cookie_file,
    NativeCookie,
};

const PAGE_HEADER: &str =
    "# Netscape HTTP Cookie File\n# Generated by Video Downloader - do not edit\n";

fn page_file(lines: &[&str]) -> String {
    let mut s = String::from(PAGE_HEADER);
    for l in lines {
        s.push('\n');
        s.push_str(l);
    }
    s
}

#[test]
fn cookies_from_document_cookie_string() {
    let out = build_netscape_cookies("SID=abc; HSID=def", "www.youtube.com");
    assert_eq!(
        out,
        page_file(&[
            ".youtube.com\tTRUE\t/\tTRUE\t2147483647\tSID\tabc",
            ".youtube.com\tTRUE\t/\tTRUE\t2147483647\tHSID\tdef",
        ])
    );
}

#[test]
fn cookies_without_pairs_give_only_the_header() {
    assert_eq!(build_netscape_cookies("", "youtube.com"), PAGE_HEADER);
    assert_eq!(build_netscape_cookies(" ; ;  ", "youtube.com"), PAGE_HEADER);
    assert_eq!(build_netscape_cookies("=orphan", "youtube.com"), PAGE_HEADER);
}

#[test]
fn cookie_pairs_are_trimmed_and_split_at_first_equals() {
    let out = build_netscape_cookies("  a = b=c ;flag;  x=  ", "example.com");
    assert_eq!(
        out,
        page_file(&[
            ".example.com\tTRUE\t/\tTRUE\t2147483647\ta\tb=c",
            ".example.com\tTRUE\t/\tTRUE\t2147483647\tflag\t",
            ".example.com\tTRUE\t/\tTRUE\t2147483647\tx\t",
        ])
    );
}

#[test]
fn hostname_prefixes_are_normalised() {
    let plain = build_netscape_cookies("k=v", "youtube.com");
    assert_eq!(build_netscape_cookies("k=v", "www.youtube.com"), plain);
    assert_eq!(build_netscape_cookies("k=v", "www.www.youtube.com"), plain);
    assert_eq!(build_netscape_cookies("k=v", ".youtube.com"), plain);
    assert_eq!(build_netscape_cookies("k=v", "..youtube.com"), plain);
    // a dot before "www." keeps the "www." (the dots are stripped after it)
    assert!(build_netscape_cookies("k=v", ".www.youtube.com").contains("\n.www.youtube.com\t"));
}

#[test]
fn cookie_string_parts_concatenate() {
    let a = "p=1; q=2";
    let b = "r=3";
    let whole = build_netscape_cookies(&format!("{a};{b}"), "h.org");
    let left = build_netscape_cookies(a, "h.org");
    let right = build_netscape_cookies(b, "h.org");
    let right_lines = right.strip_prefix(PAGE_HEADER).unwrap();
    assert_eq!(whole, format!("{left}{right_lines}"));
}

#[test]
fn unicode_whitespace_is_trimmed() {
    let out = build_netscape_cookies("\u{a0}n\u{2003}=\u{3000}v\u{85}", "h.org");
    assert_eq!(out, page_file(&[".h.org\tTRUE\t/\tTRUE\t2147483647\tn\tv"]));
}

#[test]
fn saving_page_cookies_needs_some_cookie_text() {
    assert_eq!(youtube_cookie_file("  \n ", "youtube.com"), Err("No cookies received".to_string()));
    assert_eq!(
        youtube_cookie_file("SAPISID=z", "www.youtube.com"),
        Ok(page_file(&[".youtube.com\tTRUE\t/\tTRUE\t2147483647\tSAPISID\tz"]))
    );
}

fn native(name: &str, value: &str, domain: &str, path: &str, secure: bool, expires: i64) -> NativeCookie {
    NativeCookie {
        name: name.to_string(),
        value: value.to_string(),
        domain: domain.to_string(),
        path: path.to_string(),
        secure,
        expires,
    }
}

#[test]
fn native_cookies_become_lines() {
    let cookies = vec![
        native("sessionid", "s1", ".instagram.com", "/", true, 1893456000),
        native("", "ignored", ".instagram.com", "/", false, 0),
        native("csrftoken", "t", "www.instagram.com", "/app", false, -5),
    ];
    let out = native_cookies_file(&cookies);
    assert_eq!(
        out,
        "# Netscape HTTP Cookie File\n# Generated by OpticalCortex\n\n\
         .instagram.com\tTRUE\t/\tTRUE\t1893456000\tsessionid\ts1\n\
         www.instagram.com\tFALSE\t/app\tFALSE\t-5\tcsrftoken\tt"
    );
    assert_eq!(
        native_cookies_file(&vec![]),
        "# Netscape HTTP Cookie File\n# Generated by OpticalCortex\n"
    );
    let extreme = native_cookies_file(&vec![native("a", "", "d", "/", false, i64::MIN)]);
    assert!(extreme.ends_with("\t-9223372036854775808\ta\t"));
}

fn s(t: &str) -> Json {
    Json::Str(t.to_string())
}

fn num(u: Option<u64>, whole_u64: u64, whole_i64: i64) -> Json {
    Json::Number(JsonNumber { unsigned: u, whole_u64, whole_i64 })
}

fn obj(members: Vec<(&str, Json)>) -> Json {
    Json::Object(members.into_iter().map(|(k, v)| (k.to_string(), v)).collect())
}

#[test]
fn devtools_cookies_become_lines() {
    let root = obj(vec![(
        "cookies",
        Json::Array(vec![
            obj(vec![
                ("name", s("SID")),
                ("value", s("v1")),
                ("domain", s(".youtube.com")),
                ("path", s("/")),
                ("secure", Json::Bool(true)),
                ("expires", num(None, 1700000000, 1700000000)),
            ]),
            obj(vec![("value", s("no name"))]),
            obj(vec![("name", s("PREF")), ("domain", s("www.youtube.com")), ("expires", s("soon"))]),
        ]),
    )]);
    assert_eq!(
        cdp_cookies_file(&root),
        Ok(page_file(&[
            ".youtube.com\tTRUE\t/\tTRUE\t1700000000\tSID\tv1",
            "www.youtube.com\tFALSE\t/\tFALSE\t2147483647\tPREF\t",
        ]))
    );
}

#[test]
fn devtools_response_without_cookie_array_is_refused() {
    assert_eq!(
        cdp_cookies_file(&obj(vec![("cookies", s("none"))])),
        Err("No cookies array in CDP response".to_string())
    );
    assert_eq!(cdp_cookies_file(&Json::Null), Err("No cookies array in CDP response".to_string()));
}

#[test]
fn cookie_lines_read_back_as_seven_fields() {
    let out = build_netscape_cookies("LOGIN_INFO=AF:xyz==", "www.youtube.com");
    let line = out.lines().last().unwrap();
    let fields: Vec<&str> = line.split('\t').collect();
    assert_eq!(fields, vec![".youtube.com", "TRUE", "/", "TRUE", "2147483647", "LOGIN_INFO", "AF:xyz=="]);
    let stored = native_cookies_file(&vec![native("n", "v", "host", "/p", true, -42)]);
    let fields: Vec<&str> = stored.lines().last().unwrap().split('\t').collect();
    assert_eq!(fields, vec!["host", "FALSE", "/p", "TRUE", "-42", "n", "v"]);
}

#[test]
fn cookie_file_lines_of_joined_strings_keep_order() {
    let (a, b) = ("x=1; y=2", " z=3 ;");
    let whole = build_netscape_cookies(&format!("{a};{b}"), "www.h.net");
    let left = build_netscape_cookies(a, "www.h.net");
    let right = build_netscape_cookies(b, "www.h.net");
    let tail = |f: &str| f.split('\n').skip(3).map(|l| l.to_string()).collect::<Vec<String>>();
    let mut expected = tail(&left);
    expected.extend(tail(&right));
    assert_eq!(tail(&whole), expected);
    assert_eq!(tail(&whole).len(), 3);
}
