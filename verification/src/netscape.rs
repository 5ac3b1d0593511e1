//! Netscape `cookies.txt` files: one tab-separated line per cookie under a
//! short comment header, as yt-dlp reads them with `--cookies`.
use vstd::prelude::*;
use crate::json::Json;
use crate::text::{
    int_decimal, nat_digits, push_int, trimmed,
    chars_of, find_char, find_char_in, is_white, join_lines, lemma_find_char, lemma_join_lines_push,
    lemma_concat_avoids, lemma_find_char_unique, lemma_part_avoids, lemma_split_avoids, lemma_split_last, lemma_trim_avoids, lemma_split_step, lemma_trim_idempotent, push_range, push_text, split_char, starts_with, trim, trim_end, trim_range,
    trim_start,
};

verus! {

// ── Cookies captured from `document.cookie` ───────────────────────────────

/// The text `www.`.
pub open spec fn www_prefix() -> Seq<char> {
    seq!['w', 'w', 'w', '.']
}

/// `s` with every leading repetition of `www.` removed
/// (`str::trim_start_matches("www.")`).
pub open spec fn strip_www(s: Seq<char>) -> Seq<char>
    decreases s.len(),
{
    if starts_with(s, www_prefix()) {
        strip_www(s.skip(4))
    } else {
        s
    }
}

/// `s` with its leading dots removed (`str::trim_start_matches('.')`).
pub open spec fn strip_dots(s: Seq<char>) -> Seq<char>
    decreases s.len(),
{
    if s.len() > 0 && s[0] == '.' {
        strip_dots(s.drop_first())
    } else {
        s
    }
}

/// The cookie domain for a page's hostname: the hostname without leading
/// `www.` and dots, behind one dot, so that it covers every subdomain.
pub open spec fn cookie_domain(hostname: Seq<char>) -> Seq<char> {
    seq!['.'] + strip_dots(strip_www(hostname))
}

/// The name and value in one `;`-separated piece of a `document.cookie`
/// string: the trimmed text before the first `=` and the trimmed text after
/// it (an empty value when there is no `=`). A piece with an empty name
/// gives no cookie.
pub open spec fn cookie_pair(piece: Seq<char>) -> Option<(Seq<char>, Seq<char>)> {
    let p = trim(piece);
    let (name, value) = match find_char(p, '=') {
        Some(i) => (trim(p.take(i)), trim(p.skip(i + 1))),
        None => (p, Seq::<char>::empty()),
    };
    if name.len() == 0 {
        None
    } else {
        Some((name, value))
    }
}

/// The cookie-file line of a session cookie captured from a page: valid for
/// all subdomains and all paths, secure, and expiring at the end of 32-bit
/// time.
pub open spec fn session_cookie_line(domain: Seq<char>, name: Seq<char>, value: Seq<char>) -> Seq<
    char,
> {
    domain + "\tTRUE\t/\tTRUE\t2147483647\t"@ + name + seq!['\t'] + value
}

/// The cookie-file lines of the pieces, in order, one per piece that holds a
/// cookie.
pub open spec fn session_cookie_lines(pieces: Seq<Seq<char>>, domain: Seq<char>) -> Seq<
    Seq<char>,
>
    decreases pieces.len(),
{
    if pieces.len() == 0 {
        Seq::empty()
    } else {
        let rest = session_cookie_lines(pieces.drop_last(), domain);
        match cookie_pair(pieces.last()) {
            Some((name, value)) => rest.push(session_cookie_line(domain, name, value)),
            None => rest,
        }
    }
}

/// The cookie lines for a whole `document.cookie` string.
pub open spec fn cookie_string_lines(cookie_str: Seq<char>, domain: Seq<char>) -> Seq<Seq<char>> {
    session_cookie_lines(split_char(cookie_str, ';'), domain)
}

/// The comment header of a file written from page cookies.
pub open spec fn page_cookie_header() -> Seq<Seq<char>> {
    seq![
        "# Netscape HTTP Cookie File"@,
        "# Generated by Video Downloader - do not edit"@,
        Seq::<char>::empty(),
    ]
}

/// The cookie file for a `document.cookie` string read on `hostname`.
pub open spec fn netscape_cookie_file(cookie_str: Seq<char>, hostname: Seq<char>) -> Seq<char> {
    join_lines(page_cookie_header() + cookie_string_lines(cookie_str, cookie_domain(hostname)))
}




/// Appends `lit` to `out` (a literal piece of a line).
fn push_lit(out: &mut String, lit: &str)
    ensures
        final(out)@ == old(out)@ + lit@,
{
    push_text(out, lit);
}

/// Appends one cookie line (behind a newline) for `cs[a..b]` when that
/// trimmed piece holds a cookie; says whether it did.
fn push_session_cookie(out: &mut String, cs: &Vec<char>, a: usize, b: usize, domain: &str)
    requires
        a <= b <= cs@.len(),
        cs@.subrange(a as int, b as int) == trim(cs@.subrange(a as int, b as int)),
    ensures
        match cookie_pair(cs@.subrange(a as int, b as int)) {
            Some((name, value)) => final(out)@ == old(out)@ + seq!['\n'] + session_cookie_line(
                domain@,
                name,
                value,
            ),
            None => final(out)@ == old(out)@,
        },
{
    let ghost p = cs@.subrange(a as int, b as int);
    proof {
        lemma_find_char(p, '=');
    }
    let (na, nb, va, vb) = match find_char_in(cs, '=', a, b) {
        Some(e) => {
            let (na, nb) = trim_range(cs, a, e);
            let (va, vb) = trim_range(cs, e + 1, b);
            proof {
                let i = (e - a) as int;
                assert(p.take(i) =~= cs@.subrange(a as int, e as int));
                assert(p.skip(i + 1) =~= cs@.subrange(e + 1, b as int));
            }
            (na, nb, va, vb)
        },
        None => (a, b, b, b),
    };
    proof {
        assert(cs@.subrange(b as int, b as int) =~= Seq::<char>::empty());
    }
    if na < nb {
        out.push('\n');
        push_text(out, domain);
        push_lit(out, "\tTRUE\t/\tTRUE\t2147483647\t");
        push_range(out, cs, na, nb);
        out.push('\t');
        push_range(out, cs, va, vb);
        proof {
            let name = cs@.subrange(na as int, nb as int);
            let value = cs@.subrange(va as int, vb as int);
            assert(final(out)@ =~= old(out)@ + seq!['\n'] + session_cookie_line(
                domain@,
                name,
                value,
            ));
        }
    }
}

/// The domain text for a hostname.
fn domain_for(hostname: &str) -> (d: String)
    ensures
        d@ == cookie_domain(hostname@),
{
    let hs = chars_of(hostname);
    let n = hs.len();
    let mut a: usize = 0;
    assert(hs@.skip(0) =~= hs@);
    while a < n && n - a >= 4 && hs[a] == 'w' && hs[a + 1] == 'w' && hs[a + 2] == 'w' && hs[a + 3] == '.'
        invariant
            a <= n,
            n == hs@.len(),
            strip_www(hostname@) == strip_www(hs@.skip(a as int)),
        decreases n - a,
    {
        proof {
            let t = hs@.skip(a as int);
            assert(t.take(4) =~= www_prefix());
            assert(t.skip(4) =~= hs@.skip(a + 4));
        }
        a = a + 4;
    }
    proof {
        let t = hs@.skip(a as int);
        if starts_with(t, www_prefix()) {
            assert(t.take(4)[0] == hs@[a as int]);
            assert(t.take(4)[1] == hs@[a + 1]);
            assert(t.take(4)[2] == hs@[a + 2]);
            assert(t.take(4)[3] == hs@[a + 3]);
        }
        assert(strip_www(t) == t);
    }
    while a < n && hs[a] == '.'
        invariant
            a <= n,
            n == hs@.len(),
            strip_dots(strip_www(hostname@)) == strip_dots(hs@.skip(a as int)),
        decreases n - a,
    {
        assert(hs@.skip(a as int).drop_first() =~= hs@.skip(a + 1));
        a = a + 1;
    }
    let mut d = String::new();
    d.push('.');
    push_range(&mut d, &hs, a, n);
    proof {
        let t = hs@.skip(a as int);
        assert(strip_dots(t) == t);
        assert(hs@.subrange(a as int, n as int) =~= t);
        assert(d@ =~= cookie_domain(hostname@));
    }
    d
}

/// Appends the three header lines (and the newline after the last) of a
/// cookie file.
fn start_file(out: &mut String, first: &str, second: &str)
    requires
        old(out)@.len() == 0,
    ensures
        final(out)@ == join_lines(seq![first@, second@, Seq::<char>::empty()]),
{
    push_text(out, first);
    out.push('\n');
    push_text(out, second);
    out.push('\n');
    proof {
        let h = seq![first@, second@, Seq::<char>::empty()];
        assert(h.drop_last() =~= seq![first@, second@]);
        assert(h.drop_last().drop_last() =~= seq![first@]);
        assert(join_lines(seq![first@]) == first@);
        assert(join_lines(seq![first@, second@]) == join_lines(seq![first@]) + seq!['\n'] + second@);
        assert(join_lines(h) == join_lines(seq![first@, second@]) + seq!['\n'] + Seq::<char>::empty());
        assert(final(out)@ =~= join_lines(h));
    }
}

/// Formats a `document.cookie` string read on `hostname` as a Netscape HTTP
/// Cookie File: the header, then one line per `name=value` pair.
pub fn build_netscape_cookies(cookie_str: &str, hostname: &str) -> (r: String)
    ensures
        r@ == netscape_cookie_file(cookie_str@, hostname@),
{
    let domain = domain_for(hostname);
    let cs = chars_of(cookie_str);
    let n = cs.len();
    let mut out = String::new();
    start_file(&mut out, "# Netscape HTTP Cookie File", "# Generated by Video Downloader - do not edit");
    let ghost header = page_cookie_header();
    let ghost mut done: Seq<Seq<char>> = Seq::empty();
    assert(header + session_cookie_lines(done, domain@) =~= header);
    assert(cs@.skip(0) =~= cs@);
    let mut start: usize = 0;
    loop
        invariant_except_break
            header == page_cookie_header(),
            start <= n,
            n == cs@.len(),
            split_char(cs@, ';') == done + split_char(cs@.skip(start as int), ';'),
            out@ == join_lines(header + session_cookie_lines(done, domain@)),
        ensures
            header == page_cookie_header(),
            out@ == join_lines(header + session_cookie_lines(split_char(cs@, ';'), domain@)),
        decreases n - start,
    {
        let found = find_char_in(&cs, ';', start, n);
        let end = match found {
            Some(j) => j,
            None => n,
        };
        proof {
            lemma_find_char(cs@.subrange(start as int, n as int), ';');
            assert forall|k: int| start <= k < end implies cs@[k] != ';' by {
                assert(cs@[k] == cs@.subrange(start as int, n as int)[k - start]);
            }
            if end < n {
                assert(cs@[end as int] == cs@.subrange(start as int, n as int)[end - start]);
                lemma_split_step(cs@, ';', start as int, end as int);
            } else {
                lemma_split_last(cs@, ';', start as int);
            }
        }
        let (a, b) = trim_range(&cs, start, end);
        let ghost piece = cs@.subrange(start as int, end as int);
        let ghost before = out@;
        proof {
            lemma_trim_idempotent(piece);
            assert(trim(piece) == trim(cs@.subrange(a as int, b as int)));
        }
        push_session_cookie(&mut out, &cs, a, b, domain.as_str());
        proof {
            let lines = session_cookie_lines(done, domain@);
            assert(done.push(piece).drop_last() =~= done);
            assert(header.len() == 3);
            match cookie_pair(piece) {
                Some((name, value)) => {
                    let l = session_cookie_line(domain@, name, value);
                    lemma_join_lines_push(header + lines, l);
                    assert((header + lines).push(l) =~= header + lines.push(l));
                },
                None => {},
            }
            done = done.push(piece);
        }
        if end == n {
            assert(split_char(cs@, ';') =~= done);
            break ;
        }
        proof {
            assert(split_char(cs@, ';') =~= done + split_char(cs@.skip(end + 1), ';'));
        }
        start = end + 1;
    }
    out
}

// ── Laws of page-cookie files ─────────────────────────────────────────────

/// A leading `www.` on the hostname does not change the file: the cookies of
/// `www.youtube.com` and of `youtube.com` are written alike.
pub proof fn lemma_www_prefix_ignored(cookie_str: Seq<char>, hostname: Seq<char>)
    ensures
        netscape_cookie_file(cookie_str, www_prefix() + hostname) == netscape_cookie_file(
            cookie_str,
            hostname,
        ),
{
    let h = www_prefix() + hostname;
    assert(h.take(4) =~= www_prefix());
    assert(h.skip(4) =~= hostname);
}

/// A leading dot on the hostname does not change the file, for hostnames
/// that do not themselves start with `www.`.
pub proof fn lemma_leading_dot_ignored(cookie_str: Seq<char>, hostname: Seq<char>)
    requires
        !starts_with(hostname, www_prefix()),
    ensures
        netscape_cookie_file(cookie_str, seq!['.'] + hostname) == netscape_cookie_file(
            cookie_str,
            hostname,
        ),
{
    let h = seq!['.'] + hostname;
    assert(!starts_with(h, www_prefix())) by {
        if starts_with(h, www_prefix()) {
            assert(h.take(4)[0] == h[0]);
        }
    }
    assert(h.drop_first() =~= hostname);
}

/// The domain written on every line starts with a dot.
pub proof fn lemma_domain_starts_with_dot(hostname: Seq<char>)
    ensures
        cookie_domain(hostname).len() > 0,
        cookie_domain(hostname)[0] == '.',
{
}

proof fn lemma_find_char_concat(a: Seq<char>, b: Seq<char>, c: char)
    ensures
        find_char(a + b, c) == (match find_char(a, c) {
            Some(i) => Some(i),
            None => match find_char(b, c) {
                Some(j) => Some(a.len() + j),
                None => None::<int>,
            },
        }),
{
    lemma_find_char(a, c);
    lemma_find_char(b, c);
    let s = a + b;
    match find_char(a, c) {
        Some(i) => {
            assert(s[i] == a[i]);
            assert forall|j: int| 0 <= j < i implies s[j] != c by {
                assert(s[j] == a[j]);
            }
            lemma_find_char_unique(s, c, i);
        },
        None => match find_char(b, c) {
            Some(j) => {
                assert(s[a.len() + j] == b[j]);
                assert forall|k: int| 0 <= k < a.len() + j implies s[k] != c by {
                    if k < a.len() {
                        assert(s[k] == a[k]);
                    } else {
                        assert(s[k] == b[k - a.len()]);
                    }
                }
                lemma_find_char_unique(s, c, a.len() + j);
            },
            None => {
                lemma_find_char(s, c);
                if let Some(k) = find_char(s, c) {
                    if k < a.len() {
                        assert(s[k] == a[k]);
                    } else {
                        assert(s[k] == b[k - a.len()]);
                    }
                }
            },
        },
    }
}

/// Splitting `a;b` gives the pieces of `a` followed by the pieces of `b`.
pub proof fn lemma_split_concat(a: Seq<char>, b: Seq<char>, c: char)
    ensures
        split_char(a + seq![c] + b, c) == split_char(a, c) + split_char(b, c),
    decreases a.len(),
{
    let s = a + seq![c] + b;
    lemma_find_char_concat(a, seq![c] + b, c);
    lemma_find_char(a, c);
    match find_char(a, c) {
        Some(i) => {
            assert(s =~= a + (seq![c] + b));
            assert(s.take(i) =~= a.take(i));
            assert(s.skip(i + 1) =~= a.skip(i + 1) + seq![c] + b);
            lemma_split_concat(a.skip(i + 1), b, c);
            assert(split_char(a, c) == seq![a.take(i)] + split_char(a.skip(i + 1), c));
            assert(split_char(s, c) =~= split_char(a, c) + split_char(b, c));
        },
        None => {
            assert(s =~= a + (seq![c] + b));
            assert(find_char(seq![c] + b, c) == Some(0int));
            assert(s.take(a.len() as int) =~= a);
            assert(s.skip(a.len() as int + 1) =~= b);
            assert(split_char(s, c) =~= split_char(a, c) + split_char(b, c));
        },
    }
}

proof fn lemma_session_lines_concat(p: Seq<Seq<char>>, q: Seq<Seq<char>>, domain: Seq<char>)
    ensures
        session_cookie_lines(p + q, domain) == session_cookie_lines(p, domain)
            + session_cookie_lines(q, domain),
    decreases q.len(),
{
    if q.len() == 0 {
        assert(p + q =~= p);
        assert(session_cookie_lines(p, domain) + session_cookie_lines(q, domain) =~= session_cookie_lines(p, domain));
    } else {
        assert((p + q).drop_last() =~= p + q.drop_last());
        assert((p + q).last() == q.last());
        lemma_session_lines_concat(p, q.drop_last(), domain);
        let lp = session_cookie_lines(p, domain);
        let lq = session_cookie_lines(q.drop_last(), domain);
        match cookie_pair(q.last()) {
            Some((name, value)) => {
                let l = session_cookie_line(domain, name, value);
                assert((lp + lq).push(l) =~= lp + lq.push(l));
            },
            None => {},
        }
    }
}

/// Each `;`-separated part of a cookie string contributes its own lines, in
/// order: the lines of `a;b` are those of `a` followed by those of `b`.
pub proof fn lemma_cookie_lines_concat(a: Seq<char>, b: Seq<char>, domain: Seq<char>)
    ensures
        cookie_string_lines(a + seq![';'] + b, domain) == cookie_string_lines(a, domain)
            + cookie_string_lines(b, domain),
{
    lemma_split_concat(a, b, ';');
    lemma_session_lines_concat(split_char(a, ';'), split_char(b, ';'), domain);
}

/// A single `name=value` pair (no `;`) gives exactly one line, holding the
/// trimmed name and value.
pub proof fn lemma_single_pair(name: Seq<char>, value: Seq<char>, domain: Seq<char>)
    requires
        name.len() > 0,
        trim(name) == name,
        trim(value) == value,
        !name.contains('='),
        !name.contains(';'),
        !value.contains(';'),
    ensures
        cookie_string_lines(name + seq!['='] + value, domain) == seq![
            session_cookie_line(domain, name, value),
        ],
{
    let s = name + seq!['='] + value;
    lemma_find_char(s, ';');
    if let Some(i) = find_char(s, ';') {
        if i < name.len() {
            assert(s[i] == name[i]);
            assert(name.contains(';'));
        } else if i > name.len() {
            assert(s[i] == value[i - name.len() - 1]);
            assert(value.contains(';'));
        }
    }
    assert(split_char(s, ';') == seq![s]);
    assert(seq![s].drop_last() =~= Seq::<Seq<char>>::empty());
    // trim(s) == s: s starts with the name and ends with the value (or '=')
    lemma_trim_idempotent(name);
    assert(trim(s) == s) by {
        assert(s[0] == name[0]);
        assert(!is_white(name[0])) by {
            lemma_trim_idempotent(name);
        }
        if value.len() > 0 {
            assert(s.last() == value.last());
            lemma_trim_idempotent(value);
        } else {
            assert(s.last() == '=');
        }
        assert(trim_start(s) == s);
        assert(trim_end(s) == s);
    }
    lemma_find_char_concat(name, seq!['='] + value, '=');
    assert(s =~= name + (seq!['='] + value));
    lemma_find_char(name, '=');
    if let Some(k) = find_char(name, '=') {
        assert(name.contains('='));
    }
    assert(find_char(seq!['='] + value, '=') == Some(0int));
    assert(s.take(name.len() as int) =~= name);
    assert(s.skip(name.len() as int + 1) =~= value);
    assert(find_char(s, '=') == Some(name.len() as int));
    assert(cookie_pair(s) == Some((name, value)));
    let l = session_cookie_line(domain, name, value);
    assert(session_cookie_lines(seq![s], domain) == session_cookie_lines(
        Seq::<Seq<char>>::empty(),
        domain,
    ).push(l));
    assert(session_cookie_lines(seq![s], domain) =~= seq![l]);
}

// ── Saving page cookies ───────────────────────────────────────────────────

/// The file saved for cookies captured on a page: an error when nothing
/// but whitespace was captured, otherwise the cookie file.
pub open spec fn page_cookie_file(cookie_str: Seq<char>, hostname: Seq<char>) -> Result<
    Seq<char>,
    Seq<char>,
> {
    if trim(cookie_str).len() == 0 {
        Err("No cookies received"@)
    } else {
        Ok(netscape_cookie_file(cookie_str, hostname))
    }
}

/// The cookie file to save for cookies captured on a YouTube page.
pub fn youtube_cookie_file(cookie_str: &str, domain: &str) -> (r: Result<String, String>)
    ensures
        match page_cookie_file(cookie_str@, domain@) {
            Ok(f) => r matches Ok(x) && x@ == f,
            Err(e) => r matches Err(x) && x@ == e,
        },
{
    let t = trimmed(cookie_str);
    if t.as_str().is_empty() {
        return Err(String::from_str("No cookies received"));
    }
    Ok(build_netscape_cookies(cookie_str, domain))
}

// ── Cookies read from the browser's store ─────────────────────────────────

/// The cookie-file line of a stored cookie: domain, whether subdomains
/// match (the domain starts with a dot), path, whether it is secure,
/// expiry time, name and value, separated by tabs.
pub open spec fn record_line(
    domain: Seq<char>,
    path: Seq<char>,
    secure: bool,
    expires: int,
    name: Seq<char>,
    value: Seq<char>,
) -> Seq<char> {
    domain + seq!['\t'] + (if domain.len() > 0 && domain[0] == '.' {
        "TRUE"@
    } else {
        "FALSE"@
    }) + seq!['\t'] + path + seq!['\t'] + (if secure {
        "TRUE"@
    } else {
        "FALSE"@
    }) + seq!['\t'] + int_decimal(expires) + seq!['\t'] + name + seq!['\t'] + value
}

/// Appends a newline and the line of a stored cookie.
fn push_record_line(
    out: &mut String,
    domain: &str,
    path: &str,
    secure: bool,
    expires: i64,
    name: &str,
    value: &str,
)
    ensures
        final(out)@ == old(out)@ + seq!['\n'] + record_line(
            domain@,
            path@,
            secure,
            expires as int,
            name@,
            value@,
        ),
{
    let ds = chars_of(domain);
    let sub = ds.len() > 0 && ds[0] == '.';
    out.push('\n');
    push_text(out, domain);
    out.push('\t');
    push_text(out, if sub { "TRUE" } else { "FALSE" });
    out.push('\t');
    push_text(out, path);
    out.push('\t');
    push_text(out, if secure { "TRUE" } else { "FALSE" });
    out.push('\t');
    push_int(out, expires);
    out.push('\t');
    push_text(out, name);
    out.push('\t');
    push_text(out, value);
    proof {
        assert(final(out)@ =~= old(out)@ + seq!['\n'] + record_line(
            domain@,
            path@,
            secure,
            expires as int,
            name@,
            value@,
        ));
    }
}

/// A cookie read from the browser's own cookie store.
#[derive(Clone, Debug)]
pub struct NativeCookie {
    pub name: String,
    pub value: String,
    pub domain: String,
    pub path: String,
    pub secure: bool,
    /// Expiry, in seconds since 1970.
    pub expires: i64,
}

/// The lines of stored cookies, in order, skipping those without a name.
pub open spec fn native_cookie_lines(cookies: Seq<NativeCookie>) -> Seq<Seq<char>>
    decreases cookies.len(),
{
    if cookies.len() == 0 {
        Seq::empty()
    } else {
        let rest = native_cookie_lines(cookies.drop_last());
        let c = cookies.last();
        if c.name@.len() == 0 {
            rest
        } else {
            rest.push(record_line(c.domain@, c.path@, c.secure, c.expires as int, c.name@, c.value@))
        }
    }
}

/// The comment header of a file written from the browser's store.
pub open spec fn store_cookie_header() -> Seq<Seq<char>> {
    seq!["# Netscape HTTP Cookie File"@, "# Generated by OpticalCortex"@, Seq::<char>::empty()]
}

/// The cookie file for cookies read from the browser's store.
pub open spec fn native_cookie_file(cookies: Seq<NativeCookie>) -> Seq<char> {
    join_lines(store_cookie_header() + native_cookie_lines(cookies))
}

/// Formats cookies read from the browser's store as a cookie file.
pub fn native_cookies_file(cookies: &Vec<NativeCookie>) -> (r: String)
    ensures
        r@ == native_cookie_file(cookies@),
{
    let mut out = String::new();
    start_file(&mut out, "# Netscape HTTP Cookie File", "# Generated by OpticalCortex");
    let ghost header = store_cookie_header();
    assert(header + native_cookie_lines(cookies@.take(0)) =~= header);
    let mut i: usize = 0;
    while i < cookies.len()
        invariant
            i <= cookies@.len(),
            header == store_cookie_header(),
            out@ == join_lines(header + native_cookie_lines(cookies@.take(i as int))),
        decreases cookies@.len() - i,
    {
        let c = &cookies[i];
        let ghost lines = native_cookie_lines(cookies@.take(i as int));
        proof {
            assert(cookies@.take(i + 1).drop_last() =~= cookies@.take(i as int));
            assert(cookies@.take(i + 1).last() == cookies@[i as int]);
            assert(header.len() == 3);
        }
        if !c.name.as_str().is_empty() {
            push_record_line(
                &mut out,
                c.domain.as_str(),
                c.path.as_str(),
                c.secure,
                c.expires,
                c.name.as_str(),
                c.value.as_str(),
            );
            proof {
                let l = record_line(c.domain@, c.path@, c.secure, c.expires as int, c.name@, c.value@);
                lemma_join_lines_push(header + lines, l);
                assert((header + lines).push(l) =~= header + lines.push(l));
            }
        }
        i = i + 1;
    }
    proof {
        assert(cookies@.take(cookies@.len() as int) =~= cookies@);
    }
    out
}

// ── Cookies from the DevTools protocol ────────────────────────────────────

/// A text member of a cookie object, or `default` when it is missing.
pub open spec fn text_or(v: Json, key: Seq<char>, default: Seq<char>) -> Seq<char> {
    match v.at(key).text() {
        Some(t) => t,
        None => default,
    }
}

/// The expiry of a cookie object: its `expires` number taken whole, or the
/// end of 32-bit time when it has none.
pub open spec fn cdp_expiry(v: Json) -> int {
    match v.at("expires"@) {
        Json::Number(n) => n.whole_i64 as int,
        _ => 2147483647,
    }
}

/// The line of a cookie object of `Network.getAllCookies`, or `None` for a
/// cookie without a name. The path defaults to `/`, security to false.
pub open spec fn cdp_cookie_line(v: Json) -> Option<Seq<char>> {
    let name = text_or(v, "name"@, Seq::empty());
    if name.len() == 0 {
        None
    } else {
        Some(
            record_line(
                text_or(v, "domain"@, Seq::empty()),
                text_or(v, "path"@, "/"@),
                match v.at("secure"@).flag() {
                    Some(b) => b,
                    None => false,
                },
                cdp_expiry(v),
                name,
                text_or(v, "value"@, Seq::empty()),
            ),
        )
    }
}

/// The lines of cookie objects, in order, skipping those without a name.
pub open spec fn cdp_cookie_lines(cookies: Seq<Json>) -> Seq<Seq<char>>
    decreases cookies.len(),
{
    if cookies.len() == 0 {
        Seq::empty()
    } else {
        let rest = cdp_cookie_lines(cookies.drop_last());
        match cdp_cookie_line(cookies.last()) {
            Some(l) => rest.push(l),
            None => rest,
        }
    }
}

/// The cookie file for a `Network.getAllCookies` response, or an error
/// when it holds no `cookies` array.
pub open spec fn cdp_cookie_file(root: Json) -> Result<Seq<char>, Seq<char>> {
    match root.at("cookies"@).items() {
        Some(cookies) => Ok(join_lines(page_cookie_header() + cdp_cookie_lines(cookies))),
        None => Err("No cookies array in CDP response"@),
    }
}

fn text_member_or(v: &Json, key: &str, default: &str) -> (r: String)
    ensures
        r@ == text_or(*v, key@, default@),
{
    match v.text_at(key) {
        Some(t) => t,
        None => String::from_str(default),
    }
}

/// Formats a `Network.getAllCookies` response as a cookie file.
pub fn cdp_cookies_file(root: &Json) -> (r: Result<String, String>)
    ensures
        match cdp_cookie_file(*root) {
            Ok(f) => r matches Ok(x) && x@ == f,
            Err(e) => r matches Err(x) && x@ == e,
        },
{
    let cookies = match root.items_at("cookies") {
        Some(cs) => cs,
        None => return Err(String::from_str("No cookies array in CDP response")),
    };
    let mut out = String::new();
    start_file(&mut out, "# Netscape HTTP Cookie File", "# Generated by Video Downloader - do not edit");
    let ghost header = page_cookie_header();
    assert(header + cdp_cookie_lines(cookies@.take(0)) =~= header);
    let mut i: usize = 0;
    while i < cookies.len()
        invariant
            i <= cookies@.len(),
            header == page_cookie_header(),
            out@ == join_lines(header + cdp_cookie_lines(cookies@.take(i as int))),
        decreases cookies@.len() - i,
    {
        let ck = &cookies[i];
        let ghost lines = cdp_cookie_lines(cookies@.take(i as int));
        proof {
            assert(cookies@.take(i + 1).drop_last() =~= cookies@.take(i as int));
            assert(cookies@.take(i + 1).last() == cookies@[i as int]);
            assert(header.len() == 3);
        }
        let name = text_member_or(ck, "name", "");
        proof {
            reveal_strlit("");
        }
        if !name.as_str().is_empty() {
            let value = text_member_or(ck, "value", "");
            let domain = text_member_or(ck, "domain", "");
            let path = text_member_or(ck, "path", "/");
            let secure = match ck.flag_at("secure") {
                Some(b) => b,
                None => false,
            };
            let expires: i64 = match ck.number_at("expires") {
                Some(n) => n.whole_i64,
                None => 2147483647,
            };
            push_record_line(
                &mut out,
                domain.as_str(),
                path.as_str(),
                secure,
                expires,
                name.as_str(),
                value.as_str(),
            );
            proof {
                assert(""@ =~= Seq::<char>::empty());
                let l = cdp_cookie_line(*ck)->0;
                lemma_join_lines_push(header + lines, l);
                assert((header + lines).push(l) =~= header + lines.push(l));
            }
        } else {
            proof {
                assert(""@ =~= Seq::<char>::empty());
            }
        }
        i = i + 1;
    }
    proof {
        assert(cookies@.take(cookies@.len() as int) =~= cookies@);
    }
    Ok(out)
}

/// Each named cookie object of a DevTools response gives one line of
/// seven tab-separated fields: its domain, `TRUE` when that domain starts
/// with a dot (subdomains match) and `FALSE` otherwise, its path (`/` when
/// it has none), `TRUE` exactly when its `secure` member is the boolean
/// true (`FALSE` when it is false, missing or of another kind), its expiry,
/// its name and its value, when none of those texts holds a tab.
pub proof fn lemma_cdp_cookie_fields(v: Json)
    requires
        text_or(v, "name"@, Seq::empty()).len() > 0,
        !text_or(v, "domain"@, Seq::empty()).contains('\t'),
        !text_or(v, "path"@, "/"@).contains('\t'),
        !text_or(v, "name"@, Seq::empty()).contains('\t'),
        !text_or(v, "value"@, Seq::empty()).contains('\t'),
    ensures
        ({
            let domain = text_or(v, "domain"@, Seq::empty());
            cdp_cookie_line(v) matches Some(line) && split_char(line, '\t') == seq![
                domain,
                if domain.len() > 0 && domain[0] == '.' {
                    "TRUE"@
                } else {
                    "FALSE"@
                },
                text_or(v, "path"@, "/"@),
                if v.at("secure"@) == Json::Bool(true) {
                    "TRUE"@
                } else {
                    "FALSE"@
                },
                int_decimal(cdp_expiry(v)),
                text_or(v, "name"@, Seq::empty()),
                text_or(v, "value"@, Seq::empty()),
            ]
        }),
{
    let secure = match v.at("secure"@).flag() {
        Some(b) => b,
        None => false,
    };
    lemma_record_line_fields(
        text_or(v, "domain"@, Seq::empty()),
        text_or(v, "path"@, "/"@),
        secure,
        cdp_expiry(v),
        text_or(v, "name"@, Seq::empty()),
        text_or(v, "value"@, Seq::empty()),
    );
}

// ── Reading lines back ────────────────────────────────────────────────────

proof fn lemma_split_without(s: Seq<char>, c: char)
    requires
        !s.contains(c),
    ensures
        split_char(s, c) == seq![s],
{
    lemma_find_char(s, c);
    if let Some(i) = find_char(s, c) {
        assert(s[i] == c);
    }
}

/// Splitting pieces free of `c`, joined by `c`, gives the pieces back.
proof fn lemma_split_fields(fields: Seq<Seq<char>>, c: char)
    requires
        fields.len() > 0,
        forall|i: int| 0 <= i < fields.len() ==> !(#[trigger] fields[i]).contains(c),
    ensures
        split_char(joined_with(fields, c), c) == fields,
    decreases fields.len(),
{
    if fields.len() == 1 {
        lemma_split_without(fields[0], c);
        assert(seq![fields[0]] =~= fields);
    } else {
        let rest = fields.drop_last();
        assert forall|i: int| 0 <= i < rest.len() implies !(#[trigger] rest[i]).contains(c) by {
            assert(rest[i] == fields[i]);
        }
        lemma_split_fields(rest, c);
        lemma_split_concat(joined_with(rest, c), fields.last(), c);
        lemma_split_without(fields.last(), c);
        assert(rest.push(fields.last()) =~= fields);
    }
}

/// The pieces joined with `c` between neighbours.
pub open spec fn joined_with(fields: Seq<Seq<char>>, c: char) -> Seq<char>
    decreases fields.len(),
{
    if fields.len() <= 1 {
        if fields.len() == 0 {
            Seq::empty()
        } else {
            fields[0]
        }
    } else {
        joined_with(fields.drop_last(), c) + seq![c] + fields.last()
    }
}

proof fn lemma_joined7(f: Seq<Seq<char>>, c: char)
    requires
        f.len() == 7,
    ensures
        joined_with(f, c) == f[0] + seq![c] + f[1] + seq![c] + f[2] + seq![c] + f[3] + seq![c]
            + f[4] + seq![c] + f[5] + seq![c] + f[6],
{
    let f6 = f.drop_last();
    let f5 = f6.drop_last();
    let f4 = f5.drop_last();
    let f3 = f4.drop_last();
    let f2 = f3.drop_last();
    let f1 = f2.drop_last();
    assert(joined_with(f1, c) == f[0]);
    assert(joined_with(f2, c) == f[0] + seq![c] + f[1]);
    assert(joined_with(f3, c) == joined_with(f2, c) + seq![c] + f[2]);
    assert(joined_with(f4, c) == joined_with(f3, c) + seq![c] + f[3]);
    assert(joined_with(f5, c) == joined_with(f4, c) + seq![c] + f[4]);
    assert(joined_with(f6, c) == joined_with(f5, c) + seq![c] + f[5]);
    assert(joined_with(f, c) == joined_with(f6, c) + seq![c] + f[6]);
    assert(joined_with(f, c) =~= f[0] + seq![c] + f[1] + seq![c] + f[2] + seq![c] + f[3] + seq![
        c,
    ] + f[4] + seq![c] + f[5] + seq![c] + f[6]);
}

proof fn lemma_digits_no_tab(n: nat)
    ensures
        !nat_digits(n).contains('\t'),
    decreases n,
{
    if n >= 10 {
        lemma_digits_no_tab(n / 10);
        let d = nat_digits(n);
        assert forall|i: int| 0 <= i < d.len() implies d[i] != '\t' by {
            if i < d.len() - 1 {
                assert(d[i] == nat_digits(n / 10)[i]);
            }
        }
    } else {
        assert(nat_digits(n)[0] != '\t');
    }
}

/// A session cookie line read back by tabs gives its seven fields: domain,
/// subdomains (TRUE), path (/), secure (TRUE), expiry, name and value, when
/// none of the domain, name and value holds a tab.
pub proof fn lemma_session_line_fields(domain: Seq<char>, name: Seq<char>, value: Seq<char>)
    requires
        !domain.contains('\t'),
        !name.contains('\t'),
        !value.contains('\t'),
    ensures
        split_char(session_cookie_line(domain, name, value), '\t') == seq![
            domain,
            "TRUE"@,
            "/"@,
            "TRUE"@,
            "2147483647"@,
            name,
            value,
        ],
{
    reveal_strlit("\tTRUE\t/\tTRUE\t2147483647\t");
    reveal_strlit("TRUE");
    reveal_strlit("/");
    reveal_strlit("2147483647");
    let f = seq![domain, "TRUE"@, "/"@, "TRUE"@, "2147483647"@, name, value];
    lemma_joined7(f, '\t');
    assert(joined_with(f, '\t') =~= session_cookie_line(domain, name, value));
    assert forall|i: int| 0 <= i < f.len() implies !(#[trigger] f[i]).contains('\t') by {
        if 1 <= i <= 4 {
            if f[i].contains('\t') {
                let k = choose|k: int| 0 <= k < f[i].len() && f[i][k] == '\t';
                assert(f[i][k] != '\t');
            }
        }
    }
    lemma_split_fields(f, '\t');
}

/// A stored cookie's line read back by tabs gives its seven fields, when
/// none of the domain, path, name and value holds a tab.
pub proof fn lemma_record_line_fields(
    domain: Seq<char>,
    path: Seq<char>,
    secure: bool,
    expires: int,
    name: Seq<char>,
    value: Seq<char>,
)
    requires
        !domain.contains('\t'),
        !path.contains('\t'),
        !name.contains('\t'),
        !value.contains('\t'),
    ensures
        split_char(record_line(domain, path, secure, expires, name, value), '\t') == seq![
            domain,
            if domain.len() > 0 && domain[0] == '.' {
                "TRUE"@
            } else {
                "FALSE"@
            },
            path,
            if secure {
                "TRUE"@
            } else {
                "FALSE"@
            },
            int_decimal(expires),
            name,
            value,
        ],
{
    reveal_strlit("TRUE");
    reveal_strlit("FALSE");
    let f = seq![
        domain,
        if domain.len() > 0 && domain[0] == '.' {
            "TRUE"@
        } else {
            "FALSE"@
        },
        path,
        if secure {
            "TRUE"@
        } else {
            "FALSE"@
        },
        int_decimal(expires),
        name,
        value,
    ];
    lemma_joined7(f, '\t');
    assert(joined_with(f, '\t') =~= record_line(domain, path, secure, expires, name, value));
    if expires < 0 {
        lemma_digits_no_tab((-expires) as nat);
        let d = int_decimal(expires);
        assert forall|k: int| 0 <= k < d.len() implies d[k] != '\t' by {
            if k > 0 {
                assert(d[k] == nat_digits((-expires) as nat)[k - 1]);
            }
        }
    } else {
        lemma_digits_no_tab(expires as nat);
    }
    assert forall|i: int| 0 <= i < f.len() implies !(#[trigger] f[i]).contains('\t') by {
        if i == 1 || i == 3 {
            if f[i].contains('\t') {
                let k = choose|k: int| 0 <= k < f[i].len() && f[i][k] == '\t';
                assert(f[i][k] != '\t');
            }
        }
    }
    lemma_split_fields(f, '\t');
}

// ── The file text read back by lines ─────────────────────────────────────



proof fn lemma_join_lines_joined(xs: Seq<Seq<char>>)
    ensures
        join_lines(xs) == joined_with(xs, '\n'),
    decreases xs.len(),
{
    if xs.len() > 1 {
        lemma_join_lines_joined(xs.drop_last());
    }
}

proof fn lemma_strip_avoids(h: Seq<char>, x: char)
    requires
        !h.contains(x),
    ensures
        !strip_www(h).contains(x),
        !strip_dots(strip_www(h)).contains(x),
    decreases h.len(),
{
    if starts_with(h, www_prefix()) {
        lemma_part_avoids(h, 4, h.len() as int, x);
        assert(h.skip(4) =~= h.subrange(4, h.len() as int));
        lemma_strip_avoids(h.skip(4), x);
    } else {
        lemma_dots_avoid(h, x);
    }
}

proof fn lemma_dots_avoid(h: Seq<char>, x: char)
    requires
        !h.contains(x),
    ensures
        !strip_dots(h).contains(x),
    decreases h.len(),
{
    if h.len() > 0 && h[0] == '.' {
        lemma_part_avoids(h, 1, h.len() as int, x);
        assert(h.drop_first() =~= h.subrange(1, h.len() as int));
        lemma_dots_avoid(h.drop_first(), x);
    }
}

proof fn lemma_pair_avoids(piece: Seq<char>, x: char)
    requires
        !piece.contains(x),
    ensures
        cookie_pair(piece) matches Some((name, value)) ==> !name.contains(x) && !value.contains(x),
{
    let p = trim(piece);
    lemma_trim_avoids(piece, x);
    lemma_find_char(p, '=');
    if let Some(i) = find_char(p, '=') {
        lemma_part_avoids(p, 0, i, x);
        lemma_part_avoids(p, i + 1, p.len() as int, x);
        assert(p.take(i) =~= p.subrange(0, i));
        assert(p.skip(i + 1) =~= p.subrange(i + 1, p.len() as int));
        lemma_trim_avoids(p.take(i), x);
        lemma_trim_avoids(p.skip(i + 1), x);
    }
}

proof fn lemma_session_lines_avoid(pieces: Seq<Seq<char>>, domain: Seq<char>)
    requires
        !domain.contains('\n'),
        forall|k: int| 0 <= k < pieces.len() ==> !(#[trigger] pieces[k]).contains('\n'),
    ensures
        forall|k: int|
            0 <= k < session_cookie_lines(pieces, domain).len() ==> !(#[trigger] session_cookie_lines(
                pieces,
                domain,
            )[k]).contains('\n'),
    decreases pieces.len(),
{
    if pieces.len() > 0 {
        let init = pieces.drop_last();
        assert forall|k: int| 0 <= k < init.len() implies !(#[trigger] init[k]).contains('\n') by {
            assert(init[k] == pieces[k]);
        }
        lemma_session_lines_avoid(init, domain);
        assert(!pieces.last().contains('\n'));
        lemma_pair_avoids(pieces.last(), '\n');
        if let Some((name, value)) = cookie_pair(pieces.last()) {
            reveal_strlit("\tTRUE\t/\tTRUE\t2147483647\t");
            let lit = "\tTRUE\t/\tTRUE\t2147483647\t"@;
            assert(!lit.contains('\n')) by {
                if lit.contains('\n') {
                    let j = choose|j: int| 0 <= j < lit.len() && lit[j] == '\n';
                    assert(lit[j] != '\n');
                }
            }
            assert(!seq!['\t'].contains('\n')) by {
                if seq!['\t'].contains('\n') {
                    let j = choose|j: int| 0 <= j < 1 && seq!['\t'][j] == '\n';
                    assert(seq!['\t'][j] == '\t');
                }
            }
            lemma_concat_avoids(domain, lit, '\n');
            lemma_concat_avoids(domain + lit, name, '\n');
            lemma_concat_avoids(domain + lit + name, seq!['\t'], '\n');
            lemma_concat_avoids(domain + lit + name + seq!['\t'], value, '\n');
            assert(domain + lit + name + seq!['\t'] + value =~= session_cookie_line(
                domain,
                name,
                value,
            ));
        }
        let all = session_cookie_lines(pieces, domain);
        let rest = session_cookie_lines(init, domain);
        assert forall|k: int| 0 <= k < all.len() implies !(#[trigger] all[k]).contains('\n') by {
            if k < rest.len() {
                assert(all[k] == rest[k]);
            }
        }
    }
}

/// With no newline in the cookie text or the hostname, the file read back
/// by lines gives the three header lines and then one line per cookie.
pub proof fn lemma_cookie_file_lines(cookie_str: Seq<char>, hostname: Seq<char>)
    requires
        !cookie_str.contains('\n'),
        !hostname.contains('\n'),
    ensures
        split_char(netscape_cookie_file(cookie_str, hostname), '\n') == page_cookie_header()
            + cookie_string_lines(cookie_str, cookie_domain(hostname)),
{
    let domain = cookie_domain(hostname);
    lemma_strip_avoids(hostname, '\n');
    assert(!seq!['.'].contains('\n')) by {
        if seq!['.'].contains('\n') {
            let j = choose|j: int| 0 <= j < 1 && seq!['.'][j] == '\n';
            assert(seq!['.'][j] == '.');
        }
    }
    lemma_concat_avoids(seq!['.'], strip_dots(strip_www(hostname)), '\n');
    lemma_split_avoids(cookie_str, ';', '\n');
    lemma_session_lines_avoid(split_char(cookie_str, ';'), domain);
    let lines = cookie_string_lines(cookie_str, domain);
    let header = page_cookie_header();
    let all = header + lines;
    reveal_strlit("# Netscape HTTP Cookie File");
    reveal_strlit("# Generated by Video Downloader - do not edit");
    assert forall|k: int| 0 <= k < all.len() implies !(#[trigger] all[k]).contains('\n') by {
        if k >= 3 {
            assert(all[k] == lines[k - 3]);
        } else if all[k].contains('\n') {
            let j = choose|j: int| 0 <= j < all[k].len() && all[k][j] == '\n';
            assert(all[k][j] != '\n');
        }
    }
    lemma_join_lines_joined(all);
    lemma_split_fields(all, '\n');
}

/// The file for `a;b`, read back by lines, holds after its header the
/// cookie lines of `a` and then those of `b`, in order (no newline in the
/// texts).
pub proof fn lemma_cookie_file_concat(a: Seq<char>, b: Seq<char>, hostname: Seq<char>)
    requires
        !a.contains('\n'),
        !b.contains('\n'),
        !hostname.contains('\n'),
    ensures
        split_char(netscape_cookie_file(a + seq![';'] + b, hostname), '\n').skip(3) == split_char(
            netscape_cookie_file(a, hostname),
            '\n',
        ).skip(3) + split_char(netscape_cookie_file(b, hostname), '\n').skip(3),
{
    let ab = a + seq![';'] + b;
    assert(!ab.contains('\n')) by {
        assert(!seq![';'].contains('\n')) by {
            if seq![';'].contains('\n') {
                let j = choose|j: int| 0 <= j < 1 && seq![';'][j] == '\n';
                assert(seq![';'][j] == ';');
            }
        }
        lemma_concat_avoids(a, seq![';'], '\n');
        lemma_concat_avoids(a + seq![';'], b, '\n');
    }
    let d = cookie_domain(hostname);
    lemma_cookie_file_lines(ab, hostname);
    lemma_cookie_file_lines(a, hostname);
    lemma_cookie_file_lines(b, hostname);
    lemma_cookie_lines_concat(a, b, d);
    let h = page_cookie_header();
    assert((h + cookie_string_lines(ab, d)).skip(3) =~= cookie_string_lines(ab, d));
    assert((h + cookie_string_lines(a, d)).skip(3) =~= cookie_string_lines(a, d));
    assert((h + cookie_string_lines(b, d)).skip(3) =~= cookie_string_lines(b, d));
}

} // verus!
