//! Character-level text operations shared by the rest of the library:
//! whitespace trimming, searching, splitting, joining and decimal rendering,
//! each with a specification over `Seq<char>`.
use vstd::prelude::*;

verus! {

/// `String::push` appends one character to the end of the string.
pub assume_specification[ String::push ](s: &mut String, ch: char)
    ensures
        final(s)@ == old(s)@.push(ch),
;

/// The lowercase form of a text as `str::to_lowercase` computes it: the
/// Unicode lowercase mapping, including the context-dependent rule by which
/// a capital sigma at the end of a word becomes a final sigma.
pub uninterp spec fn lowercase(s: Seq<char>) -> Seq<char>;

/// `str::to_lowercase` returns the lowercase form of the text.
pub assume_specification[ str::to_lowercase ](s: &str) -> (r: String)
    ensures
        r@ == lowercase(s@),
;

// ── Whitespace and trimming ───────────────────────────────────────────────

/// The characters with the Unicode `White_Space` property, which is what
/// `char::is_whitespace` (and so `str::trim`) treats as whitespace.
pub open spec fn is_white(c: char) -> bool {
    ||| ('\u{9}' <= c && c <= '\u{d}')
    ||| c == ' '
    ||| c == '\u{85}'
    ||| c == '\u{a0}'
    ||| c == '\u{1680}'
    ||| ('\u{2000}' <= c && c <= '\u{200a}')
    ||| c == '\u{2028}'
    ||| c == '\u{2029}'
    ||| c == '\u{202f}'
    ||| c == '\u{205f}'
    ||| c == '\u{3000}'
}

pub fn is_white_char(c: char) -> (r: bool)
    ensures
        r == is_white(c),
{
    ('\u{9}' <= c && c <= '\u{d}') || c == ' ' || c == '\u{85}' || c == '\u{a0}' || c
        == '\u{1680}' || ('\u{2000}' <= c && c <= '\u{200a}') || c == '\u{2028}' || c
        == '\u{2029}' || c == '\u{202f}' || c == '\u{205f}' || c == '\u{3000}'
}

/// `s` without its leading whitespace.
pub open spec fn trim_start(s: Seq<char>) -> Seq<char>
    decreases s.len(),
{
    if s.len() > 0 && is_white(s[0]) {
        trim_start(s.drop_first())
    } else {
        s
    }
}

/// `s` without its trailing whitespace.
pub open spec fn trim_end(s: Seq<char>) -> Seq<char>
    decreases s.len(),
{
    if s.len() > 0 && is_white(s.last()) {
        trim_end(s.drop_last())
    } else {
        s
    }
}

/// `s` without leading and trailing whitespace, as `str::trim` gives it.
pub open spec fn trim(s: Seq<char>) -> Seq<char> {
    trim_end(trim_start(s))
}

/// A trimmed text has no whitespace at either end, and trimming it again
/// changes nothing.
pub proof fn lemma_trim_idempotent(s: Seq<char>)
    ensures
        trim(trim(s)) == trim(s),
        trim(s).len() > 0 ==> !is_white(trim(s)[0]) && !is_white(trim(s).last()),
    decreases s.len(),
{
    lemma_trim_start_shape(s);
    lemma_trim_end_shape(trim_start(s));
    let t = trim(s);
    if t.len() > 0 {
        // t is a prefix of trim_start(s), so it starts with its first char
        assert(t[0] == trim_start(s)[0]);
        lemma_trim_start_fixed(t);
        lemma_trim_end_fixed(t);
    } else {
        assert(trim_start(t) == t);
        assert(trim_end(t) == t);
    }
}

proof fn lemma_trim_start_fixed(s: Seq<char>)
    requires
        s.len() == 0 || !is_white(s[0]),
    ensures
        trim_start(s) == s,
{
}

proof fn lemma_trim_end_fixed(s: Seq<char>)
    requires
        s.len() == 0 || !is_white(s.last()),
    ensures
        trim_end(s) == s,
{
}

/// `trim_start(s)` is a suffix of `s` that is empty or starts with a
/// non-whitespace character.
pub proof fn lemma_trim_start_shape(s: Seq<char>)
    ensures
        trim_start(s).len() <= s.len(),
        trim_start(s) == s.skip(s.len() - trim_start(s).len()),
        trim_start(s).len() == 0 || !is_white(trim_start(s)[0]),
        forall|k: int| 0 <= k < s.len() - trim_start(s).len() ==> is_white(#[trigger] s[k]),
    decreases s.len(),
{
    if s.len() > 0 && is_white(s[0]) {
        lemma_trim_start_shape(s.drop_first());
        assert(s.drop_first().skip(s.drop_first().len() - trim_start(s.drop_first()).len())
            =~= s.skip(s.len() - trim_start(s).len()));
        assert forall|k: int| 0 <= k < s.len() - trim_start(s).len() implies is_white(
            #[trigger] s[k],
        ) by {
            if k > 0 {
                assert(s[k] == s.drop_first()[k - 1]);
            }
        }
    } else {
        assert(s.skip(0) =~= s);
    }
}

/// `trim_end(s)` is a prefix of `s` that is empty or ends with a
/// non-whitespace character.
pub proof fn lemma_trim_end_shape(s: Seq<char>)
    ensures
        trim_end(s).len() <= s.len(),
        trim_end(s) == s.take(trim_end(s).len() as int),
        trim_end(s).len() == 0 || !is_white(trim_end(s).last()),
        forall|k: int| trim_end(s).len() <= k < s.len() ==> is_white(#[trigger] s[k]),
    decreases s.len(),
{
    if s.len() > 0 && is_white(s.last()) {
        lemma_trim_end_shape(s.drop_last());
        assert(s.drop_last().take(trim_end(s.drop_last()).len() as int) =~= s.take(
            trim_end(s).len() as int,
        ));
        assert forall|k: int| trim_end(s).len() <= k < s.len() implies is_white(
            #[trigger] s[k],
        ) by {
            if k < s.len() - 1 {
                assert(s[k] == s.drop_last()[k]);
            }
        }
    } else {
        assert(s.take(s.len() as int) =~= s);
    }
}

/// The bounds, within `cs[lo..hi]`, of that range with its surrounding
/// whitespace removed.
pub fn trim_range(cs: &Vec<char>, lo: usize, hi: usize) -> (r: (usize, usize))
    requires
        lo <= hi <= cs@.len(),
    ensures
        lo <= r.0 <= r.1 <= hi,
        cs@.subrange(r.0 as int, r.1 as int) == trim(cs@.subrange(lo as int, hi as int)),
{
    let mut a = lo;
    while a < hi && is_white_char(cs[a])
        invariant
            lo <= a <= hi <= cs@.len(),
            trim_start(cs@.subrange(lo as int, hi as int)) == trim_start(
                cs@.subrange(a as int, hi as int),
            ),
        decreases hi - a,
    {
        assert(cs@.subrange(a as int, hi as int).drop_first() =~= cs@.subrange(
            a + 1,
            hi as int,
        ));
        a = a + 1;
    }
    let ghost after_start = cs@.subrange(a as int, hi as int);
    assert(trim_start(after_start) == after_start) by {
        if a < hi {
            assert(after_start[0] == cs@[a as int]);
        }
        lemma_trim_start_fixed(after_start);
    }
    let mut b = hi;
    while b > a && is_white_char(cs[b - 1])
        invariant
            lo <= a <= b <= hi <= cs@.len(),
            trim_end(cs@.subrange(a as int, hi as int)) == trim_end(
                cs@.subrange(a as int, b as int),
            ),
        decreases b - a,
    {
        assert(cs@.subrange(a as int, b as int).drop_last() =~= cs@.subrange(
            a as int,
            b - 1,
        ));
        b = b - 1;
    }
    assert(trim_end(cs@.subrange(a as int, b as int)) == cs@.subrange(a as int, b as int)) by {
        let t = cs@.subrange(a as int, b as int);
        if b > a {
            assert(t.last() == cs@[b - 1]);
        }
        lemma_trim_end_fixed(t);
    }
    (a, b)
}

// ── Characters of a string ────────────────────────────────────────────────

/// The characters of `s`, in order.
pub fn chars_of(s: &str) -> (v: Vec<char>)
    ensures
        v@ == s@,
{
    let mut v: Vec<char> = Vec::new();
    for c in it: s.chars()
        invariant
            it.seq() == s@,
            v@ == s@.take(it.index()),
    {
        v.push(c);
    }
    v
}

/// Appends `cs[lo..hi]` to `out`.
pub fn push_range(out: &mut String, cs: &Vec<char>, lo: usize, hi: usize)
    requires
        lo <= hi <= cs@.len(),
    ensures
        final(out)@ == old(out)@ + cs@.subrange(lo as int, hi as int),
{
    let mut i = lo;
    while i < hi
        invariant
            lo <= i <= hi <= cs@.len(),
            out@ == old(out)@ + cs@.subrange(lo as int, i as int),
        decreases hi - i,
    {
        out.push(cs[i]);
        assert(cs@.subrange(lo as int, i + 1) =~= cs@.subrange(lo as int, i as int).push(
            cs@[i as int],
        ));
        i = i + 1;
    }
}

/// A `String` holding exactly the characters `cs[lo..hi]`.
pub fn string_of_range(cs: &Vec<char>, lo: usize, hi: usize) -> (s: String)
    requires
        lo <= hi <= cs@.len(),
    ensures
        s@ == cs@.subrange(lo as int, hi as int),
{
    let mut s = String::new();
    push_range(&mut s, cs, lo, hi);
    s
}

/// Appends the text of `t` to `out`.
pub fn push_text(out: &mut String, t: &str)
    ensures
        final(out)@ == old(out)@ + t@,
{
    out.append(t);
}

/// Whether two texts are equal.
pub fn same_text(a: &str, b: &str) -> (r: bool)
    ensures
        r == (a@ == b@),
{
    let x = String::from_str(a);
    let y = String::from_str(b);
    x == y
}

/// The text of `s` with surrounding whitespace removed, as `str::trim`.
pub fn trimmed(s: &str) -> (r: String)
    ensures
        r@ == trim(s@),
{
    let cs = chars_of(s);
    let (a, b) = trim_range(&cs, 0, cs.len());
    assert(cs@.subrange(0, cs@.len() as int) =~= s@);
    string_of_range(&cs, a, b)
}

// ── Searching ─────────────────────────────────────────────────────────────

/// The position of the first `c` in `s`, if any.
pub open spec fn find_char(s: Seq<char>, c: char) -> Option<int>
    decreases s.len(),
{
    if s.len() == 0 {
        None
    } else if s[0] == c {
        Some(0)
    } else {
        match find_char(s.drop_first(), c) {
            Some(i) => Some(i + 1),
            None => None,
        }
    }
}

/// `find_char` gives the first occurrence, or `None` when there is none.
pub proof fn lemma_find_char(s: Seq<char>, c: char)
    ensures
        find_char(s, c) matches Some(i) ==> 0 <= i < s.len() && s[i] == c && forall|j: int|
            0 <= j < i ==> s[j] != c,
        find_char(s, c) is None ==> forall|j: int| 0 <= j < s.len() ==> s[j] != c,
    decreases s.len(),
{
    if s.len() > 0 && s[0] != c {
        lemma_find_char(s.drop_first(), c);
        if let Some(i) = find_char(s, c) {
            assert forall|j: int| 0 <= j < i implies s[j] != c by {
                if j > 0 {
                    assert(s[j] == s.drop_first()[j - 1]);
                }
            }
        } else {
            assert forall|j: int| 0 <= j < s.len() implies s[j] != c by {
                if j > 0 {
                    assert(s[j] == s.drop_first()[j - 1]);
                }
            }
        }
    }
}

/// The first `c` at or after `from`, in `cs[from..hi]`.
pub fn find_char_in(cs: &Vec<char>, c: char, from: usize, hi: usize) -> (r: Option<usize>)
    requires
        from <= hi <= cs@.len(),
    ensures
        match find_char(cs@.subrange(from as int, hi as int), c) {
            Some(k) => r == Some((from + k) as usize),
            None => r is None,
        },
{
    let mut i = from;
    while i < hi
        invariant
            from <= i <= hi <= cs@.len(),
            find_char(cs@.subrange(from as int, hi as int), c) == (match find_char(
                cs@.subrange(i as int, hi as int),
                c,
            ) {
                Some(k) => Some(k + (i - from)),
                None => None::<int>,
            }),
        decreases hi - i,
    {
        if cs[i] == c {
            return Some(i);
        }
        assert(cs@.subrange(i as int, hi as int).drop_first() =~= cs@.subrange(
            i + 1,
            hi as int,
        ));
        i = i + 1;
    }
    None
}

/// `t` occurs in `s` at position `i`.
pub open spec fn occurs_at(s: Seq<char>, t: Seq<char>, i: int) -> bool {
    0 <= i && i + t.len() <= s.len() && s.subrange(i, i + t.len()) == t
}

/// `t` occurs somewhere in `s`, as `str::contains` tests.
pub open spec fn contains(s: Seq<char>, t: Seq<char>) -> bool {
    exists|i: int| occurs_at(s, t, i)
}

/// Whether `t` occurs in `cs`.
pub fn contains_chars(cs: &Vec<char>, t: &Vec<char>) -> (r: bool)
    ensures
        r == contains(cs@, t@),
{
    let n = cs.len();
    let m = t.len();
    if m > n {
        assert forall|i: int| !occurs_at(cs@, t@, i) by {}
        return false;
    }
    if m == 0 {
        assert(cs@.subrange(0, 0) =~= t@);
        assert(occurs_at(cs@, t@, 0));
        return true;
    }
    let mut i: usize = 0;
    while i <= n - m
        invariant
            0 < m <= n,
            n == cs@.len(),
            m == t@.len(),
            i <= n - m + 1,
            forall|k: int| 0 <= k < i ==> !occurs_at(cs@, t@, k),
        decreases n - m + 1 - i,
    {
        let mut j: usize = 0;
        let mut same = true;
        while j < m
            invariant
                m <= n,
                n == cs@.len(),
                m == t@.len(),
                i <= n - m,
                j <= m,
                same ==> forall|k: int| 0 <= k < j ==> cs@[i + k] == t@[k],
                !same ==> !occurs_at(cs@, t@, i as int),
            decreases m - j,
        {
            if cs[i + j] != t[j] {
                same = false;
                assert(cs@.subrange(i as int, i + m)[j as int] != t@[j as int]);
            }
            j = j + 1;
        }
        if same {
            assert(cs@.subrange(i as int, i + m) =~= t@);
            assert(occurs_at(cs@, t@, i as int));
            return true;
        }
        i = i + 1;
    }
    assert forall|k: int| !occurs_at(cs@, t@, k) by {
        if 0 <= k && k + m <= n {
            assert(k < i);
        }
    }
    false
}

/// Whether `t` occurs in `s`.
pub fn contains_text(s: &str, t: &str) -> (r: bool)
    ensures
        r == contains(s@, t@),
{
    let cs = chars_of(s);
    let ts = chars_of(t);
    contains_chars(&cs, &ts)
}

/// `s` begins with `p`.
pub open spec fn starts_with(s: Seq<char>, p: Seq<char>) -> bool {
    p.len() <= s.len() && s.take(p.len() as int) == p
}

// ── Splitting and joining ─────────────────────────────────────────────────

/// The pieces of `s` between occurrences of `c`, as `str::split(c)` yields
/// them (an empty text gives one empty piece).
pub open spec fn split_char(s: Seq<char>, c: char) -> Seq<Seq<char>>
    decreases s.len(),
{
    match find_char(s, c) {
        Some(i) => {
            proof {
                lemma_find_char(s, c);
            }
            seq![s.take(i)] + split_char(s.skip(i + 1), c)
        },
        None => seq![s],
    }
}

/// The first `c` of `s` is the one at `i` when no `c` stands before it.
pub proof fn lemma_find_char_unique(s: Seq<char>, c: char, i: int)
    requires
        0 <= i < s.len(),
        s[i] == c,
        forall|j: int| 0 <= j < i ==> s[j] != c,
    ensures
        find_char(s, c) == Some(i),
    decreases i,
{
    if i > 0 {
        assert forall|j: int| 0 <= j < i - 1 implies s.drop_first()[j] != c by {
            assert(s.drop_first()[j] == s[j + 1]);
        }
        lemma_find_char_unique(s.drop_first(), c, i - 1);
    }
}

/// A piece ends at the first `c` after its start.
pub proof fn lemma_split_step(s: Seq<char>, c: char, start: int, end: int)
    requires
        0 <= start <= end < s.len(),
        s[end] == c,
        forall|k: int| start <= k < end ==> s[k] != c,
    ensures
        split_char(s.skip(start), c) == seq![s.subrange(start, end)] + split_char(
            s.skip(end + 1),
            c,
        ),
{
    let t = s.skip(start);
    lemma_find_char_unique(t, c, end - start);
    assert(t.take(end - start) =~= s.subrange(start, end));
    assert(t.skip(end - start + 1) =~= s.skip(end + 1));
}

/// With no `c` after `start`, the rest is a single piece.
pub proof fn lemma_split_last(s: Seq<char>, c: char, start: int)
    requires
        0 <= start <= s.len(),
        forall|k: int| start <= k < s.len() ==> s[k] != c,
    ensures
        split_char(s.skip(start), c) == seq![s.subrange(start, s.len() as int)],
{
    let t = s.skip(start);
    lemma_find_char(t, c);
    if let Some(i) = find_char(t, c) {
        assert(t[i] == s[start + i]);
    }
    assert(t =~= s.subrange(start, s.len() as int));
}

/// No piece of a split holds the character split at, nor any character
/// that the text does not hold.
pub proof fn lemma_split_avoids(s: Seq<char>, c: char, x: char)
    ensures
        forall|k: int|
            0 <= k < split_char(s, c).len() ==> !(#[trigger] split_char(s, c)[k]).contains(c),
        !s.contains(x) ==> forall|k: int|
            0 <= k < split_char(s, c).len() ==> !(#[trigger] split_char(s, c)[k]).contains(x),
    decreases s.len(),
{
    lemma_find_char(s, c);
    match find_char(s, c) {
        Some(i) => {
            let head = s.take(i);
            let rest = s.skip(i + 1);
            lemma_split_avoids(rest, c, x);
            let parts = split_char(s, c);
            assert(parts == seq![head] + split_char(rest, c));
            if !s.contains(x) {
                assert(!rest.contains(x)) by {
                    if rest.contains(x) {
                        let j = choose|j: int| 0 <= j < rest.len() && rest[j] == x;
                        assert(s[i + 1 + j] == x);
                    }
                }
            }
            assert forall|k: int| 0 <= k < parts.len() implies !(#[trigger] parts[k]).contains(c)
                && (!s.contains(x) ==> !parts[k].contains(x)) by {
                if k == 0 {
                    assert(parts[0] == head);
                    if head.contains(c) {
                        let j = choose|j: int| 0 <= j < head.len() && head[j] == c;
                        assert(s[j] == c);
                    }
                    if !s.contains(x) && head.contains(x) {
                        let j = choose|j: int| 0 <= j < head.len() && head[j] == x;
                        assert(s[j] == x);
                    }
                } else {
                    assert(parts[k] == split_char(rest, c)[k - 1]);
                }
            }
        },
        None => {
            assert(split_char(s, c) == seq![s]);
        },
    }
}

/// A concatenation holds only characters that its parts hold.
pub proof fn lemma_concat_avoids(a: Seq<char>, b: Seq<char>, x: char)
    requires
        !a.contains(x),
        !b.contains(x),
    ensures
        !(a + b).contains(x),
{
    if (a + b).contains(x) {
        let j = choose|j: int| 0 <= j < (a + b).len() && (a + b)[j] == x;
        if j < a.len() {
            assert(a[j] == x);
        } else {
            assert(b[j - a.len()] == x);
        }
    }
}

/// A part of a text holds only characters that the text holds.
pub proof fn lemma_part_avoids(s: Seq<char>, lo: int, hi: int, x: char)
    requires
        0 <= lo <= hi <= s.len(),
        !s.contains(x),
    ensures
        !s.subrange(lo, hi).contains(x),
{
    if s.subrange(lo, hi).contains(x) {
        let j = choose|j: int| 0 <= j < hi - lo && s.subrange(lo, hi)[j] == x;
        assert(s[lo + j] == x);
    }
}

/// Trimming keeps no character that the text does not hold.
pub proof fn lemma_trim_avoids(s: Seq<char>, x: char)
    requires
        !s.contains(x),
    ensures
        !trim(s).contains(x),
{
    lemma_trim_start_shape(s);
    let t = trim_start(s);
    lemma_trim_end_shape(t);
    if trim(s).contains(x) {
        let j = choose|j: int| 0 <= j < trim(s).len() && trim(s)[j] == x;
        assert(trim(s)[j] == t[j]);
        assert(t[j] == s[s.len() - t.len() + j]);
    }
}

/// The texts of `xs` with a newline between neighbours, as `join("\n")`.
pub open spec fn join_lines(xs: Seq<Seq<char>>) -> Seq<char>
    decreases xs.len(),
{
    if xs.len() == 0 {
        Seq::empty()
    } else if xs.len() == 1 {
        xs[0]
    } else {
        join_lines(xs.drop_last()) + seq!['\n'] + xs.last()
    }
}

/// Joining one more line onto a non-empty list adds a newline and that line.
pub proof fn lemma_join_lines_push(xs: Seq<Seq<char>>, l: Seq<char>)
    requires
        xs.len() > 0,
    ensures
        join_lines(xs.push(l)) == join_lines(xs) + seq!['\n'] + l,
{
    assert(xs.push(l).drop_last() =~= xs);
}

/// The first of the pieces that is not blank, trimmed.
pub open spec fn first_nonblank(pieces: Seq<Seq<char>>) -> Option<Seq<char>>
    decreases pieces.len(),
{
    if pieces.len() == 0 {
        None
    } else if trim(pieces[0]).len() > 0 {
        Some(trim(pieces[0]))
    } else {
        first_nonblank(pieces.drop_first())
    }
}

/// The first non-blank line of `s`, trimmed, or `default` when every line is
/// blank (`s.lines().find(|l| !l.trim().is_empty())`; the carriage return
/// that `lines` strips is whitespace, so trimming removes it as well).
pub open spec fn first_line_or(s: Seq<char>, default: Seq<char>) -> Seq<char> {
    match first_nonblank(split_char(s, '\n')) {
        Some(l) => l,
        None => default,
    }
}

/// The first non-blank line of `s`, trimmed.
pub fn first_nonblank_line(s: &str) -> (r: Option<String>)
    ensures
        match first_nonblank(split_char(s@, '\n')) {
            Some(l) => r matches Some(x) && x@ == l,
            None => r is None,
        },
{
    let cs = chars_of(s);
    let n = cs.len();
    let mut start: usize = 0;
    assert(cs@.skip(0) =~= cs@);
    loop
        invariant
            start <= n,
            n == cs@.len(),
            cs@ == s@,
            first_nonblank(split_char(cs@, '\n')) == first_nonblank(
                split_char(cs@.skip(start as int), '\n'),
            ),
        decreases n - start,
    {
        let end = match find_char_in(&cs, '\n', start, n) {
            Some(j) => j,
            None => n,
        };
        let ghost piece = cs@.subrange(start as int, end as int);
        proof {
            lemma_find_char(cs@.subrange(start as int, n as int), '\n');
            assert forall|k: int| start <= k < end implies cs@[k] != '\n' by {
                assert(cs@[k] == cs@.subrange(start as int, n as int)[k - start]);
            }
            if end < n {
                assert(cs@[end as int] == cs@.subrange(start as int, n as int)[end - start]);
                lemma_split_step(cs@, '\n', start as int, end as int);
                let rest = split_char(cs@.skip(end + 1), '\n');
                assert((seq![piece] + rest).drop_first() =~= rest);
                assert((seq![piece] + rest)[0] == piece);
            } else {
                lemma_split_last(cs@, '\n', start as int);
                assert(seq![piece].drop_first() =~= Seq::<Seq<char>>::empty());
            }
        }
        let (a, b) = trim_range(&cs, start, end);
        if a < b {
            return Some(string_of_range(&cs, a, b));
        }
        if end == n {
            proof {
                assert(trim(piece).len() == 0);
                assert(first_nonblank(seq![piece]) == first_nonblank(
                    Seq::<Seq<char>>::empty(),
                ));
            }
            return None;
        }
        start = end + 1;
    }
}

/// The first non-blank line of `s`, trimmed, or `default`.
pub fn first_line_or_default(s: &str, default: &str) -> (r: String)
    ensures
        r@ == first_line_or(s@, default@),
{
    match first_nonblank_line(s) {
        Some(l) => l,
        None => String::from_str(default),
    }
}

// ── Decimal rendering ─────────────────────────────────────────────────────

/// The decimal digit character for `d < 10`.
pub open spec fn digit_char(d: nat) -> char {
    if d == 0 {
        '0'
    } else if d == 1 {
        '1'
    } else if d == 2 {
        '2'
    } else if d == 3 {
        '3'
    } else if d == 4 {
        '4'
    } else if d == 5 {
        '5'
    } else if d == 6 {
        '6'
    } else if d == 7 {
        '7'
    } else if d == 8 {
        '8'
    } else {
        '9'
    }
}

/// The decimal digits of `n`, without leading zeros ("0" for zero).
pub open spec fn nat_digits(n: nat) -> Seq<char>
    decreases n,
{
    if n < 10 {
        seq![digit_char(n)]
    } else {
        nat_digits(n / 10).push(digit_char(n % 10))
    }
}

/// The decimal rendering of an integer, with a leading '-' when negative,
/// as `Display` writes integers.
pub open spec fn int_decimal(n: int) -> Seq<char> {
    if n < 0 {
        seq!['-'] + nat_digits((-n) as nat)
    } else {
        nat_digits(n as nat)
    }
}

fn digit_of(d: u64) -> (c: char)
    requires
        d < 10,
    ensures
        c == digit_char(d as nat),
{
    if d == 0 {
        '0'
    } else if d == 1 {
        '1'
    } else if d == 2 {
        '2'
    } else if d == 3 {
        '3'
    } else if d == 4 {
        '4'
    } else if d == 5 {
        '5'
    } else if d == 6 {
        '6'
    } else if d == 7 {
        '7'
    } else if d == 8 {
        '8'
    } else {
        '9'
    }
}

/// Appends the decimal digits of `n` to `out`.
pub fn push_digits(out: &mut String, n: u64)
    ensures
        final(out)@ == old(out)@ + nat_digits(n as nat),
    decreases n,
{
    if n >= 10 {
        push_digits(out, n / 10);
    }
    out.push(digit_of(n % 10));
    proof {
        if n >= 10 {
            assert(nat_digits(n as nat) == nat_digits((n / 10) as nat).push(
                digit_char((n % 10) as nat),
            ));
        }
    }
}

/// Appends the decimal rendering of `n` to `out`.
pub fn push_int(out: &mut String, n: i64)
    ensures
        final(out)@ == old(out)@ + int_decimal(n as int),
{
    if n < 0 {
        out.push('-');
        let mag: u64 = (-(n as i128)) as u64;
        push_digits(out, mag);
    } else {
        push_digits(out, n as u64);
    }
}

} // verus!
