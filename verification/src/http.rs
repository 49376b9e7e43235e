//! The small part of HTTP/1.1 that KLAP needs: the head of a POST request,
//! and what is read from the head of a response (status code, body length,
//! session cookie), and when the head of a response has been read whole.
//!
//! Header names are matched ignoring ASCII case.

use vstd::prelude::*;
use crate::fmt::{parse_uint, parse_uint_exec};
use crate::text::{
    append_chars, ascii_lower_seq, decimal, decimal_chars, is_unicode_whitespace, is_ws,
    lemma_leading_ws_bound, lemma_leading_ws_exact, lower_chars, starts_with,
    starts_with_chars, sub_chars, trim, trim_chars, trim_start, chars_of,
};

verus! {

/// Position of the first `c` in `s`, or the length of `s` when there is none.
pub open spec fn char_index(s: Seq<char>, c: char) -> nat
    decreases s.len(),
{
    if s.len() == 0 || s[0] == c { 0 } else { 1 + char_index(s.drop_first(), c) }
}

proof fn lemma_char_index(s: Seq<char>, c: char, k: nat)
    requires
        k <= s.len(),
        forall|i: int| 0 <= i < k ==> s[i] != c,
        k == s.len() || s[k as int] == c,
    ensures
        char_index(s, c) == k,
    decreases k,
{
    if k > 0 {
        let d = s.drop_first();
        assert forall|i: int| 0 <= i < k - 1 implies d[i] != c by {
            assert(d[i] == s[i + 1]);
        }
        if k < s.len() {
            assert(d[k - 1] == s[k as int]);
        }
        lemma_char_index(d, c, (k - 1) as nat);
    }
}

/// Position of the first `c` at or after `from`, or the length of `s`.
fn find_char(s: &[char], from: usize, c: char) -> (j: usize)
    requires
        from <= s@.len(),
    ensures
        from <= j <= s@.len(),
        j - from == char_index(s@.subrange(from as int, s@.len() as int), c),
{
    let mut j: usize = from;
    while j < s.len() && s[j] != c
        invariant
            from <= j <= s@.len(),
            forall|i: int| from <= i < j ==> s@[i] != c,
        decreases s@.len() - j,
    {
        j = j + 1;
    }
    proof {
        let t = s@.subrange(from as int, s@.len() as int);
        assert forall|i: int| 0 <= i < j - from implies t[i] != c by {
            assert(t[i] == s@[from + i]);
        }
        if j < s@.len() {
            assert(t[j - from] == s@[j as int]);
        }
        lemma_char_index(t, c, (j - from) as nat);
    }
    j
}

/// `l` without one trailing carriage return.
pub open spec fn strip_cr(l: Seq<char>) -> Seq<char> {
    if l.len() > 0 && l.last() == '\r' { l.drop_last() } else { l }
}

/// The lines of `s` as std's `str::lines` yields them: split after each
/// line feed, with the line feed and a carriage return before it removed;
/// a last line without a line feed is kept as it is.
pub open spec fn text_lines(s: Seq<char>) -> Seq<Seq<char>>
    decreases s.len(),
{
    if s.len() == 0 {
        Seq::empty()
    } else {
        let i = char_index(s, '\n');
        if i >= s.len() {
            seq![s]
        } else {
            seq![strip_cr(s.take(i as int))] + text_lines(s.skip(i as int + 1))
        }
    }
}

/// The views of a sequence of character vectors.
pub open spec fn views(v: Seq<Vec<char>>) -> Seq<Seq<char>> {
    v.map_values(|x: Vec<char>| x@)
}

/// The lines of `s` (see `text_lines`).
pub fn lines(s: &[char]) -> (r: Vec<Vec<char>>)
    ensures
        views(r@) == text_lines(s@),
{
    let mut r: Vec<Vec<char>> = Vec::new();
    let mut st: usize = 0;
    assert(s@.skip(0) =~= s@);
    while st < s.len()
        invariant
            st <= s@.len(),
            text_lines(s@) == views(r@) + text_lines(s@.skip(st as int)),
        decreases s@.len() - st,
    {
        let ghost rest = s@.skip(st as int);
        let ghost before = views(r@);
        let j = find_char(s, st, '\n');
        assert(rest =~= s@.subrange(st as int, s@.len() as int));
        if j == s.len() {
            let line = sub_chars(s, st, j);
            r.push(line);
            assert(rest =~= s@.subrange(st as int, j as int));
            assert(text_lines(rest) == seq![rest]);
            assert(views(r@) =~= before.push(rest));
            assert(s@.skip(s@.len() as int) =~= Seq::<char>::empty());
            assert(text_lines(s@) =~= views(r@) + text_lines(s@.skip(j as int)));
            st = j;
        } else {
            let mut line = sub_chars(s, st, j);
            if j > st && s[j - 1] == '\r' {
                line = sub_chars(s, st, j - 1);
            }
            proof {
                let k = (j - st) as int;
                assert(rest.take(k) =~= s@.subrange(st as int, j as int));
                assert(rest.skip(k + 1) =~= s@.skip(j + 1));
                if j > st && s@[j - 1] == '\r' {
                    assert(rest.take(k).last() == s@[j - 1]);
                    assert(rest.take(k).drop_last() =~= s@.subrange(st as int, j - 1));
                }
                assert(line@ == strip_cr(rest.take(k)));
                assert(text_lines(rest) == seq![strip_cr(rest.take(k))] + text_lines(rest.skip(k + 1)));
            }
            r.push(line);
            assert(views(r@) =~= before.push(line@));
            assert(text_lines(s@) =~= views(r@) + text_lines(s@.skip(j + 1)));
            st = j + 1;
        }
    }
    assert(s@.skip(st as int) =~= Seq::<char>::empty());
    assert(views(r@) + Seq::<Seq<char>>::empty() =~= views(r@));
    r
}

/// Number of leading characters of `s` that are not Unicode whitespace.
pub open spec fn word_len(s: Seq<char>) -> nat
    decreases s.len(),
{
    if s.len() == 0 || is_unicode_whitespace(s[0]) { 0 } else { 1 + word_len(s.drop_first()) }
}

proof fn lemma_word_len(s: Seq<char>, k: nat)
    requires
        k <= s.len(),
        forall|i: int| 0 <= i < k ==> !is_unicode_whitespace(#[trigger] s[i]),
        k == s.len() || is_unicode_whitespace(s[k as int]),
    ensures
        word_len(s) == k,
    decreases k,
{
    if k > 0 {
        let d = s.drop_first();
        assert forall|i: int| 0 <= i < k - 1 implies !is_unicode_whitespace(#[trigger] d[i]) by {
            assert(d[i] == s[i + 1]);
        }
        if k < s.len() {
            assert(d[k - 1] == s[k as int]);
        }
        assert(!is_unicode_whitespace(s[0]));
        lemma_word_len(d, (k - 1) as nat);
    }
}

/// The second whitespace-separated word of `l` (std's
/// `split_whitespace().nth(1)`).
pub open spec fn second_word(l: Seq<char>) -> Option<Seq<char>> {
    let a = trim_start(l);
    if a.len() == 0 {
        None
    } else {
        let b = trim_start(a.skip(word_len(a) as int));
        if b.len() == 0 { None } else { Some(b.take(word_len(b) as int)) }
    }
}

/// First position at or after `from` that is not whitespace.
pub(crate) fn skip_ws(s: &[char], from: usize) -> (j: usize)
    requires
        from <= s@.len(),
    ensures
        from <= j <= s@.len(),
        s@.subrange(j as int, s@.len() as int) == trim_start(s@.subrange(from as int, s@.len() as int)),
{
    let mut j: usize = from;
    while j < s.len() && is_ws(s[j])
        invariant
            from <= j <= s@.len(),
            forall|i: int| from <= i < j ==> is_unicode_whitespace(#[trigger] s@[i]),
        decreases s@.len() - j,
    {
        j = j + 1;
    }
    proof {
        let t = s@.subrange(from as int, s@.len() as int);
        assert forall|i: int| 0 <= i < j - from implies is_unicode_whitespace(#[trigger] t[i]) by {
            assert(t[i] == s@[from + i]);
        }
        if j < s@.len() {
            assert(t[j - from] == s@[j as int]);
        }
        lemma_leading_ws_exact(t, (j - from) as nat);
        assert(t.subrange((j - from) as int, t.len() as int) =~= s@.subrange(j as int, s@.len() as int));
    }
    j
}

/// First position at or after `from` that is whitespace.
pub(crate) fn skip_word(s: &[char], from: usize) -> (j: usize)
    requires
        from <= s@.len(),
    ensures
        from <= j <= s@.len(),
        j - from == word_len(s@.subrange(from as int, s@.len() as int)),
{
    let mut j: usize = from;
    while j < s.len() && !is_ws(s[j])
        invariant
            from <= j <= s@.len(),
            forall|i: int| from <= i < j ==> !is_unicode_whitespace(#[trigger] s@[i]),
        decreases s@.len() - j,
    {
        j = j + 1;
    }
    proof {
        let t = s@.subrange(from as int, s@.len() as int);
        assert forall|i: int| 0 <= i < j - from implies !is_unicode_whitespace(#[trigger] t[i]) by {
            assert(t[i] == s@[from + i]);
        }
        if j < s@.len() {
            assert(t[j - from] == s@[j as int]);
        }
        lemma_word_len(t, (j - from) as nat);
    }
    j
}

/// The second whitespace-separated word of `l`.
pub fn second_word_of(l: &[char]) -> (r: Option<Vec<char>>)
    ensures
        match r {
            Some(w) => second_word(l@) == Some(w@),
            None => second_word(l@) is None,
        },
{
    let n = l.len();
    let a = skip_ws(l, 0);
    assert(l@.subrange(0, n as int) =~= l@);
    if a == n {
        return None;
    }
    let b = skip_word(l, a);
    let c = skip_ws(l, b);
    let ghost ta = trim_start(l@);
    proof {
        assert(ta.skip((b - a) as int) =~= l@.subrange(b as int, n as int));
    }
    if c == n {
        return None;
    }
    let d = skip_word(l, c);
    let ghost tb = trim_start(ta.skip((b - a) as int));
    assert(tb.take((d - c) as int) =~= l@.subrange(c as int, d as int));
    Some(sub_chars(l, c, d))
}

/// The status code of a response head: the second word of its first line,
/// read as a `u16`.
pub open spec fn status_code(head: Seq<char>) -> Option<nat> {
    let ls = text_lines(head);
    if ls.len() == 0 {
        None
    } else {
        match second_word(ls[0]) {
            None => None,
            Some(w) => match parse_uint(w, 65535) {
                Ok(n) => Some(n),
                Err(_) => None,
            },
        }
    }
}

/// The status code of the response head `head`, if it has one.
pub fn parse_status(head: &str) -> (r: Option<u16>)
    ensures
        match r {
            Some(n) => status_code(head@) == Some(n as nat),
            None => status_code(head@) is None,
        },
{
    let ls = lines(&chars_of(head));
    if ls.len() == 0 {
        return None;
    }
    assert(views(ls@)[0] == ls@[0]@);
    match second_word_of(&ls[0]) {
        None => None,
        Some(w) => match parse_uint_exec(&w, 65535) {
            Ok(n) => Some(n as u16),
            Err(_) => None,
        },
    }
}

/// The body length that a header line declares, if it is a
/// `Content-Length` line with a number.
pub open spec fn length_line(l: Seq<char>) -> Option<nat> {
    if starts_with(ascii_lower_seq(l), "content-length:"@) {
        match parse_uint(trim(l.skip(15)), usize::MAX as nat) {
            Ok(n) => Some(n),
            Err(_) => None,
        }
    } else {
        None
    }
}

/// The first declared body length among `ls`.
pub open spec fn first_length(ls: Seq<Seq<char>>) -> Option<nat>
    decreases ls.len(),
{
    if ls.len() == 0 {
        None
    } else {
        match length_line(ls[0]) {
            Some(n) => Some(n),
            None => first_length(ls.drop_first()),
        }
    }
}

/// The body length of a response head: the first `Content-Length` line
/// that holds a number, 0 when there is none (a response without a body).
pub open spec fn content_length(head: Seq<char>) -> nat {
    match first_length(text_lines(head)) {
        Some(n) => n,
        None => 0,
    }
}

fn length_of_line(l: &[char]) -> (r: Option<usize>)
    ensures
        match r {
            Some(n) => length_line(l@) == Some(n as nat),
            None => length_line(l@) is None,
        },
{
    proof {
        reveal_strlit("content-length:");
    }
    if starts_with_chars(&lower_chars(l), &chars_of("content-length:")) {
        assert(l@.len() >= 15) by {
            assert(ascii_lower_seq(l@).len() == l@.len());
        }
        let rest = sub_chars(l, 15, l.len());
        assert(rest@ =~= l@.skip(15));
        match parse_uint_exec(&trim_chars(&rest), usize::MAX as u64) {
            Ok(n) => Some(n as usize),
            Err(_) => None,
        }
    } else {
        None
    }
}

/// The body length that the response head `head` declares (0 when none).
pub fn parse_content_length(head: &str) -> (n: usize)
    ensures
        n as nat == content_length(head@),
{
    let ls = lines(&chars_of(head));
    let ghost all = views(ls@);
    let mut i: usize = 0;
    assert(all.skip(0) =~= all);
    while i < ls.len()
        invariant
            i <= ls@.len(),
            all == views(ls@),
            all == text_lines(head@),
            first_length(all) == first_length(all.skip(i as int)),
        decreases ls@.len() - i,
    {
        assert(all[i as int] == ls@[i as int]@);
        assert(all.skip(i as int)[0] == all[i as int]);
        assert(all.skip(i as int).drop_first() =~= all.skip(i + 1));
        match length_of_line(&ls[i]) {
            Some(n) => {
                assert(first_length(all.skip(i as int)) == Some(n as nat));
                assert(all == text_lines(head@));
                return n;
            },
            None => {},
        }
        i = i + 1;
    }
    assert(all.skip(i as int).len() == 0);
    0
}

/// The session cookie that a header line sets: on a `Set-Cookie` line,
/// the part of the value before the first ';', trimmed, when it names
/// `TP_SESSIONID` (in any case).
pub open spec fn cookie_line(l: Seq<char>) -> Option<Seq<char>> {
    if starts_with(ascii_lower_seq(l), "set-cookie:"@) {
        let v = trim(l.skip(11));
        let p = v.take(char_index(v, ';') as int);
        if starts_with(ascii_lower_seq(trim_start(p)), "tp_sessionid="@) { Some(trim(p)) } else { None }
    } else {
        None
    }
}

/// The first session cookie among the lines `ls`.
pub open spec fn first_cookie(ls: Seq<Seq<char>>) -> Option<Seq<char>>
    decreases ls.len(),
{
    if ls.len() == 0 {
        None
    } else {
        match cookie_line(ls[0]) {
            Some(c) => Some(c),
            None => first_cookie(ls.drop_first()),
        }
    }
}

/// The session cookie that the response head `head` sets, if any.
pub open spec fn session_cookie(head: Seq<char>) -> Option<Seq<char>> {
    first_cookie(text_lines(head))
}

fn cookie_of_line(l: &[char]) -> (r: Option<Vec<char>>)
    ensures
        match r {
            Some(c) => cookie_line(l@) == Some(c@),
            None => cookie_line(l@) is None,
        },
{
    proof {
        reveal_strlit("set-cookie:");
        reveal_strlit("tp_sessionid=");
    }
    if !starts_with_chars(&lower_chars(l), &chars_of("set-cookie:")) {
        return None;
    }
    assert(l@.len() >= 11) by {
        assert(ascii_lower_seq(l@).len() == l@.len());
    }
    let rest = sub_chars(l, 11, l.len());
    assert(rest@ =~= l@.skip(11));
    let v = trim_chars(&rest);
    let k = find_char(&v, 0, ';');
    assert(v@.subrange(0, v@.len() as int) =~= v@);
    let p = sub_chars(&v, 0, k);
    assert(p@ =~= v@.take(k as int));
    let st = skip_ws(&p, 0);
    assert(p@.subrange(0, p@.len() as int) =~= p@);
    let lead = sub_chars(&p, st, p.len());
    if starts_with_chars(&lower_chars(&lead), &chars_of("tp_sessionid=")) {
        Some(trim_chars(&p))
    } else {
        None
    }
}

/// The session cookie set by the response head `head`.
pub fn parse_session_cookie(head: &str) -> (r: Option<String>)
    ensures
        match r {
            Some(c) => session_cookie(head@) == Some(c@),
            None => session_cookie(head@) is None,
        },
{
    let ls = lines(&chars_of(head));
    let ghost all = views(ls@);
    let mut i: usize = 0;
    assert(all.skip(0) =~= all);
    while i < ls.len()
        invariant
            i <= ls@.len(),
            all == views(ls@),
            all == text_lines(head@),
            first_cookie(all) == first_cookie(all.skip(i as int)),
        decreases ls@.len() - i,
    {
        assert(all[i as int] == ls@[i as int]@);
        assert(all.skip(i as int)[0] == all[i as int]);
        assert(all.skip(i as int).drop_first() =~= all.skip(i + 1));
        match cookie_of_line(&ls[i]) {
            Some(c) => {
                assert(first_cookie(all.skip(i as int)) == Some(c@));
                assert(all == text_lines(head@));
                let mut s = String::new();
                append_chars(&mut s, &c);
                return Some(s);
            },
            None => {},
        }
        i = i + 1;
    }
    assert(all.skip(i as int).len() == 0);
    None
}

/// The head of a POST request with a binary body of `len` bytes, carrying
/// the session cookie when there is one.
pub open spec fn post_head(path: Seq<char>, host: Seq<char>, len: nat, cookie: Option<Seq<char>>) -> Seq<char> {
    "POST "@ + path + " HTTP/1.1\r\nHost: "@ + host
        + "\r\nContent-Type: application/octet-stream\r\nContent-Length: "@ + decimal(len) + "\r\n"@
        + match cookie {
            Some(c) => "Cookie: "@ + c + "\r\n"@,
            None => Seq::empty(),
        } + "\r\n"@
}

/// The head of a POST of `len` bytes to `path` on `host`.
pub fn request_head(path: &str, host: &str, len: usize, cookie: Option<&str>) -> (r: String)
    ensures
        r@ == post_head(path@, host@, len as nat, match cookie { Some(c) => Some(c@), None => None }),
{
    let mut r = String::from_str("POST ");
    r.append(path);
    r.append(" HTTP/1.1\r\nHost: ");
    r.append(host);
    r.append("\r\nContent-Type: application/octet-stream\r\nContent-Length: ");
    append_chars(&mut r, &decimal_chars(len as u64));
    r.append("\r\n");
    match cookie {
        Some(c) => {
            r.append("Cookie: ");
            r.append(c);
            r.append("\r\n");
        },
        None => {
            proof {
                reveal_strlit("");
            }
        },
    }
    r.append("\r\n");
    r
}

/// The most bytes a response head may take before it is refused.
pub const MAX_HEAD_BYTES: usize = 8192;

/// Where the reading of a response head stands after another byte.
#[derive(Debug, PartialEq, Eq, Structural)]
pub enum HeadProgress {
    /// The bytes read end with the blank line that closes the head.
    Complete,
    /// The head is not closed and already longer than `MAX_HEAD_BYTES`.
    TooLarge,
    /// Another byte is needed.
    More,
}

/// The state of a response head whose bytes read so far are `buf`.
pub open spec fn head_progress(buf: Seq<u8>) -> HeadProgress {
    if buf.len() >= 4 && buf.subrange(buf.len() - 4, buf.len() as int) == seq![13u8, 10u8, 13u8, 10u8] {
        HeadProgress::Complete
    } else if buf.len() > MAX_HEAD_BYTES {
        HeadProgress::TooLarge
    } else {
        HeadProgress::More
    }
}

/// Whether the bytes read so far, `buf`, close a response head ("\r\n\r\n"
/// at their end), make it too long, or call for another byte.
pub fn head_step(buf: &[u8]) -> (r: HeadProgress)
    ensures
        r == head_progress(buf@),
{
    let n = buf.len();
    if n >= 4 && buf[n - 4] == 13 && buf[n - 3] == 10 && buf[n - 2] == 13 && buf[n - 1] == 10 {
        assert(buf@.subrange(n - 4, n as int) =~= seq![13u8, 10u8, 13u8, 10u8]);
        HeadProgress::Complete
    } else {
        if n >= 4 {
            let ghost t = buf@.subrange(n - 4, n as int);
            assert(t[0] == buf@[n - 4] && t[1] == buf@[n - 3] && t[2] == buf@[n - 2] && t[3] == buf@[n - 1]);
            assert(t != seq![13u8, 10u8, 13u8, 10u8]) by {
                if t == seq![13u8, 10u8, 13u8, 10u8] {
                    assert(t[0] == 13u8 && t[1] == 10u8 && t[2] == 13u8 && t[3] == 10u8);
                }
            }
        }
        if n > MAX_HEAD_BYTES {
            HeadProgress::TooLarge
        } else {
            HeadProgress::More
        }
    }
}

} // verus!
