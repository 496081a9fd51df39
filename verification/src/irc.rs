//! The chat line vocabulary: classifying one raw IRC line and pulling
//! the overlay command out of a chat message.
//!
//! A line is split at single whitespace characters into its fields; the
//! exact shapes accepted are stated by the spec functions below, which
//! the executable classifier implements one branch at a time.

use vstd::prelude::*;

verus! {

use vstd::string::StrSliceExecFns;

use crate::json::grammar::is_digit;
use crate::text::{chars_vec, string_from_chars};

/// One line of chat-server traffic, classified.
#[derive(Debug, PartialEq, Eq)]
pub enum IrcMessage {
    Ping(String),
    Numeric { code: String, user: String, info: String },
    PrivMsg { username: String, message: String },
    Join(String),
    NamesList(String),
    EndOfNames,
    Unknown(String),
}

/// The mathematical value of a classified line.
pub ghost enum IrcView {
    Ping(Seq<char>),
    Numeric { code: Seq<char>, user: Seq<char>, info: Seq<char> },
    PrivMsg { username: Seq<char>, message: Seq<char> },
    Join(Seq<char>),
    NamesList(Seq<char>),
    EndOfNames,
    Unknown(Seq<char>),
}

impl View for IrcMessage {
    type V = IrcView;

    open spec fn view(&self) -> IrcView {
        match self {
            IrcMessage::Ping(s) => IrcView::Ping(s@),
            IrcMessage::Numeric { code, user, info } => IrcView::Numeric {
                code: code@,
                user: user@,
                info: info@,
            },
            IrcMessage::PrivMsg { username, message } => IrcView::PrivMsg {
                username: username@,
                message: message@,
            },
            IrcMessage::Join(s) => IrcView::Join(s@),
            IrcMessage::NamesList(s) => IrcView::NamesList(s@),
            IrcMessage::EndOfNames => IrcView::EndOfNames,
            IrcMessage::Unknown(s) => IrcView::Unknown(s@),
        }
    }
}

/// The Unicode whitespace characters (the set `char::is_whitespace`
/// recognizes).
pub open spec fn is_uws(c: char) -> bool {
    ||| ('\u{9}' <= c && c <= '\u{d}')
    ||| c == ' '
    ||| c == '\u{85}'
    ||| c == '\u{a0}'
    ||| c == '\u{1680}'
    ||| ('\u{2000}' <= c && c <= '\u{200a}')
    ||| c == '\u{2028}'
    ||| c == '\u{2029}'
    ||| c == '\u{202f}'
    ||| c == '\u{205f}'
    ||| c == '\u{3000}'
}

/// The first index at or after `i` holding a whitespace character, or
/// the length.
pub open spec fn scan_ws(s: Seq<char>, i: int) -> int
    decreases s.len() - i,
{
    if i < 0 {
        i
    } else if i >= s.len() || is_uws(s[i]) {
        i
    } else {
        scan_ws(s, i + 1)
    }
}

/// The first index at or after `i` holding exactly `c`, or the length.
pub open spec fn scan_char(s: Seq<char>, i: int, c: char) -> int
    decreases s.len() - i,
{
    if i < 0 {
        i
    } else if i >= s.len() || s[i] == c {
        i
    } else {
        scan_char(s, i + 1, c)
    }
}

/// A ping line: `PING ` and then the origin, with any leading colons
/// removed.
pub open spec fn is_ping(s: Seq<char>) -> bool {
    s.len() >= 5 && s.subrange(0, 5) == "PING "@
}

/// The origin with leading colons removed.
pub open spec fn drop_colons(t: Seq<char>) -> Seq<char>
    decreases t.len(),
{
    if t.len() > 0 && t[0] == ':' {
        drop_colons(t.skip(1))
    } else {
        t
    }
}

/// A numeric server line `:<origin> <three digits> <user> <info>`; the
/// fields are split at single whitespace characters.
pub open spec fn numeric_fields(s: Seq<char>) -> Option<(Seq<char>, Seq<char>, Seq<char>)> {
    if s.len() > 0 && s[0] == ':' {
        let j1 = scan_ws(s, 1);
        if j1 > 1 && j1 + 4 < s.len() && is_digit(s[j1 + 1]) && is_digit(s[j1 + 2]) && is_digit(
            s[j1 + 3],
        ) && is_uws(s[j1 + 4]) {
            let j2 = scan_ws(s, j1 + 5);
            if j2 > j1 + 5 && j2 < s.len() {
                Some(
                    (
                        s.subrange(j1 + 1, j1 + 4),
                        s.subrange(j1 + 5, j2),
                        s.skip(j2 + 1),
                    ),
                )
            } else {
                None
            }
        } else {
            None
        }
    } else {
        None
    }
}

/// The names payload of a `353` info field `=<channel> :<names>`.
pub open spec fn names_of(info: Seq<char>) -> Option<Seq<char>> {
    if info.len() >= 2 && info[0] == '=' && info[1] == '#' {
        let k = scan_char(info, 2, ' ');
        if k > 2 && k + 1 < info.len() && info[k + 1] == ':' {
            Some(info.skip(k + 2))
        } else {
            None
        }
    } else {
        None
    }
}

/// Whether a `366` info field has the end-of-names shape
/// `<channel> :<text>`.
pub open spec fn is_end_of_names(info: Seq<char>) -> bool {
    info.len() >= 1 && info[0] == '#' && {
        let k = scan_char(info, 1, ' ');
        k > 1 && k + 1 < info.len() && info[k + 1] == ':'
    }
}

/// The user prefix `:<nick>!<ident>@<host>` ending with one whitespace
/// character; yields the nick and the index after that whitespace.
pub open spec fn prefix_fields(s: Seq<char>) -> Option<(Seq<char>, int)> {
    if s.len() > 0 && s[0] == ':' {
        let e1 = scan_char(s, 1, '!');
        if e1 > 1 && e1 < s.len() {
            let e2 = scan_char(s, e1 + 1, '@');
            if e2 > e1 + 1 && e2 < s.len() {
                let e3 = scan_ws(s, e2 + 1);
                if e3 > e2 + 1 && e3 < s.len() {
                    Some((s.subrange(1, e1), e3 + 1))
                } else {
                    None
                }
            } else {
                None
            }
        } else {
            None
        }
    } else {
        None
    }
}

/// A chat line `:<prefix> PRIVMSG #<channel> :<message>`.
pub open spec fn privmsg_fields(s: Seq<char>) -> Option<(Seq<char>, Seq<char>)> {
    match prefix_fields(s) {
        None => None,
        Some((username, p)) => {
            if p + 9 <= s.len() && s.subrange(p, p + 7) == "PRIVMSG"@ && is_uws(s[p + 7])
                && s[p + 8] == '#' {
                let e4 = scan_ws(s, p + 9);
                if e4 > p + 9 && e4 + 1 < s.len() && s[e4 + 1] == ':' {
                    Some((username, s.skip(e4 + 2)))
                } else {
                    None
                }
            } else {
                None
            }
        },
    }
}

/// A join line `:<prefix> JOIN #<channel>`, ending with the channel.
pub open spec fn join_fields(s: Seq<char>) -> Option<Seq<char>> {
    match prefix_fields(s) {
        None => None,
        Some((username, p)) => {
            if p + 6 <= s.len() && s.subrange(p, p + 4) == "JOIN"@ && is_uws(s[p + 4]) && s[p + 5]
                == '#' && scan_char(s, p + 6, ' ') == s.len() && s.len() > p + 6 {
                Some(username)
            } else {
                None
            }
        },
    }
}

/// The classification a line falls back to when it is not a ping and
/// not a well-shaped numeric line.
pub open spec fn tail_classify(s: Seq<char>) -> IrcView {
    match privmsg_fields(s) {
        Some((username, message)) => IrcView::PrivMsg { username, message },
        None => match join_fields(s) {
            Some(username) => IrcView::Join(username),
            None => IrcView::Unknown(s),
        },
    }
}

/// How one raw line is classified.
pub open spec fn spec_classify(s: Seq<char>) -> IrcView {
    if is_ping(s) {
        IrcView::Ping(drop_colons(s.skip(5)))
    } else {
        match numeric_fields(s) {
            Some((code, user, info)) => {
                if code == seq!['3', '5', '3'] {
                    match names_of(info) {
                        Some(names) => IrcView::NamesList(names),
                        None => tail_classify(s),
                    }
                } else if code == seq!['3', '6', '6'] {
                    if is_end_of_names(info) {
                        IrcView::EndOfNames
                    } else {
                        tail_classify(s)
                    }
                } else {
                    IrcView::Numeric { code, user, info }
                }
            },
            None => tail_classify(s),
        }
    }
}

proof fn lemma_scan_ws(s: Seq<char>, i: int)
    requires
        0 <= i <= s.len(),
    ensures
        i <= scan_ws(s, i) <= s.len(),
        forall|j: int| i <= j < scan_ws(s, i) ==> !is_uws(s[j]),
        scan_ws(s, i) < s.len() ==> is_uws(s[scan_ws(s, i)]),
    decreases s.len() - i,
{
    if i < s.len() && !is_uws(s[i]) {
        lemma_scan_ws(s, i + 1);
    }
}

proof fn lemma_scan_char(s: Seq<char>, i: int, c: char)
    requires
        0 <= i <= s.len(),
    ensures
        i <= scan_char(s, i, c) <= s.len(),
        forall|j: int| i <= j < scan_char(s, i, c) ==> s[j] != c,
        scan_char(s, i, c) < s.len() ==> s[scan_char(s, i, c)] == c,
    decreases s.len() - i,
{
    if i < s.len() && s[i] != c {
        lemma_scan_char(s, i + 1, c);
    }
}

/// Whether the character is Unicode whitespace.
fn uws_char(c: char) -> (b: bool)
    ensures
        b == is_uws(c),
{
    ('\u{9}' <= c && c <= '\u{d}') || c == ' ' || c == '\u{85}' || c == '\u{a0}' || c == '\u{1680}'
        || ('\u{2000}' <= c && c <= '\u{200a}') || c == '\u{2028}' || c == '\u{2029}' || c
        == '\u{202f}' || c == '\u{205f}' || c == '\u{3000}'
}

/// The first index at or after `i` holding whitespace.
fn find_ws(v: &Vec<char>, i: usize) -> (j: usize)
    requires
        i <= v@.len(),
    ensures
        j == scan_ws(v@, i as int),
        i <= j <= v@.len(),
{
    proof {
        lemma_scan_ws(v@, i as int);
    }
    let mut j: usize = i;
    while j < v.len() && !uws_char(v[j])
        invariant
            i <= j <= v@.len(),
            scan_ws(v@, j as int) == scan_ws(v@, i as int),
        decreases v@.len() - j,
    {
        j = j + 1;
    }
    j
}

/// The first index at or after `i` holding exactly `c`.
fn find_char(v: &Vec<char>, i: usize, c: char) -> (j: usize)
    requires
        i <= v@.len(),
    ensures
        j == scan_char(v@, i as int, c),
        i <= j <= v@.len(),
{
    proof {
        lemma_scan_char(v@, i as int, c);
    }
    let mut j: usize = i;
    while j < v.len() && v[j] != c
        invariant
            i <= j <= v@.len(),
            scan_char(v@, j as int, c) == scan_char(v@, i as int, c),
        decreases v@.len() - j,
    {
        j = j + 1;
    }
    j
}

/// The characters of `v` from `a` to `b` as a string.
fn sub_string(v: &Vec<char>, a: usize, b: usize) -> (r: String)
    requires
        a <= b <= v@.len(),
    ensures
        r@ == v@.subrange(a as int, b as int),
{
    let mut out: Vec<char> = Vec::new();
    let mut k: usize = a;
    while k < b
        invariant
            a <= k <= b <= v@.len(),
            out@ =~= v@.subrange(a as int, k as int),
        decreases b - k,
    {
        out.push(v[k]);
        proof {
            assert(out@ =~= v@.subrange(a as int, k as int + 1));
        }
        k = k + 1;
    }
    string_from_chars(&out)
}

/// The numeric-line fields, if the line has that shape.
fn numeric_fields_exec(v: &Vec<char>) -> (r: Option<(String, String, String)>)
    ensures
        match r {
            Some(p) => numeric_fields(v@) == Some((p.0@, p.1@, p.2@)),
            None => numeric_fields(v@) is None,
        },
{
    if !(v.len() > 0 && v[0] == ':') {
        return None;
    }
    let j1 = find_ws(v, 1);
    if !(j1 > 1 && v.len() - j1 > 4) {
        return None;
    }
    let d1 = v[j1 + 1];
    let d2 = v[j1 + 2];
    let d3 = v[j1 + 3];
    if !('0' <= d1 && d1 <= '9' && '0' <= d2 && d2 <= '9' && '0' <= d3 && d3 <= '9' && uws_char(
        v[j1 + 4],
    )) {
        return None;
    }
    let j2 = find_ws(v, j1 + 5);
    if !(j2 > j1 + 5 && j2 < v.len()) {
        return None;
    }
    Some((sub_string(v, j1 + 1, j1 + 4), sub_string(v, j1 + 5, j2), sub_string(v, j2 + 1, v.len())))
}

/// The user-prefix fields, if the line has that shape.
fn prefix_fields_exec(v: &Vec<char>) -> (r: Option<(String, usize)>)
    ensures
        match r {
            Some(p) => prefix_fields(v@) == Some((p.0@, p.1 as int)) && p.1 <= v@.len(),
            None => prefix_fields(v@) is None,
        },
{
    if !(v.len() > 0 && v[0] == ':') {
        return None;
    }
    let e1 = find_char(v, 1, '!');
    if !(e1 > 1 && e1 < v.len()) {
        return None;
    }
    let e2 = find_char(v, e1 + 1, '@');
    if !(e2 > e1 + 1 && e2 < v.len()) {
        return None;
    }
    let e3 = find_ws(v, e2 + 1);
    if !(e3 > e2 + 1 && e3 < v.len()) {
        return None;
    }
    Some((sub_string(v, 1, e1), e3 + 1))
}

/// Classify one raw line of chat-server traffic.
pub fn classify_line(line: String) -> (r: IrcMessage)
    ensures
        r@ == spec_classify(line@),
{
    let v = chars_vec(line.as_str());
    // PING
    if v.len() >= 5 && v[0] == 'P' && v[1] == 'I' && v[2] == 'N' && v[3] == 'G' && v[4] == ' ' {
        proof {
            reveal_strlit("PING ");
            assert(v@.subrange(0, 5) =~= "PING "@);
        }
        let mut k: usize = 5;
        while k < v.len() && v[k] == ':'
            invariant
                5 <= k <= v@.len(),
                drop_colons(v@.skip(k as int)) == drop_colons(v@.skip(5)),
            decreases v@.len() - k,
        {
            proof {
                assert(v@.skip(k as int).skip(1) =~= v@.skip(k as int + 1));
            }
            k = k + 1;
        }
        proof {
            assert(drop_colons(v@.skip(k as int)) == v@.skip(k as int));
            assert(v@.subrange(k as int, v@.len() as int) =~= v@.skip(k as int));
        }
        return IrcMessage::Ping(sub_string(&v, k, v.len()));
    }
    proof {
        reveal_strlit("PING ");
        if v@.len() >= 5 && v@.subrange(0, 5) == "PING "@ {
            assert(v@.subrange(0, 5)[0] == v@[0] && v@.subrange(0, 5)[1] == v@[1] && v@.subrange(
                0,
                5,
            )[2] == v@[2] && v@.subrange(0, 5)[3] == v@[3] && v@.subrange(0, 5)[4] == v@[4]);
            assert(v@[0] == 'P' && v@[1] == 'I' && v@[2] == 'N' && v@[3] == 'G' && v@[4] == ' ');
        }
        assert(!is_ping(v@));
    }
    // numeric lines
    match numeric_fields_exec(&v) {
        Some((code, user, info)) => {
            let iv = chars_vec(info.as_str());
            let cv = chars_vec(code.as_str());
            let is_353 = cv.len() == 3 && cv[0] == '3' && cv[1] == '5' && cv[2] == '3';
            let is_366 = cv.len() == 3 && cv[0] == '3' && cv[1] == '6' && cv[2] == '6';
            proof {
                if is_353 {
                    assert(code@ =~= seq!['3', '5', '3']);
                }
                if is_366 {
                    assert(code@ =~= seq!['3', '6', '6']);
                }
            }
            if is_353 {
                // `=<channel> :<names>`
                if iv.len() >= 2 && iv[0] == '=' && iv[1] == '#' {
                    let k = find_char(&iv, 2, ' ');
                    if k > 2 && iv.len() - k > 1 && iv[k + 1] == ':' {
                        return IrcMessage::NamesList(sub_string(&iv, k + 2, iv.len()));
                    }
                }
                proof {
                    assert(names_of(info@) is None);
                }
                classify_tail(&v, line)
            } else if is_366 {
                // `<channel> :<text>`
                let matched = iv.len() >= 1 && iv[0] == '#' && {
                    let k = find_char(&iv, 1, ' ');
                    k > 1 && iv.len() - k > 1 && iv[k + 1] == ':'
                };
                if matched {
                    return IrcMessage::EndOfNames;
                }
                proof {
                    assert(!is_end_of_names(info@));
                }
                classify_tail(&v, line)
            } else {
                proof {
                    assert(code@.len() == 3);
                    assert(code@ != seq!['3', '5', '3'] && code@ != seq!['3', '6', '6']);
                }
                IrcMessage::Numeric { code, user, info }
            }
        },
        None => classify_tail(&v, line),
    }
}

/// The fallback classification: a chat message, a join, or unknown.
fn classify_tail(v: &Vec<char>, line: String) -> (r: IrcMessage)
    requires
        v@ == line@,
    ensures
        r@ == tail_classify(line@),
{
    match prefix_fields_exec(v) {
        Some((username, p)) => {
            // PRIVMSG
            if v.len() - p >= 9 && v[p] == 'P' && v[p + 1] == 'R' && v[p + 2] == 'I' && v[p + 3]
                == 'V' && v[p + 4] == 'M' && v[p + 5] == 'S' && v[p + 6] == 'G' && uws_char(
                v[p + 7],
            ) && v[p + 8] == '#' {
                proof {
                    reveal_strlit("PRIVMSG");
                    assert(v@.subrange(p as int, p as int + 7) =~= "PRIVMSG"@);
                }
                let e4 = find_ws(v, p + 9);
                if e4 > p + 9 && v.len() - e4 > 1 && v[e4 + 1] == ':' {
                    let message = sub_string(v, e4 + 2, v.len());
                    proof {
                        assert(v@.subrange(e4 as int + 2, v@.len() as int) =~= v@.skip(
                            e4 as int + 2,
                        ));
                    }
                    return IrcMessage::PrivMsg { username, message };
                }
                proof {
                    assert(privmsg_fields(v@) is None);
                }
            } else {
                proof {
                    reveal_strlit("PRIVMSG");
                    if p as int + 9 <= v@.len() && v@.subrange(p as int, p as int + 7)
                        == "PRIVMSG"@ {
                        let pre = v@.subrange(p as int, p as int + 7);
                        assert(pre[0] == v@[p as int] && pre[1] == v@[p as int + 1] && pre[2]
                            == v@[p as int + 2] && pre[3] == v@[p as int + 3] && pre[4]
                            == v@[p as int + 4] && pre[5] == v@[p as int + 5] && pre[6]
                            == v@[p as int + 6]);
                        assert(v@[p as int] == 'P' && v@[p as int + 1] == 'R' && v@[p as int + 2]
                            == 'I' && v@[p as int + 3] == 'V' && v@[p as int + 4] == 'M'
                            && v@[p as int + 5] == 'S' && v@[p as int + 6] == 'G');
                    }
                    assert(privmsg_fields(v@) is None);
                }
            }
            // JOIN
            if v.len() - p >= 6 && v[p] == 'J' && v[p + 1] == 'O' && v[p + 2] == 'I' && v[p + 3]
                == 'N' && uws_char(v[p + 4]) && v[p + 5] == '#' {
                proof {
                    reveal_strlit("JOIN");
                    assert(v@.subrange(p as int, p as int + 4) =~= "JOIN"@);
                }
                let e = find_char(v, p + 6, ' ');
                if e == v.len() && v.len() > p + 6 {
                    return IrcMessage::Join(username);
                }
                proof {
                    assert(join_fields(v@) is None);
                }
            } else {
                proof {
                    reveal_strlit("JOIN");
                    if p as int + 6 <= v@.len() && v@.subrange(p as int, p as int + 4) == "JOIN"@ {
                        let pre = v@.subrange(p as int, p as int + 4);
                        assert(pre[0] == v@[p as int] && pre[1] == v@[p as int + 1] && pre[2]
                            == v@[p as int + 2] && pre[3] == v@[p as int + 3]);
                        assert(v@[p as int] == 'J' && v@[p as int + 1] == 'O' && v@[p as int + 2]
                            == 'I' && v@[p as int + 3] == 'N');
                    }
                    assert(join_fields(v@) is None);
                }
            }
            IrcMessage::Unknown(line)
        },
        None => IrcMessage::Unknown(line),
    }
}


/// The payload of one stored chat message: the sender, the text, and
/// the downloaded image the text pointed at, if any.
#[derive(Debug)]
pub struct TwitchMessage {
    pub username: String,
    pub message: String,
    pub blob: Option<RemoteImageBlob>,
}

/// An image fetched from a remote URL, ready to inline: its bytes in
/// base64 and its media type. The download itself happens outside the
/// library.
#[derive(Debug, Clone)]
pub struct RemoteImageBlob {
    pub bytes_base64: String,
    pub mime_type: String,
}

/// The text with every trailing tag character (U+E0000) removed.
pub open spec fn drop_tag_suffix(t: Seq<char>) -> Seq<char>
    decreases t.len(),
{
    if t.len() > 0 && t.last() == '\u{e0000}' {
        drop_tag_suffix(t.drop_last())
    } else {
        t
    }
}

/// The text with leading whitespace removed.
pub open spec fn trim_start_ws(t: Seq<char>) -> Seq<char>
    decreases t.len(),
{
    if t.len() > 0 && is_uws(t[0]) {
        trim_start_ws(t.skip(1))
    } else {
        t
    }
}

/// The text with trailing whitespace removed.
pub open spec fn trim_end_ws(t: Seq<char>) -> Seq<char>
    decreases t.len(),
{
    if t.len() > 0 && is_uws(t.last()) {
        trim_end_ws(t.drop_last())
    } else {
        t
    }
}

/// The overlay URL carried by a chat message: a message opening with
/// the `!imgfloat` command carries everything after the command's ten
/// characters, with trailing tag characters and surrounding whitespace
/// removed. A message of the bare command alone carries nothing.
pub open spec fn spec_command_url(message: Seq<char>) -> Option<Seq<char>> {
    if message.len() >= 10 && message.subrange(0, 9) == "!imgfloat"@ {
        Some(trim_end_ws(trim_start_ws(drop_tag_suffix(message.skip(10)))))
    } else {
        None
    }
}

/// Extract the overlay URL from a chat message, if it carries the
/// command.
pub fn imgfloat_command_url(message: &str) -> (r: Option<String>)
    ensures
        match r {
            Some(url) => spec_command_url(message@) == Some(url@),
            None => spec_command_url(message@) is None,
        },
{
    let v = chars_vec(message);
    let is_cmd = v.len() >= 10 && v[0] == '!' && v[1] == 'i' && v[2] == 'm' && v[3] == 'g' && v[4]
        == 'f' && v[5] == 'l' && v[6] == 'o' && v[7] == 'a' && v[8] == 't';
    proof {
        reveal_strlit("!imgfloat");
        if v@.len() >= 10 && v@.subrange(0, 9) == "!imgfloat"@ {
            let pre = v@.subrange(0, 9);
            assert(pre[0] == v@[0] && pre[1] == v@[1] && pre[2] == v@[2] && pre[3] == v@[3]
                && pre[4] == v@[4] && pre[5] == v@[5] && pre[6] == v@[6] && pre[7] == v@[7]
                && pre[8] == v@[8]);
        }
        if is_cmd {
            assert(v@.subrange(0, 9) =~= "!imgfloat"@);
        }
    }
    if !is_cmd {
        return None;
    }
    let mut e: usize = v.len();
    while e > 10 && v[e - 1] == '\u{e0000}'
        invariant
            10 <= e <= v@.len(),
            drop_tag_suffix(v@.subrange(10, e as int)) == drop_tag_suffix(v@.skip(10)),
        decreases e,
    {
        proof {
            assert(v@.subrange(10, e as int).drop_last() =~= v@.subrange(10, e as int - 1));
            assert(v@.subrange(10, e as int).last() == v@[e as int - 1]);
        }
        e = e - 1;
    }
    proof {
        assert(v@.skip(10) =~= v@.subrange(10, v@.len() as int));
        assert(drop_tag_suffix(v@.subrange(10, e as int)) == v@.subrange(10, e as int));
    }
    let mut s: usize = 10;
    while s < e && uws_char(v[s])
        invariant
            10 <= s <= e <= v@.len(),
            trim_start_ws(v@.subrange(s as int, e as int)) == trim_start_ws(
                v@.subrange(10, e as int),
            ),
        decreases e - s,
    {
        proof {
            assert(v@.subrange(s as int, e as int).skip(1) =~= v@.subrange(s as int + 1, e as int));
        }
        s = s + 1;
    }
    proof {
        assert(trim_start_ws(v@.subrange(s as int, e as int)) == v@.subrange(s as int, e as int));
    }
    let mut e2: usize = e;
    while e2 > s && uws_char(v[e2 - 1])
        invariant
            10 <= s <= e2 <= e <= v@.len(),
            trim_end_ws(v@.subrange(s as int, e2 as int)) == trim_end_ws(
                v@.subrange(s as int, e as int),
            ),
        decreases e2,
    {
        proof {
            assert(v@.subrange(s as int, e2 as int).drop_last() =~= v@.subrange(
                s as int,
                e2 as int - 1,
            ));
            assert(v@.subrange(s as int, e2 as int).last() == v@[e2 as int - 1]);
        }
        e2 = e2 - 1;
    }
    proof {
        assert(trim_end_ws(v@.subrange(s as int, e2 as int)) == v@.subrange(s as int, e2 as int));
    }
    Some(sub_string(&v, s, e2))
}

} // verus!
