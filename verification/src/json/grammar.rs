//! The mathematical statement of the wire grammar.
//!
//! Parsers here consume a remaining input `Seq<char>` and yield the parsed
//! value together with the input left over; serializers map a value to the
//! exact character sequence the engine emits. The executable codec in
//! `read` and `emit` is verified against these functions clause by clause.

use vstd::prelude::*;

verus! {

use crate::model::{AssetView, MessageView};

// ---------------------------------------------------------------------
// Characters
// ---------------------------------------------------------------------
/// The ten decimal digit characters.
pub open spec fn is_digit(c: char) -> bool {
    '0' <= c && c <= '9'
}

/// JSON insignificant whitespace.
pub open spec fn is_ws(c: char) -> bool {
    c == ' ' || c == '\t' || c == '\n' || c == '\r'
}

/// The hexadecimal digit characters, either case.
pub open spec fn is_hex(c: char) -> bool {
    is_digit(c) || ('a' <= c && c <= 'f') || ('A' <= c && c <= 'F')
}

/// The numeric value of a hexadecimal digit character.
pub open spec fn hex_val(c: char) -> int {
    if is_digit(c) {
        c as int - '0' as int
    } else if 'a' <= c && c <= 'f' {
        c as int - 'a' as int + 10
    } else {
        c as int - 'A' as int + 10
    }
}

/// The value of four hexadecimal digit characters read big-endian.
pub open spec fn hex4_val(a: char, b: char, c: char, d: char) -> int {
    hex_val(a) * 4096 + hex_val(b) * 256 + hex_val(c) * 16 + hex_val(d)
}

/// The lower-case hexadecimal digit character for a value below sixteen.
pub open spec fn hex_digit(n: int) -> char {
    if n < 10 {
        (('0' as u8) + n as u8) as char
    } else {
        (('a' as u8) + (n - 10) as u8) as char
    }
}

/// The input with its leading whitespace removed.
pub open spec fn skip_ws(s: Seq<char>) -> Seq<char>
    decreases s.len(),
{
    if s.len() > 0 && is_ws(s[0]) {
        skip_ws(s.skip(1))
    } else {
        s
    }
}

// ---------------------------------------------------------------------
// Strings
// ---------------------------------------------------------------------
/// One escape sequence, after the backslash: the escaped character and
/// the remaining input. A high surrogate must be followed by a second
/// `\u` escape holding a low surrogate; a lone surrogate is rejected.
pub open spec fn parse_escape(s: Seq<char>) -> Option<(char, Seq<char>)> {
    if s.len() == 0 {
        None
    } else if s[0] == '"' {
        Some(('"', s.skip(1)))
    } else if s[0] == '\\' {
        Some(('\\', s.skip(1)))
    } else if s[0] == '/' {
        Some(('/', s.skip(1)))
    } else if s[0] == 'b' {
        Some(('\u{8}', s.skip(1)))
    } else if s[0] == 'f' {
        Some(('\u{c}', s.skip(1)))
    } else if s[0] == 'n' {
        Some(('\n', s.skip(1)))
    } else if s[0] == 'r' {
        Some(('\r', s.skip(1)))
    } else if s[0] == 't' {
        Some(('\t', s.skip(1)))
    } else if s[0] == 'u' {
        if s.len() >= 5 && is_hex(s[1]) && is_hex(s[2]) && is_hex(s[3]) && is_hex(s[4]) {
            let n = hex4_val(s[1], s[2], s[3], s[4]);
            if 0xD800 <= n < 0xDC00 {
                if s.len() >= 11 && s[5] == '\\' && s[6] == 'u' && is_hex(s[7]) && is_hex(s[8])
                    && is_hex(s[9]) && is_hex(s[10]) {
                    let lo = hex4_val(s[7], s[8], s[9], s[10]);
                    if 0xDC00 <= lo < 0xE000 {
                        Some(
                            (
                                (((n - 0xD800) * 0x400 + (lo - 0xDC00) + 0x10000) as u32) as char,
                                s.skip(11),
                            ),
                        )
                    } else {
                        None
                    }
                } else {
                    None
                }
            } else if 0xDC00 <= n < 0xE000 {
                None
            } else {
                Some(((n as u32) as char, s.skip(5)))
            }
        } else {
            None
        }
    } else {
        None
    }
}

/// The body of a string literal, after the opening quote, up to and
/// including the closing quote. Unescaped control characters are
/// rejected. (The guard on the consumed length keeps the recursion
/// well-founded; an escape always consumes input.)
pub open spec fn parse_string_body(s: Seq<char>) -> Option<(Seq<char>, Seq<char>)>
    decreases s.len(),
{
    if s.len() == 0 {
        None
    } else if s[0] == '"' {
        Some((Seq::empty(), s.skip(1)))
    } else if s[0] == '\\' {
        match parse_escape(s.skip(1)) {
            None => None,
            Some((c, rest)) => if rest.len() < s.len() {
                match parse_string_body(rest) {
                    None => None,
                    Some((t, r2)) => Some((seq![c] + t, r2)),
                }
            } else {
                None
            },
        }
    } else if (s[0] as u32) < 0x20 {
        None
    } else {
        match parse_string_body(s.skip(1)) {
            None => None,
            Some((t, r2)) => Some((seq![s[0]] + t, r2)),
        }
    }
}

/// A string literal: a quote, the body, the closing quote.
pub open spec fn parse_string(s: Seq<char>) -> Option<(Seq<char>, Seq<char>)> {
    if s.len() > 0 && s[0] == '"' {
        parse_string_body(s.skip(1))
    } else {
        None
    }
}

// ---------------------------------------------------------------------
// Numbers
// ---------------------------------------------------------------------
/// How many leading decimal digits the input has.
pub open spec fn digit_count(s: Seq<char>) -> int
    decreases s.len(),
{
    if s.len() > 0 && is_digit(s[0]) {
        1 + digit_count(s.skip(1))
    } else {
        0
    }
}

pub proof fn lemma_digit_count_nonneg(s: Seq<char>)
    ensures
        digit_count(s) >= 0,
    decreases s.len(),
{
    if s.len() > 0 && is_digit(s[0]) {
        lemma_digit_count_nonneg(s.skip(1));
    }
}

/// The length of a leading exponent part (`e`/`E`, optional sign, at
/// least one digit), or zero when the input does not start with one.
pub open spec fn exp_len(s: Seq<char>) -> int {
    if s.len() > 0 && (s[0] == 'e' || s[0] == 'E') {
        let sg: int = if s.len() > 1 && (s[1] == '+' || s[1] == '-') {
            1
        } else {
            0
        };
        let d = digit_count(s.skip(1 + sg));
        if d > 0 {
            1 + sg + d
        } else {
            0
        }
    } else {
        0
    }
}

/// The length of a leading fraction part (`.` and at least one digit),
/// or zero.
pub open spec fn frac_len(s: Seq<char>) -> int {
    if s.len() > 0 && s[0] == '.' && digit_count(s.skip(1)) > 0 {
        1 + digit_count(s.skip(1))
    } else {
        0
    }
}

/// A number literal: its maximal lexeme and the remaining input. The
/// lexeme is kept verbatim; the engine never interprets its value.
pub open spec fn parse_number(s: Seq<char>) -> Option<(Seq<char>, Seq<char>)> {
    let sg: int = if s.len() > 0 && s[0] == '-' {
        1
    } else {
        0
    };
    let s1 = s.skip(sg);
    if s1.len() > 0 && is_digit(s1[0]) {
        let ip: int = if s1[0] == '0' {
            1
        } else {
            digit_count(s1)
        };
        let fp = frac_len(s1.skip(ip));
        let ep = exp_len(s1.skip(ip + fp));
        let total = sg + ip + fp + ep;
        Some((s.take(total), s.skip(total)))
    } else {
        None
    }
}

/// The text of one complete JSON number literal: the number grammar
/// consumes it whole.
pub open spec fn is_json_number(t: Seq<char>) -> bool {
    parse_number(t) == Some((t, Seq::<char>::empty()))
}

// ---------------------------------------------------------------------
// Object member keys and tags
// ---------------------------------------------------------------------
pub open spec fn key_id() -> Seq<char> {
    seq!['i', 'd']
}

pub open spec fn key_x() -> Seq<char> {
    seq!['x']
}

pub open spec fn key_y() -> Seq<char> {
    seq!['y']
}

pub open spec fn key_w() -> Seq<char> {
    seq!['w']
}

pub open spec fn key_h() -> Seq<char> {
    seq!['h']
}

pub open spec fn key_url() -> Seq<char> {
    seq!['u', 'r', 'l']
}

pub open spec fn key_assets() -> Seq<char> {
    seq!['a', 's', 's', 'e', 't', 's']
}

pub open spec fn tag_new() -> Seq<char> {
    seq!['N', 'e', 'w']
}

pub open spec fn tag_update() -> Seq<char> {
    seq!['U', 'p', 'd', 'a', 't', 'e']
}

pub open spec fn tag_delete() -> Seq<char> {
    seq!['D', 'e', 'l', 'e', 't', 'e']
}

// ---------------------------------------------------------------------
// Assets
// ---------------------------------------------------------------------
/// The fields collected so far while reading an asset object's members.
pub ghost struct AccView {
    pub id: Option<Seq<char>>,
    pub x: Option<Seq<char>>,
    pub y: Option<Seq<char>>,
    pub w: Option<Seq<char>>,
    pub h: Option<Seq<char>>,
    pub url: Option<Seq<char>>,
}

pub open spec fn acc_empty() -> AccView {
    AccView { id: None, x: None, y: None, w: None, h: None, url: None }
}

/// One `"key": value` member. Members may come in any order; an unknown
/// or repeated key is rejected, string-valued and number-valued keys take
/// the matching literal.
pub open spec fn parse_member(s: Seq<char>, acc: AccView) -> Option<(AccView, Seq<char>)> {
    match parse_string(skip_ws(s)) {
        None => None,
        Some((key, r1)) => {
            let r2 = skip_ws(r1);
            if r2.len() > 0 && r2[0] == ':' {
                let r3 = skip_ws(r2.skip(1));
                if key == key_id() {
                    match parse_string(r3) {
                        None => None,
                        Some((v, r4)) => if acc.id is None {
                            Some((AccView { id: Some(v), ..acc }, r4))
                        } else {
                            None
                        },
                    }
                } else if key == key_url() {
                    match parse_string(r3) {
                        None => None,
                        Some((v, r4)) => if acc.url is None {
                            Some((AccView { url: Some(v), ..acc }, r4))
                        } else {
                            None
                        },
                    }
                } else if key == key_x() {
                    match parse_number(r3) {
                        None => None,
                        Some((v, r4)) => if acc.x is None {
                            Some((AccView { x: Some(v), ..acc }, r4))
                        } else {
                            None
                        },
                    }
                } else if key == key_y() {
                    match parse_number(r3) {
                        None => None,
                        Some((v, r4)) => if acc.y is None {
                            Some((AccView { y: Some(v), ..acc }, r4))
                        } else {
                            None
                        },
                    }
                } else if key == key_w() {
                    match parse_number(r3) {
                        None => None,
                        Some((v, r4)) => if acc.w is None {
                            Some((AccView { w: Some(v), ..acc }, r4))
                        } else {
                            None
                        },
                    }
                } else if key == key_h() {
                    match parse_number(r3) {
                        None => None,
                        Some((v, r4)) => if acc.h is None {
                            Some((AccView { h: Some(v), ..acc }, r4))
                        } else {
                            None
                        },
                    }
                } else {
                    None
                }
            } else {
                None
            }
        },
    }
}

/// The members of an asset object from after the opening brace, up to
/// and including the closing brace.
pub open spec fn parse_members(s: Seq<char>, acc: AccView) -> Option<(AccView, Seq<char>)>
    decreases s.len(),
{
    match parse_member(s, acc) {
        None => None,
        Some((acc2, r1)) => {
            let r2 = skip_ws(r1);
            if r2.len() > 0 && r2[0] == ',' {
                if r2.skip(1).len() < s.len() {
                    parse_members(r2.skip(1), acc2)
                } else {
                    None
                }
            } else if r2.len() > 0 && r2[0] == '}' {
                Some((acc2, r2.skip(1)))
            } else {
                None
            }
        },
    }
}

/// One asset object. All six fields must be present exactly once.
pub open spec fn parse_asset(s: Seq<char>) -> Option<(AssetView, Seq<char>)> {
    let s1 = skip_ws(s);
    if s1.len() > 0 && s1[0] == '{' {
        match parse_members(s1.skip(1), acc_empty()) {
            None => None,
            Some((acc, rest)) => match (acc.id, acc.x, acc.y, acc.w, acc.h, acc.url) {
                (Some(id), Some(x), Some(y), Some(w), Some(h), Some(url)) => Some(
                    (AssetView { id, x, y, w, h, url }, rest),
                ),
                _ => None,
            },
        }
    } else {
        None
    }
}

/// One or more comma-separated assets, up to and including the closing
/// bracket.
pub open spec fn parse_asset_list(s: Seq<char>) -> Option<(Seq<AssetView>, Seq<char>)>
    decreases s.len(),
{
    match parse_asset(s) {
        None => None,
        Some((a, r1)) => {
            let r2 = skip_ws(r1);
            if r2.len() > 0 && r2[0] == ',' {
                if r2.skip(1).len() < s.len() {
                    match parse_asset_list(r2.skip(1)) {
                        None => None,
                        Some((v, r3)) => Some((seq![a] + v, r3)),
                    }
                } else {
                    None
                }
            } else if r2.len() > 0 && r2[0] == ']' {
                Some((seq![a], r2.skip(1)))
            } else {
                None
            }
        },
    }
}

/// An array of assets.
pub open spec fn parse_assets(s: Seq<char>) -> Option<(Seq<AssetView>, Seq<char>)> {
    let s1 = skip_ws(s);
    if s1.len() > 0 && s1[0] == '[' {
        let s2 = skip_ws(s1.skip(1));
        if s2.len() > 0 && s2[0] == ']' {
            Some((Seq::empty(), s2.skip(1)))
        } else {
            parse_asset_list(s1.skip(1))
        }
    } else {
        None
    }
}

// ---------------------------------------------------------------------
// The snapshot object and the tagged delta union
// ---------------------------------------------------------------------
/// The untagged snapshot object `{"assets": [...]}`.
pub open spec fn parse_state(s: Seq<char>) -> Option<(Seq<AssetView>, Seq<char>)> {
    let s1 = skip_ws(s);
    if s1.len() > 0 && s1[0] == '{' {
        match parse_string(skip_ws(s1.skip(1))) {
            None => None,
            Some((key, r1)) => if key == key_assets() {
                let r2 = skip_ws(r1);
                if r2.len() > 0 && r2[0] == ':' {
                    match parse_assets(r2.skip(1)) {
                        None => None,
                        Some((v, r3)) => {
                            let r4 = skip_ws(r3);
                            if r4.len() > 0 && r4[0] == '}' {
                                Some((v, r4.skip(1)))
                            } else {
                                None
                            }
                        },
                    }
                } else {
                    None
                }
            } else {
                None
            },
        }
    } else {
        None
    }
}

/// The tagged delta union: an object with exactly one of the keys `New`,
/// `Update` or `Delete`, whose value has the matching shape.
pub open spec fn parse_message_body(s: Seq<char>) -> Option<(MessageView, Seq<char>)> {
    let s1 = skip_ws(s);
    if s1.len() > 0 && s1[0] == '{' {
        match parse_string(skip_ws(s1.skip(1))) {
            None => None,
            Some((tag, r1)) => {
                let r2 = skip_ws(r1);
                if r2.len() > 0 && r2[0] == ':' {
                    let payload = if tag == tag_new() {
                        match parse_state(r2.skip(1)) {
                            None => None,
                            Some((v, r3)) => Some((MessageView::New(v), r3)),
                        }
                    } else if tag == tag_update() {
                        match parse_asset(r2.skip(1)) {
                            None => None,
                            Some((a, r3)) => Some((MessageView::Update(a), r3)),
                        }
                    } else if tag == tag_delete() {
                        match parse_string(skip_ws(r2.skip(1))) {
                            None => None,
                            Some((id, r3)) => Some((MessageView::Delete(id), r3)),
                        }
                    } else {
                        None
                    };
                    match payload {
                        None => None,
                        Some((m, r3)) => {
                            let r4 = skip_ws(r3);
                            if r4.len() > 0 && r4[0] == '}' {
                                Some((m, r4.skip(1)))
                            } else {
                                None
                            }
                        },
                    }
                } else {
                    None
                }
            },
        }
    } else {
        None
    }
}

/// A whole wire frame holding one delta message and nothing else.
pub open spec fn parse_message_text(s: Seq<char>) -> Option<MessageView> {
    match parse_message_body(s) {
        None => None,
        Some((m, rest)) => if skip_ws(rest).len() == 0 {
            Some(m)
        } else {
            None
        },
    }
}

/// A whole wire frame holding one untagged snapshot and nothing else.
pub open spec fn parse_state_text(s: Seq<char>) -> Option<Seq<AssetView>> {
    match parse_state(s) {
        None => None,
        Some((v, rest)) => if skip_ws(rest).len() == 0 {
            Some(v)
        } else {
            None
        },
    }
}

// ---------------------------------------------------------------------
// Serialization
// ---------------------------------------------------------------------
/// How one character appears inside a string literal: quote, backslash
/// and the short control escapes by their two-character forms, all other
/// control characters as `\u00XX`, everything else verbatim.
pub open spec fn esc_char(c: char) -> Seq<char> {
    if c == '"' {
        seq!['\\', '"']
    } else if c == '\\' {
        seq!['\\', '\\']
    } else if c == '\u{8}' {
        seq!['\\', 'b']
    } else if c == '\u{c}' {
        seq!['\\', 'f']
    } else if c == '\n' {
        seq!['\\', 'n']
    } else if c == '\r' {
        seq!['\\', 'r']
    } else if c == '\t' {
        seq!['\\', 't']
    } else if (c as u32) < 0x20 {
        seq!['\\', 'u', '0', '0', hex_digit((c as u32) as int / 16), hex_digit((c as u32) as int % 16)]
    } else {
        seq![c]
    }
}

/// A string's characters with each one escaped as needed.
pub open spec fn esc(t: Seq<char>) -> Seq<char>
    decreases t.len(),
{
    if t.len() == 0 {
        Seq::empty()
    } else {
        esc_char(t[0]) + esc(t.skip(1))
    }
}

/// A serialized string literal.
#[verifier::opaque]
pub open spec fn ser_string(t: Seq<char>) -> Seq<char> {
    seq!['"'] + esc(t) + seq!['"']
}

/// A serialized asset object, compact, fields in declaration order.
#[verifier::opaque]
pub open spec fn ser_asset(a: AssetView) -> Seq<char> {
    seq!['{'] + ser_string(key_id()) + seq![':'] + ser_string(a.id) + seq![','] + ser_string(
        key_x(),
    ) + seq![':'] + a.x + seq![','] + ser_string(key_y()) + seq![':'] + a.y + seq![',']
        + ser_string(key_w()) + seq![':'] + a.w + seq![','] + ser_string(key_h()) + seq![':'] + a.h
        + seq![','] + ser_string(key_url()) + seq![':'] + ser_string(a.url) + seq!['}']
}

/// The comma-separated insides of an asset array.
#[verifier::opaque]
pub open spec fn ser_asset_items(v: Seq<AssetView>) -> Seq<char>
    decreases v.len(),
{
    if v.len() == 0 {
        Seq::empty()
    } else if v.len() == 1 {
        ser_asset(v[0])
    } else {
        ser_asset(v[0]) + seq![','] + ser_asset_items(v.skip(1))
    }
}

/// A serialized asset array.
#[verifier::opaque]
pub open spec fn ser_assets(v: Seq<AssetView>) -> Seq<char> {
    seq!['['] + ser_asset_items(v) + seq![']']
}

/// The serialized untagged snapshot object.
#[verifier::opaque]
pub open spec fn ser_state(v: Seq<AssetView>) -> Seq<char> {
    seq!['{'] + ser_string(key_assets()) + seq![':'] + ser_assets(v) + seq!['}']
}

/// The serialized tagged delta union.
#[verifier::opaque]
pub open spec fn ser_message(m: MessageView) -> Seq<char> {
    match m {
        MessageView::New(v) => seq!['{'] + ser_string(tag_new()) + seq![':'] + ser_state(v)
            + seq!['}'],
        MessageView::Update(a) => seq!['{'] + ser_string(tag_update()) + seq![':'] + ser_asset(a)
            + seq!['}'],
        MessageView::Delete(id) => seq!['{'] + ser_string(tag_delete()) + seq![':'] + ser_string(id)
            + seq!['}'],
    }
}

} // verus!
