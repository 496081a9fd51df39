//! The executable wire parser, verified clause by clause against the
//! grammar in [`crate::json::grammar`].
//!
//! Every function scans a `Vec<char>` from an index and reports the value
//! it read together with the index after it; its contract equates that
//! with the corresponding grammar function applied to the remaining input.

use vstd::prelude::*;

verus! {

use crate::json::grammar;
use crate::json::grammar::{AccView, acc_empty};
use crate::model::{ImgfloatAsset, ImgfloatAssetStateMessage, ImgfloatState};
use crate::text::{chars_vec, string_from_chars};

/// Relies on char::from_u32: `Some` exactly for valid Unicode scalar
/// values (not a surrogate, at most 0x10FFFF), holding the character
/// with that value.
#[verifier::external_body]
fn char_from_u32(u: u32) -> (r: Option<char>)
    ensures
        r is Some <==> (u < 0xD800 || (0xE000 <= u && u <= 0x10FFFF)),
        r is Some ==> r->0 == u as char,
{
    char::from_u32(u)
}

/// The index after any leading whitespace.
fn skip_ws_at(v: &Vec<char>, i: usize) -> (j: usize)
    requires
        i <= v@.len(),
    ensures
        i <= j <= v@.len(),
        v@.skip(j as int) == grammar::skip_ws(v@.skip(i as int)),
{
    let mut j: usize = i;
    while j < v.len() && (v[j] == ' ' || v[j] == '\t' || v[j] == '\n' || v[j] == '\r')
        invariant
            i <= j <= v@.len(),
            grammar::skip_ws(v@.skip(j as int)) == grammar::skip_ws(v@.skip(i as int)),
        decreases v@.len() - j,
    {
        proof {
            assert(v@.skip(j as int).skip(1) =~= v@.skip(j as int + 1));
        }
        j = j + 1;
    }
    j
}

/// The numeric value of one hexadecimal digit character.
fn hex_digit_val(c: char) -> (n: u32)
    requires
        grammar::is_hex(c),
    ensures
        n == grammar::hex_val(c),
{
    if '0' <= c && c <= '9' {
        c as u32 - '0' as u32
    } else if 'a' <= c && c <= 'f' {
        c as u32 - 'a' as u32 + 10
    } else {
        c as u32 - 'A' as u32 + 10
    }
}

/// Whether the character is a hexadecimal digit.
fn is_hex_char(c: char) -> (b: bool)
    ensures
        b == grammar::is_hex(c),
{
    ('0' <= c && c <= '9') || ('a' <= c && c <= 'f') || ('A' <= c && c <= 'F')
}

/// One escape sequence, after the backslash.
fn parse_escape_at(v: &Vec<char>, i: usize) -> (r: Option<(char, usize)>)
    requires
        i <= v@.len(),
    ensures
        ({
            let sp = grammar::parse_escape(v@.skip(i as int));
            match r {
                Some(p) => {
                    &&& sp == Some((p.0, v@.skip(p.1 as int)))
                    &&& i < p.1 <= v@.len()
                },
                None => sp is None,
            }
        }),
{
    proof {
        assert(v@.skip(i as int).len() == v@.len() - i);
    }
    if i >= v.len() {
        return None;
    }
    let ghost s = v@.skip(i as int);
    let c = v[i];
    assert(s[0] == c);
    proof {
        assert(s.skip(1) =~= v@.skip(i as int + 1));
    }
    if c == '"' {
        Some(('"', i + 1))
    } else if c == '\\' {
        Some(('\\', i + 1))
    } else if c == '/' {
        Some(('/', i + 1))
    } else if c == 'b' {
        Some(('\u{8}', i + 1))
    } else if c == 'f' {
        Some(('\u{c}', i + 1))
    } else if c == 'n' {
        Some(('\n', i + 1))
    } else if c == 'r' {
        Some(('\r', i + 1))
    } else if c == 't' {
        Some(('\t', i + 1))
    } else if c == 'u' {
        proof {
            assert forall|k: int| 0 <= k < s.len() implies s[k] == v@[i + k] by {}
        }
        if v.len() - i >= 5 && is_hex_char(v[i + 1]) && is_hex_char(v[i + 2]) && is_hex_char(
            v[i + 3],
        ) && is_hex_char(v[i + 4]) {
            let n: u32 = hex_digit_val(v[i + 1]) * 4096 + hex_digit_val(v[i + 2]) * 256
                + hex_digit_val(v[i + 3]) * 16 + hex_digit_val(v[i + 4]);
            assert(n == grammar::hex4_val(s[1], s[2], s[3], s[4]));
            if 0xD800 <= n && n < 0xDC00 {
                if v.len() - i >= 11 && v[i + 5] == '\\' && v[i + 6] == 'u' && is_hex_char(
                    v[i + 7],
                ) && is_hex_char(v[i + 8]) && is_hex_char(v[i + 9]) && is_hex_char(v[i + 10]) {
                    let lo: u32 = hex_digit_val(v[i + 7]) * 4096 + hex_digit_val(v[i + 8]) * 256
                        + hex_digit_val(v[i + 9]) * 16 + hex_digit_val(v[i + 10]);
                    assert(lo == grammar::hex4_val(s[7], s[8], s[9], s[10]));
                    if 0xDC00 <= lo && lo < 0xE000 {
                        let code: u32 = (n - 0xD800) * 0x400 + (lo - 0xDC00) + 0x10000;
                        proof {
                            assert(s.skip(11) =~= v@.skip(i as int + 11));
                        }
                        match char_from_u32(code) {
                            Some(ch) => Some((ch, i + 11)),
                            None => {
                                proof {
                                    assert(false);
                                }
                                None
                            },
                        }
                    } else {
                        None
                    }
                } else {
                    None
                }
            } else if 0xDC00 <= n && n < 0xE000 {
                None
            } else {
                proof {
                    assert(s.skip(5) =~= v@.skip(i as int + 5));
                }
                match char_from_u32(n) {
                    Some(ch) => Some((ch, i + 5)),
                    None => {
                        proof {
                            assert(false);
                        }
                        None
                    },
                }
            }
        } else {
            None
        }
    } else {
        None
    }
}

/// The body of a string literal, after the opening quote.
fn parse_string_body_at(v: &Vec<char>, i: usize) -> (r: Option<(Vec<char>, usize)>)
    requires
        i <= v@.len(),
    ensures
        ({
            let sp = grammar::parse_string_body(v@.skip(i as int));
            match r {
                Some(p) => {
                    &&& sp == Some((p.0@, v@.skip(p.1 as int)))
                    &&& i < p.1 <= v@.len()
                },
                None => sp is None,
            }
        }),
    decreases v@.len() - i,
{
    proof {
        assert(v@.skip(i as int).len() == v@.len() - i);
    }
    if i >= v.len() {
        return None;
    }
    let ghost s = v@.skip(i as int);
    let c = v[i];
    assert(s[0] == c);
    proof {
        assert(s.skip(1) =~= v@.skip(i as int + 1));
    }
    if c == '"' {
        let out: Vec<char> = Vec::new();
        proof {
            assert(out@ =~= Seq::<char>::empty());
        }
        return Some((out, i + 1));
    }
    if c == '\\' {
        match parse_escape_at(v, i + 1) {
            None => None,
            Some((e, j)) => {
                assert(grammar::parse_escape(s.skip(1)) == Some((e, v@.skip(j as int))));
                match parse_string_body_at(v, j) {
                    None => None,
                    Some((mut t, k)) => {
                        let ghost t0 = t@;
                        t.insert(0, e);
                        proof {
                            assert(t@ =~= seq![e] + t0);
                        }
                        Some((t, k))
                    },
                }
            },
        }
    } else if (c as u32) < 0x20 {
        None
    } else {
        match parse_string_body_at(v, i + 1) {
            None => None,
            Some((mut t, k)) => {
                let ghost t0 = t@;
                t.insert(0, c);
                proof {
                    assert(t@ =~= seq![c] + t0);
                }
                Some((t, k))
            },
        }
    }
}

/// A string literal, opening quote included.
fn parse_string_at(v: &Vec<char>, i: usize) -> (r: Option<(Vec<char>, usize)>)
    requires
        i <= v@.len(),
    ensures
        ({
            let sp = grammar::parse_string(v@.skip(i as int));
            match r {
                Some(p) => {
                    &&& sp == Some((p.0@, v@.skip(p.1 as int)))
                    &&& i < p.1 <= v@.len()
                },
                None => sp is None,
            }
        }),
{
    proof {
        assert(v@.skip(i as int).len() == v@.len() - i);
        if i < v@.len() {
            assert(v@.skip(i as int)[0] == v@[i as int]);
            assert(v@.skip(i as int).skip(1) =~= v@.skip(i as int + 1));
        }
    }
    if i < v.len() && v[i] == '"' {
        parse_string_body_at(v, i + 1)
    } else {
        None
    }
}

/// The index after any leading decimal digits.
fn count_digits(v: &Vec<char>, i: usize) -> (j: usize)
    requires
        i <= v@.len(),
    ensures
        i <= j <= v@.len(),
        j - i == grammar::digit_count(v@.skip(i as int)),
{
    let mut j: usize = i;
    while j < v.len() && '0' <= v[j] && v[j] <= '9'
        invariant
            i <= j <= v@.len(),
            grammar::digit_count(v@.skip(i as int)) == (j - i) + grammar::digit_count(
                v@.skip(j as int),
            ),
        decreases v@.len() - j,
    {
        proof {
            assert(v@.skip(j as int).skip(1) =~= v@.skip(j as int + 1));
        }
        j = j + 1;
    }
    proof {
        assert(grammar::digit_count(v@.skip(j as int)) == 0);
    }
    j
}

/// The characters of `v` from `a` (inclusive) to `b` (exclusive).
fn copy_range(v: &Vec<char>, a: usize, b: usize) -> (r: Vec<char>)
    requires
        a <= b <= v@.len(),
    ensures
        r@ == v@.subrange(a as int, b as int),
{
    let mut r: Vec<char> = Vec::new();
    let mut k: usize = a;
    while k < b
        invariant
            a <= k <= b <= v@.len(),
            r@ =~= v@.subrange(a as int, k as int),
        decreases b - k,
    {
        r.push(v[k]);
        proof {
            assert(r@ =~= v@.subrange(a as int, k as int + 1));
        }
        k = k + 1;
    }
    proof {
        assert(r@ =~= v@.subrange(a as int, b as int));
    }
    r
}

/// The length of a leading fraction part at `j`.
fn scan_frac(v: &Vec<char>, j: usize) -> (k: usize)
    requires
        j <= v@.len(),
    ensures
        j <= k <= v@.len(),
        k - j == grammar::frac_len(v@.skip(j as int)),
{
    let ghost s2 = v@.skip(j as int);
    proof {
        assert(s2.len() == v@.len() - j);
        assert(s2.len() > 0 ==> s2[0] == v@[j as int]);
    }
    if j < v.len() && v[j] == '.' {
        proof {
            assert(s2.skip(1) =~= v@.skip(j as int + 1));
        }
        let d = count_digits(v, j + 1);
        if d > j + 1 {
            return d;
        }
    }
    j
}

/// The length of a leading exponent part at `k`.
fn scan_exp(v: &Vec<char>, k: usize) -> (e: usize)
    requires
        k <= v@.len(),
    ensures
        k <= e <= v@.len(),
        e - k == grammar::exp_len(v@.skip(k as int)),
{
    let ghost s3 = v@.skip(k as int);
    proof {
        assert(s3.len() == v@.len() - k);
        assert(s3.len() > 0 ==> s3[0] == v@[k as int]);
        assert(s3.len() > 1 ==> s3[1] == v@[k as int + 1]);
    }
    if k < v.len() && (v[k] == 'e' || v[k] == 'E') {
        let m: usize = if k + 1 < v.len() && (v[k + 1] == '+' || v[k + 1] == '-') {
            k + 2
        } else {
            k + 1
        };
        proof {
            assert(s3.skip((m - k) as int) =~= v@.skip(m as int));
        }
        let d = count_digits(v, m);
        if d > m {
            return d;
        }
    }
    k
}

/// A number literal: its lexeme kept verbatim.
#[verifier::rlimit(60)]
fn parse_number_at(v: &Vec<char>, i: usize) -> (r: Option<(Vec<char>, usize)>)
    requires
        i <= v@.len(),
    ensures
        ({
            let sp = grammar::parse_number(v@.skip(i as int));
            match r {
                Some(p) => {
                    &&& sp == Some((p.0@, v@.skip(p.1 as int)))
                    &&& p.0@ == v@.subrange(i as int, p.1 as int)
                    &&& i < p.1 <= v@.len()
                },
                None => sp is None,
            }
        }),
{
    let ghost s = v@.skip(i as int);
    proof {
        assert(s.len() == v@.len() - i);
        assert(s.len() > 0 ==> s[0] == v@[i as int]);
    }
    let b: usize = if i < v.len() && v[i] == '-' {
        i + 1
    } else {
        i
    };
    let ghost sg: int = b - i;
    let ghost s1 = s.skip(sg);
    proof {
        assert(s1 =~= v@.skip(b as int));
    }
    if b >= v.len() || !('0' <= v[b] && v[b] <= '9') {
        proof {
            assert(s1.len() > 0 ==> s1[0] == v@[b as int]);
        }
        return None;
    }
    assert(s1[0] == v@[b as int] && grammar::is_digit(s1[0]));
    let j: usize = if v[b] == '0' {
        b + 1
    } else {
        count_digits(v, b)
    };
    let ghost ip: int = j - b;
    proof {
        assert(ip == if s1[0] == '0' { 1int } else { grammar::digit_count(s1) });
        grammar::lemma_digit_count_nonneg(v@.skip(b as int).skip(1));
        assert(v@.skip(b as int).skip(1) =~= v@.skip(b as int + 1));
        assert(ip >= 1);
        assert(s1.skip(ip) =~= v@.skip(j as int));
    }
    let k = scan_frac(v, j);
    let ghost fp: int = k - j;
    let e = scan_exp(v, k);
    let ghost ep: int = e - k;
    proof {
        assert(s1.skip(ip + fp) =~= v@.skip(k as int));
        let total = (e - i) as int;
        assert(total == sg + ip + fp + ep);
        assert(s.take(total) =~= v@.subrange(i as int, e as int));
        assert(s.skip(total) =~= v@.skip(e as int));
        assert(grammar::parse_number(s) == Some(
            (v@.subrange(i as int, e as int), v@.skip(e as int)),
        ));
    }
    Some((copy_range(v, i, e), e))
}

/// Whether `t` is the text of one complete JSON number literal.
pub fn str_is_json_number(t: &str) -> (b: bool)
    ensures
        b == grammar::is_json_number(t@),
{
    let v = chars_vec(t);
    proof {
        assert(v@.skip(0) =~= v@);
    }
    match parse_number_at(&v, 0) {
        Some((lex, j)) => {
            if j == v.len() {
                proof {
                    assert(v@.skip(j as int) =~= Seq::<char>::empty());
                    assert(lex@ == v@.subrange(0, j as int));
                    assert(lex@ =~= v@);
                }
                true
            } else {
                proof {
                    assert(v@.skip(j as int).len() > 0);
                }
                false
            }
        },
        None => false,
    }
}

/// The fields collected so far while reading an asset object.
struct AssetAcc {
    id: Option<String>,
    x: Option<String>,
    y: Option<String>,
    w: Option<String>,
    h: Option<String>,
    url: Option<String>,
}

spec fn opt_view(o: Option<String>) -> Option<Seq<char>> {
    match o {
        Some(s) => Some(s@),
        None => None,
    }
}

spec fn acc_view(a: &AssetAcc) -> AccView {
    AccView {
        id: opt_view(a.id),
        x: opt_view(a.x),
        y: opt_view(a.y),
        w: opt_view(a.w),
        h: opt_view(a.h),
        url: opt_view(a.url),
    }
}

/// One `"key": value` member of an asset object.
fn parse_member_at(v: &Vec<char>, i: usize, acc: AssetAcc) -> (r: Option<(AssetAcc, usize)>)
    requires
        i <= v@.len(),
    ensures
        ({
            let sp = grammar::parse_member(v@.skip(i as int), acc_view(&acc));
            match r {
                Some(p) => {
                    &&& sp == Some((acc_view(&p.0), v@.skip(p.1 as int)))
                    &&& i <= p.1 <= v@.len()
                },
                None => sp is None,
            }
        }),
{
    let i1 = skip_ws_at(v, i);
    let (key, j) = match parse_string_at(v, i1) {
        None => {
            return None;
        },
        Some(p) => p,
    };
    let j1 = skip_ws_at(v, j);
    if !(j1 < v.len() && v[j1] == ':') {
        proof {
            let r2 = grammar::skip_ws(v@.skip(j as int));
            assert(r2 == v@.skip(j1 as int));
            assert(r2.len() > 0 ==> r2[0] == v@[j1 as int]);
        }
        return None;
    }
    assert(v@.skip(j1 as int)[0] == ':');
    proof {
        assert(v@.skip(j1 as int).skip(1) =~= v@.skip(j1 as int + 1));
    }
    let j2 = skip_ws_at(v, j1 + 1);
    let klen = key.len();
    let is_id = klen == 2 && key[0] == 'i' && key[1] == 'd';
    let is_url = klen == 3 && key[0] == 'u' && key[1] == 'r' && key[2] == 'l';
    let is_x = klen == 1 && key[0] == 'x';
    let is_y = klen == 1 && key[0] == 'y';
    let is_w = klen == 1 && key[0] == 'w';
    let is_h = klen == 1 && key[0] == 'h';
    proof {
        if is_id {
            assert(key@ =~= grammar::key_id());
        }
        if is_url {
            assert(key@ =~= grammar::key_url());
        }
        if is_x {
            assert(key@ =~= grammar::key_x());
        }
        if is_y {
            assert(key@ =~= grammar::key_y());
        }
        if is_w {
            assert(key@ =~= grammar::key_w());
        }
        if is_h {
            assert(key@ =~= grammar::key_h());
        }
    }
    if is_id || is_url {
        match parse_string_at(v, j2) {
            None => None,
            Some((val, j3)) => {
                let sval = string_from_chars(&val);
                if is_id {
                    if acc.id.is_none() {
                        Some((AssetAcc { id: Some(sval), ..acc }, j3))
                    } else {
                        None
                    }
                } else {
                    if acc.url.is_none() {
                        Some((AssetAcc { url: Some(sval), ..acc }, j3))
                    } else {
                        None
                    }
                }
            },
        }
    } else if is_x || is_y || is_w || is_h {
        match parse_number_at(v, j2) {
            None => None,
            Some((val, j3)) => {
                let sval = string_from_chars(&val);
                if is_x {
                    if acc.x.is_none() {
                        Some((AssetAcc { x: Some(sval), ..acc }, j3))
                    } else {
                        None
                    }
                } else if is_y {
                    if acc.y.is_none() {
                        Some((AssetAcc { y: Some(sval), ..acc }, j3))
                    } else {
                        None
                    }
                } else if is_w {
                    if acc.w.is_none() {
                        Some((AssetAcc { w: Some(sval), ..acc }, j3))
                    } else {
                        None
                    }
                } else {
                    if acc.h.is_none() {
                        Some((AssetAcc { h: Some(sval), ..acc }, j3))
                    } else {
                        None
                    }
                }
            },
        }
    } else {
        proof {
            assert(key@ != grammar::key_id());
            assert(key@ != grammar::key_url());
            assert(key@ != grammar::key_x());
            assert(key@ != grammar::key_y());
            assert(key@ != grammar::key_w());
            assert(key@ != grammar::key_h());
        }
        None
    }
}

/// The members of an asset object, up to and including the closing brace.
fn parse_members_at(v: &Vec<char>, i: usize, acc: AssetAcc) -> (r: Option<(AssetAcc, usize)>)
    requires
        i <= v@.len(),
    ensures
        ({
            let sp = grammar::parse_members(v@.skip(i as int), acc_view(&acc));
            match r {
                Some(p) => {
                    &&& sp == Some((acc_view(&p.0), v@.skip(p.1 as int)))
                    &&& i <= p.1 <= v@.len()
                },
                None => sp is None,
            }
        }),
    decreases v@.len() - i,
{
    match parse_member_at(v, i, acc) {
        None => None,
        Some((acc2, j)) => {
            let j1 = skip_ws_at(v, j);
            proof {
                if j1 < v@.len() {
                    assert(v@.skip(j1 as int)[0] == v@[j1 as int]);
                    assert(v@.skip(j1 as int).skip(1) =~= v@.skip(j1 as int + 1));
                } else {
                    assert(v@.skip(j1 as int).len() == 0);
                }
            }
            if j1 < v.len() && v[j1] == ',' {
                if j1 + 1 > i {
                    parse_members_at(v, j1 + 1, acc2)
                } else {
                    None
                }
            } else if j1 < v.len() && v[j1] == '}' {
                Some((acc2, j1 + 1))
            } else {
                None
            }
        },
    }
}

/// One asset object; all six fields must be present exactly once.
fn parse_asset_at(v: &Vec<char>, i: usize) -> (r: Option<(ImgfloatAsset, usize)>)
    requires
        i <= v@.len(),
    ensures
        ({
            let sp = grammar::parse_asset(v@.skip(i as int));
            match r {
                Some(p) => {
                    &&& sp == Some((p.0@, v@.skip(p.1 as int)))
                    &&& i <= p.1 <= v@.len()
                },
                None => sp is None,
            }
        }),
{
    let i1 = skip_ws_at(v, i);
    proof {
        if i1 < v@.len() {
            assert(v@.skip(i1 as int)[0] == v@[i1 as int]);
            assert(v@.skip(i1 as int).skip(1) =~= v@.skip(i1 as int + 1));
        } else {
            assert(v@.skip(i1 as int).len() == 0);
        }
    }
    if !(i1 < v.len() && v[i1] == '{') {
        return None;
    }
    let acc0 = AssetAcc { id: None, x: None, y: None, w: None, h: None, url: None };
    assert(acc_view(&acc0) == acc_empty());
    match parse_members_at(v, i1 + 1, acc0) {
        None => None,
        Some((acc, j)) => match (acc.id, acc.x, acc.y, acc.w, acc.h, acc.url) {
            (Some(id), Some(x), Some(y), Some(w), Some(h), Some(url)) => Some(
                (ImgfloatAsset { id, x, y, w, h, url }, j),
            ),
            _ => None,
        },
    }
}

/// One or more comma-separated assets, closing bracket included.
fn parse_asset_list_at(v: &Vec<char>, i: usize) -> (r: Option<(Vec<ImgfloatAsset>, usize)>)
    requires
        i <= v@.len(),
    ensures
        ({
            let sp = grammar::parse_asset_list(v@.skip(i as int));
            match r {
                Some(p) => {
                    &&& sp == Some(
                        (Seq::new(p.0@.len(), |k: int| p.0@[k]@), v@.skip(p.1 as int)),
                    )
                    &&& i <= p.1 <= v@.len()
                },
                None => sp is None,
            }
        }),
    decreases v@.len() - i,
{
    match parse_asset_at(v, i) {
        None => None,
        Some((a, j)) => {
            let j1 = skip_ws_at(v, j);
            proof {
                if j1 < v@.len() {
                    assert(v@.skip(j1 as int)[0] == v@[j1 as int]);
                    assert(v@.skip(j1 as int).skip(1) =~= v@.skip(j1 as int + 1));
                } else {
                    assert(v@.skip(j1 as int).len() == 0);
                }
            }
            if j1 < v.len() && v[j1] == ',' {
                if j1 + 1 > i {
                    match parse_asset_list_at(v, j1 + 1) {
                        None => None,
                        Some((mut rest, k)) => {
                            let ghost r0 = rest@;
                            rest.insert(0, a);
                            proof {
                                assert(Seq::new(rest@.len(), |m: int| rest@[m]@) =~= seq![a@]
                                    + Seq::new(r0.len(), |m: int| r0[m]@));
                            }
                            Some((rest, k))
                        },
                    }
                } else {
                    None
                }
            } else if j1 < v.len() && v[j1] == ']' {
                let mut out: Vec<ImgfloatAsset> = Vec::new();
                out.push(a);
                proof {
                    assert(Seq::new(out@.len(), |m: int| out@[m]@) =~= seq![a@]);
                }
                Some((out, j1 + 1))
            } else {
                None
            }
        },
    }
}

/// An array of assets.
fn parse_assets_at(v: &Vec<char>, i: usize) -> (r: Option<(Vec<ImgfloatAsset>, usize)>)
    requires
        i <= v@.len(),
    ensures
        ({
            let sp = grammar::parse_assets(v@.skip(i as int));
            match r {
                Some(p) => {
                    &&& sp == Some(
                        (Seq::new(p.0@.len(), |k: int| p.0@[k]@), v@.skip(p.1 as int)),
                    )
                    &&& i <= p.1 <= v@.len()
                },
                None => sp is None,
            }
        }),
{
    let i1 = skip_ws_at(v, i);
    proof {
        if i1 < v@.len() {
            assert(v@.skip(i1 as int)[0] == v@[i1 as int]);
            assert(v@.skip(i1 as int).skip(1) =~= v@.skip(i1 as int + 1));
        } else {
            assert(v@.skip(i1 as int).len() == 0);
        }
    }
    if !(i1 < v.len() && v[i1] == '[') {
        return None;
    }
    let i2 = skip_ws_at(v, i1 + 1);
    proof {
        if i2 < v@.len() {
            assert(v@.skip(i2 as int)[0] == v@[i2 as int]);
            assert(v@.skip(i2 as int).skip(1) =~= v@.skip(i2 as int + 1));
        } else {
            assert(v@.skip(i2 as int).len() == 0);
        }
    }
    if i2 < v.len() && v[i2] == ']' {
        let out: Vec<ImgfloatAsset> = Vec::new();
        proof {
            assert(Seq::new(out@.len(), |k: int| out@[k]@) =~= Seq::<
                crate::model::AssetView,
            >::empty());
        }
        Some((out, i2 + 1))
    } else {
        parse_asset_list_at(v, i1 + 1)
    }
}

/// The untagged snapshot object `{"assets": [...]}`.
fn parse_state_at(v: &Vec<char>, i: usize) -> (r: Option<(ImgfloatState, usize)>)
    requires
        i <= v@.len(),
    ensures
        ({
            let sp = grammar::parse_state(v@.skip(i as int));
            match r {
                Some(p) => {
                    &&& sp == Some((p.0@, v@.skip(p.1 as int)))
                    &&& i <= p.1 <= v@.len()
                },
                None => sp is None,
            }
        }),
{
    let i1 = skip_ws_at(v, i);
    proof {
        if i1 < v@.len() {
            assert(v@.skip(i1 as int)[0] == v@[i1 as int]);
            assert(v@.skip(i1 as int).skip(1) =~= v@.skip(i1 as int + 1));
        } else {
            assert(v@.skip(i1 as int).len() == 0);
        }
    }
    if !(i1 < v.len() && v[i1] == '{') {
        return None;
    }
    let i2 = skip_ws_at(v, i1 + 1);
    let (key, j) = match parse_string_at(v, i2) {
        None => {
            return None;
        },
        Some(p) => p,
    };
    let is_assets = key.len() == 6 && key[0] == 'a' && key[1] == 's' && key[2] == 's' && key[3]
        == 'e' && key[4] == 't' && key[5] == 's';
    proof {
        if is_assets {
            assert(key@ =~= grammar::key_assets());
        }
    }
    if !is_assets {
        return None;
    }
    let j1 = skip_ws_at(v, j);
    proof {
        if j1 < v@.len() {
            assert(v@.skip(j1 as int)[0] == v@[j1 as int]);
            assert(v@.skip(j1 as int).skip(1) =~= v@.skip(j1 as int + 1));
        } else {
            assert(v@.skip(j1 as int).len() == 0);
        }
    }
    if !(j1 < v.len() && v[j1] == ':') {
        return None;
    }
    match parse_assets_at(v, j1 + 1) {
        None => None,
        Some((assets, k)) => {
            let k1 = skip_ws_at(v, k);
            proof {
                if k1 < v@.len() {
                    assert(v@.skip(k1 as int)[0] == v@[k1 as int]);
                    assert(v@.skip(k1 as int).skip(1) =~= v@.skip(k1 as int + 1));
                } else {
                    assert(v@.skip(k1 as int).len() == 0);
                }
            }
            if k1 < v.len() && v[k1] == '}' {
                let st = ImgfloatState { assets };
                Some((st, k1 + 1))
            } else {
                None
            }
        },
    }
}

/// The tagged delta union object.
fn parse_message_at(v: &Vec<char>, i: usize) -> (r: Option<(ImgfloatAssetStateMessage, usize)>)
    requires
        i <= v@.len(),
    ensures
        ({
            let sp = grammar::parse_message_body(v@.skip(i as int));
            match r {
                Some(p) => {
                    &&& sp == Some((p.0@, v@.skip(p.1 as int)))
                    &&& i <= p.1 <= v@.len()
                },
                None => sp is None,
            }
        }),
{
    let i1 = skip_ws_at(v, i);
    proof {
        if i1 < v@.len() {
            assert(v@.skip(i1 as int)[0] == v@[i1 as int]);
            assert(v@.skip(i1 as int).skip(1) =~= v@.skip(i1 as int + 1));
        } else {
            assert(v@.skip(i1 as int).len() == 0);
        }
    }
    if !(i1 < v.len() && v[i1] == '{') {
        return None;
    }
    let i2 = skip_ws_at(v, i1 + 1);
    let (tag, j) = match parse_string_at(v, i2) {
        None => {
            return None;
        },
        Some(p) => p,
    };
    let j1 = skip_ws_at(v, j);
    proof {
        if j1 < v@.len() {
            assert(v@.skip(j1 as int)[0] == v@[j1 as int]);
            assert(v@.skip(j1 as int).skip(1) =~= v@.skip(j1 as int + 1));
        } else {
            assert(v@.skip(j1 as int).len() == 0);
        }
    }
    if !(j1 < v.len() && v[j1] == ':') {
        return None;
    }
    let is_new = tag.len() == 3 && tag[0] == 'N' && tag[1] == 'e' && tag[2] == 'w';
    let is_update = tag.len() == 6 && tag[0] == 'U' && tag[1] == 'p' && tag[2] == 'd' && tag[3]
        == 'a' && tag[4] == 't' && tag[5] == 'e';
    let is_delete = tag.len() == 6 && tag[0] == 'D' && tag[1] == 'e' && tag[2] == 'l' && tag[3]
        == 'e' && tag[4] == 't' && tag[5] == 'e';
    proof {
        if is_new {
            assert(tag@ =~= grammar::tag_new());
        }
        if is_update {
            assert(tag@ =~= grammar::tag_update());
        }
        if is_delete {
            assert(tag@ =~= grammar::tag_delete());
        }
    }
    let payload: Option<(ImgfloatAssetStateMessage, usize)> = if is_new {
        match parse_state_at(v, j1 + 1) {
            None => None,
            Some((st, k)) => Some((ImgfloatAssetStateMessage::New(st), k)),
        }
    } else if is_update {
        match parse_asset_at(v, j1 + 1) {
            None => None,
            Some((a, k)) => Some((ImgfloatAssetStateMessage::Update(a), k)),
        }
    } else if is_delete {
        let j2 = skip_ws_at(v, j1 + 1);
        match parse_string_at(v, j2) {
            None => None,
            Some((idv, k)) => Some(
                (ImgfloatAssetStateMessage::Delete(string_from_chars(&idv)), k),
            ),
        }
    } else {
        proof {
            assert(tag@ != grammar::tag_new());
            assert(tag@ != grammar::tag_update());
            assert(tag@ != grammar::tag_delete());
        }
        None
    };
    match payload {
        None => None,
        Some((m, k)) => {
            let k1 = skip_ws_at(v, k);
            proof {
                if k1 < v@.len() {
                    assert(v@.skip(k1 as int)[0] == v@[k1 as int]);
                    assert(v@.skip(k1 as int).skip(1) =~= v@.skip(k1 as int + 1));
                } else {
                    assert(v@.skip(k1 as int).len() == 0);
                }
            }
            if k1 < v.len() && v[k1] == '}' {
                Some((m, k1 + 1))
            } else {
                None
            }
        },
    }
}

/// Parse one whole wire frame as a tagged delta message.
pub fn parse_message(t: &str) -> (r: Option<ImgfloatAssetStateMessage>)
    ensures
        match r {
            Some(m) => grammar::parse_message_text(t@) == Some(m@),
            None => grammar::parse_message_text(t@) is None,
        },
{
    let v = chars_vec(t);
    proof {
        assert(v@.skip(0) =~= v@);
    }
    match parse_message_at(&v, 0) {
        None => None,
        Some((m, j)) => {
            let j1 = skip_ws_at(&v, j);
            proof {
                assert(v@.skip(j1 as int).len() == v@.len() - j1);
            }
            if j1 == v.len() {
                Some(m)
            } else {
                None
            }
        },
    }
}

/// Parse one whole wire frame as an untagged snapshot.
pub fn parse_state(t: &str) -> (r: Option<ImgfloatState>)
    ensures
        match r {
            Some(s) => grammar::parse_state_text(t@) == Some(s@),
            None => grammar::parse_state_text(t@) is None,
        },
{
    let v = chars_vec(t);
    proof {
        assert(v@.skip(0) =~= v@);
    }
    match parse_state_at(&v, 0) {
        None => None,
        Some((s, j)) => {
            let j1 = skip_ws_at(&v, j);
            proof {
                assert(v@.skip(j1 as int).len() == v@.len() - j1);
            }
            if j1 == v.len() {
                Some(s)
            } else {
                None
            }
        },
    }
}

} // verus!
