//! Round-trip laws of the wire codec: parsing inverts serialization.
//!
//! The engine serializes a snapshot with `emit` and a client parses it
//! back with `read` (and vice versa for delta frames). These lemmas state
//! that for every well-formed value the parse of its serialization gives
//! back exactly that value, so a reader's first payload after a `New`
//! denotes the writer's state bit for bit.

use vstd::prelude::*;

verus! {

use crate::json::grammar::{
    acc_empty, digit_count, esc, esc_char, exp_len, frac_len, hex4_val, hex_digit, hex_val,
    is_digit, is_hex, is_json_number, is_ws, key_assets, key_h, key_id, key_url, key_w, key_x,
    key_y, lemma_digit_count_nonneg, parse_asset, parse_asset_list, parse_assets, parse_escape,
    parse_member, parse_members, parse_message_body, parse_message_text, parse_number,
    parse_state, parse_state_text, parse_string, parse_string_body, ser_asset, ser_asset_items,
    ser_assets, ser_message, ser_state, ser_string, skip_ws, tag_delete, tag_new, tag_update,
    AccView,
};
use crate::model::{asset_wf, state_wf, AssetView, MessageView};

/// An input that does not begin with whitespace keeps itself.
proof fn lemma_skip_ws_id(s: Seq<char>)
    requires
        s.len() == 0 || !is_ws(s[0]),
    ensures
        skip_ws(s) == s,
{
}

/// Leading digits are counted within `a` alone when `b` cannot extend
/// them.
proof fn lemma_digit_count_concat(a: Seq<char>, b: Seq<char>)
    requires
        b.len() == 0 || !is_digit(b[0]),
    ensures
        digit_count(a + b) == digit_count(a),
    decreases a.len(),
{
    if a.len() == 0 {
        assert(a + b =~= b);
    } else {
        assert((a + b)[0] == a[0]);
        if is_digit(a[0]) {
            assert((a + b).skip(1) =~= a.skip(1) + b);
            lemma_digit_count_concat(a.skip(1), b);
        }
    }
}

/// A hexadecimal digit character round-trips through its value.
proof fn lemma_hex_digit(n: int)
    requires
        0 <= n < 16,
    ensures
        is_hex(hex_digit(n)),
        hex_val(hex_digit(n)) == n,
        hex_digit(n) != '"' && hex_digit(n) != '\\',
{
    if n < 10 {
        assert(hex_digit(n) as int == '0' as int + n);
    } else {
        assert(hex_digit(n) as int == 'a' as int + (n - 10));
    }
}

/// Parsing the serialized form of a string body gives back its text.
proof fn lemma_parse_string_body_esc(t: Seq<char>, rest: Seq<char>)
    ensures
        parse_string_body(esc(t) + seq!['"'] + rest) == Some((t, rest)),
    decreases t.len(),
{
    let s = esc(t) + seq!['"'] + rest;
    if t.len() == 0 {
        assert(esc(t) =~= Seq::<char>::empty());
        assert(s[0] == '"');
        assert(s.skip(1) =~= rest);
    } else {
        let c = t[0];
        let e = esc_char(c);
        let tail = esc(t.skip(1)) + seq!['"'] + rest;
        assert(esc(t) == e + esc(t.skip(1)));
        assert(s =~= e + tail);
        lemma_parse_string_body_esc(t.skip(1), rest);
        assert(seq![c] + t.skip(1) =~= t);
        if c == '"' || c == '\\' || c == '\u{8}' || c == '\u{c}' || c == '\n' || c == '\r' || c
            == '\t' {
            // two-character escape
            assert(e.len() == 2 && e[0] == '\\');
            assert(s[0] == '\\');
            assert(s.skip(1) =~= seq![e[1]] + tail);
            let s1 = s.skip(1);
            assert(s1[0] == e[1]);
            assert(s1.skip(1) =~= tail);
            assert(parse_escape(s1) == Some((c, tail)));
            assert(tail.len() < s.len());
        } else if (c as u32) < 0x20 {
            // \u00XX escape
            let u = c as u32 as int;
            lemma_hex_digit(u / 16);
            lemma_hex_digit(u % 16);
            assert(e == seq!['\\', 'u', '0', '0', hex_digit(u / 16), hex_digit(u % 16)]);
            assert(s[0] == '\\');
            let s1 = s.skip(1);
            assert(s1 =~= seq!['u', '0', '0', hex_digit(u / 16), hex_digit(u % 16)] + tail);
            assert(s1[0] == 'u' && s1[1] == '0' && s1[2] == '0' && s1[3] == hex_digit(u / 16)
                && s1[4] == hex_digit(u % 16));
            assert(s1.len() >= 5);
            assert(is_hex(s1[1]) && is_hex(s1[2]) && is_hex(s1[3]) && is_hex(s1[4]));
            let n = hex4_val(s1[1], s1[2], s1[3], s1[4]);
            assert(n == u) by {
                assert(hex_val('0') == 0);
                assert(hex_val(s1[3]) == u / 16);
                assert(hex_val(s1[4]) == u % 16);
            }
            assert(0 <= n < 0x20);
            assert(s1.skip(5) =~= tail);
            assert((n as u32) as char == c) by {
                vstd::utf8::char_u32_cast(c, c as u32);
            }
            assert(parse_escape(s1) == Some((c, tail)));
            assert(tail.len() < s.len());
        } else {
            // plain character
            assert(e =~= seq![c]);
            assert(s[0] == c);
            assert(c != '"' && c != '\\' && !((c as u32) < 0x20));
            assert(s.skip(1) =~= tail);
        }
    }
}

/// Parsing the serialized form of a string literal gives back its text.
proof fn lemma_parse_string_ser(t: Seq<char>, rest: Seq<char>)
    ensures
        parse_string(ser_string(t) + rest) == Some((t, rest)),
        (ser_string(t) + rest).len() > 0 && (ser_string(t) + rest)[0] == '"',
{
    reveal(crate::json::grammar::ser_string);
    let s = ser_string(t) + rest;
    assert(s[0] == '"');
    assert(s.skip(1) =~= esc(t) + seq!['"'] + rest);
    lemma_parse_string_body_esc(t, rest);
}

/// The fraction part is read within `a` alone when `b` cannot extend it.
proof fn lemma_frac_len_concat(a: Seq<char>, b: Seq<char>)
    requires
        b.len() == 0 || !(is_digit(b[0]) || b[0] == '.'),
    ensures
        frac_len(a + b) == frac_len(a) || (a.len() == 0 && frac_len(a + b) == 0),
{
    if a.len() == 0 {
        assert(a + b =~= b);
    } else {
        assert((a + b)[0] == a[0]);
        if a[0] == '.' {
            assert((a + b).skip(1) =~= a.skip(1) + b);
            lemma_digit_count_concat(a.skip(1), b);
        }
    }
}

/// The exponent part is read within `a` alone when `b` cannot extend it.
proof fn lemma_exp_len_concat(a: Seq<char>, b: Seq<char>)
    requires
        b.len() == 0 || !(is_digit(b[0]) || b[0] == 'e' || b[0] == 'E' || b[0] == '+' || b[0]
            == '-'),
    ensures
        exp_len(a + b) == exp_len(a) || (a.len() == 0 && exp_len(a + b) == 0),
{
    let s = a + b;
    if a.len() == 0 {
        assert(a + b =~= b);
    } else {
        assert(s[0] == a[0]);
        if a[0] == 'e' || a[0] == 'E' {
            if a.len() == 1 {
                // sign or digits, if any, would come from b, which has none
                assert(s.len() > 1 ==> s[1] == b[0]);
                if s.len() > 1 && (s[1] == '+' || s[1] == '-') {
                    assert(false);
                }
                assert(s.skip(1) =~= b);
                lemma_digit_count_concat(Seq::<char>::empty(), b);
                assert(Seq::<char>::empty() + b =~= b);
                assert(digit_count(b) == 0);
                assert(exp_len(s) == 0);
                assert(exp_len(a) == 0) by {
                    assert(a.skip(1) =~= Seq::<char>::empty());
                }
            } else {
                assert(s[1] == a[1]);
                if a[1] == '+' || a[1] == '-' {
                    assert(s.skip(2) =~= a.skip(2) + b);
                    lemma_digit_count_concat(a.skip(2), b);
                } else {
                    assert(s.skip(1) =~= a.skip(1) + b);
                    lemma_digit_count_concat(a.skip(1), b);
                }
            }
        }
    }
}

/// Leading digits never run past the end of the input.
proof fn lemma_digit_count_le(s: Seq<char>)
    ensures
        0 <= digit_count(s) <= s.len(),
    decreases s.len(),
{
    if s.len() > 0 && is_digit(s[0]) {
        lemma_digit_count_le(s.skip(1));
    }
}

/// The number-part measures stay within the input.
proof fn lemma_number_parts_le(s: Seq<char>)
    ensures
        0 <= frac_len(s) <= s.len(),
        0 <= exp_len(s) <= s.len(),
        0 <= digit_count(s) <= s.len(),
{
    lemma_digit_count_le(s);
    if s.len() > 0 && s[0] == '.' {
        lemma_digit_count_le(s.skip(1));
    }
    if s.len() > 0 && (s[0] == 'e' || s[0] == 'E') {
        let sg: int = if s.len() > 1 && (s[1] == '+' || s[1] == '-') {
            1
        } else {
            0
        };
        lemma_digit_count_le(s.skip(1 + sg));
    }
}

/// Parsing a number literal followed by a delimiter consumes exactly the
/// literal.
proof fn lemma_parse_number_ser(t: Seq<char>, rest: Seq<char>)
    requires
        is_json_number(t),
        rest.len() > 0,
        rest[0] == ',' || rest[0] == '}',
    ensures
        parse_number(t + rest) == Some((t, rest)),
{
    let s = t + rest;
    // the boundaries of the lexeme inside t
    let sg: int = if t.len() > 0 && t[0] == '-' {
        1
    } else {
        0
    };
    let t1 = t.skip(sg);
    assert(t1.len() > 0 && is_digit(t1[0]));
    let ip: int = if t1[0] == '0' {
        1
    } else {
        digit_count(t1)
    };
    let fp = frac_len(t1.skip(ip));
    let ep = exp_len(t1.skip(ip + fp));
    let total = sg + ip + fp + ep;
    // every boundary lies inside t, so the scan exhausts t exactly
    lemma_number_parts_le(t1);
    assert(ip >= 1) by {
        if t1[0] != '0' {
            lemma_digit_count_nonneg(t1.skip(1));
        }
    }
    assert(ip <= t1.len());
    lemma_number_parts_le(t1.skip(ip));
    assert(fp <= t1.len() - ip);
    lemma_number_parts_le(t1.skip(ip + fp));
    assert(ep <= t1.len() - ip - fp);
    assert(total <= t.len());
    assert(t.skip(total) == Seq::<char>::empty());
    assert(t.len() - total == t.skip(total).len());
    assert(total == t.len());
    // the same boundaries on t + rest
    assert(s.len() > 0 && s[0] == t[0]);
    let s1 = s.skip(sg);
    assert(s1 =~= t1 + rest);
    assert(s1[0] == t1[0]);
    assert(digit_count(s1) == digit_count(t1)) by {
        lemma_digit_count_concat(t1, rest);
    }
    let ip2: int = if s1[0] == '0' {
        1
    } else {
        digit_count(s1)
    };
    assert(ip2 == ip);
    assert(s1.skip(ip) =~= t1.skip(ip) + rest);
    assert(frac_len(s1.skip(ip)) == frac_len(t1.skip(ip))) by {
        lemma_frac_len_concat(t1.skip(ip), rest);
        if t1.skip(ip).len() == 0 {
            assert(frac_len(t1.skip(ip)) == 0);
        }
    }
    assert(s1.skip(ip + fp) =~= t1.skip(ip + fp) + rest);
    assert(exp_len(s1.skip(ip + fp)) == exp_len(t1.skip(ip + fp))) by {
        lemma_exp_len_concat(t1.skip(ip + fp), rest);
        if t1.skip(ip + fp).len() == 0 {
            assert(exp_len(t1.skip(ip + fp)) == 0);
        }
    }
    assert(s.take(total) =~= t);
    assert(s.skip(total) =~= rest);
}


/// The member keys and the union tags are pairwise distinct.
proof fn lemma_names_distinct()
    ensures
        key_id() != key_x() && key_id() != key_y() && key_id() != key_w() && key_id() != key_h()
            && key_id() != key_url(),
        key_url() != key_x() && key_url() != key_y() && key_url() != key_w() && key_url()
            != key_h(),
        key_x() != key_y() && key_x() != key_w() && key_x() != key_h(),
        key_y() != key_w() && key_y() != key_h(),
        key_w() != key_h(),
        key_assets() != key_id(),
        tag_new() != tag_update() && tag_new() != tag_delete() && tag_update() != tag_delete(),
{
    assert(key_x()[0] == 'x' && key_y()[0] == 'y' && key_w()[0] == 'w' && key_h()[0] == 'h');
    assert(key_id().len() == 2 && key_url().len() == 3 && key_x().len() == 1 && key_y().len()
        == 1 && key_w().len() == 1 && key_h().len() == 1 && key_assets().len() == 6);
    assert(tag_new().len() == 3 && tag_update().len() == 6 && tag_delete().len() == 6);
    assert(tag_update()[0] == 'U' && tag_delete()[0] == 'D');
}

// ---------------------------------------------------------------------
// Asset objects
// ---------------------------------------------------------------------
/// Parsing an emitted string-valued member stores it in the right field.
proof fn lemma_member_id(val: Seq<char>, acc: AccView, rest: Seq<char>)
    requires
        acc.id is None,
    ensures
        parse_member(ser_string(key_id()) + seq![':'] + ser_string(val) + rest, acc) == Some(
            (AccView { id: Some(val), ..acc }, rest),
        ),
{
    let s = ser_string(key_id()) + seq![':'] + ser_string(val) + rest;
    let r1 = seq![':'] + ser_string(val) + rest;
    assert(s =~= ser_string(key_id()) + r1);
    lemma_parse_string_ser(key_id(), r1);
    assert(s.len() > 0 && s[0] == '"');
    lemma_skip_ws_id(s);
    assert(r1[0] == ':');
    lemma_skip_ws_id(r1);
    let r3 = r1.skip(1);
    assert(r3 =~= ser_string(val) + rest);
    lemma_parse_string_ser(val, rest);
    assert(r3.len() > 0 && r3[0] == '"');
    lemma_skip_ws_id(r3);
}

proof fn lemma_member_url(val: Seq<char>, acc: AccView, rest: Seq<char>)
    requires
        acc.url is None,
    ensures
        parse_member(ser_string(key_url()) + seq![':'] + ser_string(val) + rest, acc) == Some(
            (AccView { url: Some(val), ..acc }, rest),
        ),
{
    let s = ser_string(key_url()) + seq![':'] + ser_string(val) + rest;
    let r1 = seq![':'] + ser_string(val) + rest;
    assert(s =~= ser_string(key_url()) + r1);
    lemma_parse_string_ser(key_url(), r1);
    lemma_names_distinct();
    assert(s.len() > 0 && s[0] == '"');
    lemma_skip_ws_id(s);
    assert(r1[0] == ':');
    lemma_skip_ws_id(r1);
    let r3 = r1.skip(1);
    assert(r3 =~= ser_string(val) + rest);
    lemma_parse_string_ser(val, rest);
    assert(r3.len() > 0 && r3[0] == '"');
    lemma_skip_ws_id(r3);
}

/// Parsing an emitted number-valued member stores it in the right field.
/// One lemma per key; the four proofs only differ in the key involved.
proof fn lemma_member_num(key: Seq<char>, val: Seq<char>, acc: AccView, rest: Seq<char>)
    requires
        is_json_number(val),
        rest.len() > 0,
        rest[0] == ',' || rest[0] == '}',
        key == key_x() || key == key_y() || key == key_w() || key == key_h(),
        key == key_x() ==> acc.x is None,
        key == key_y() ==> acc.y is None,
        key == key_w() ==> acc.w is None,
        key == key_h() ==> acc.h is None,
    ensures
        parse_member(ser_string(key) + seq![':'] + val + rest, acc) == Some(
            (
                if key == key_x() {
                    AccView { x: Some(val), ..acc }
                } else if key == key_y() {
                    AccView { y: Some(val), ..acc }
                } else if key == key_w() {
                    AccView { w: Some(val), ..acc }
                } else {
                    AccView { h: Some(val), ..acc }
                },
                rest,
            ),
        ),
{
    let s = ser_string(key) + seq![':'] + val + rest;
    let r1 = seq![':'] + val + rest;
    assert(s =~= ser_string(key) + r1);
    lemma_parse_string_ser(key, r1);
    lemma_names_distinct();
    assert(s.len() > 0 && s[0] == '"');
    lemma_skip_ws_id(s);
    assert(key != key_id() && key != key_url());
    assert(r1[0] == ':');
    lemma_skip_ws_id(r1);
    let r3 = r1.skip(1);
    assert(r3 =~= val + rest);
    // a number literal starts with a minus sign or a digit, never whitespace
    let sg: int = if val.len() > 0 && val[0] == '-' { 1int } else { 0int };
    assert(val.skip(sg).len() > 0 && is_digit(val.skip(sg)[0]));
    assert(val.len() > 0);
    assert(r3[0] == val[0]);
    assert(!is_ws(val[0]));
    lemma_skip_ws_id(r3);
    lemma_parse_number_ser(val, rest);
    assert(parse_number(r3) == Some((val, rest)));
}

/// Parsing an emitted asset object gives back that asset.
#[verifier::rlimit(100)]
proof fn lemma_parse_asset_ser(a: AssetView, rest: Seq<char>)
    requires
        asset_wf(a),
    ensures
        parse_asset(ser_asset(a) + rest) == Some((a, rest)),
        (ser_asset(a) + rest)[0] == '{',
{
    reveal(crate::json::grammar::ser_asset);
    lemma_names_distinct();
    let s = ser_asset(a) + rest;
    assert(s.len() > 0 && s[0] == '{');
    lemma_skip_ws_id(s);
    // the member texts, from the last to the first
    let t6 = seq!['}'] + rest;
    let u6 = ser_string(key_url()) + seq![':'] + ser_string(a.url) + t6;
    let t5 = seq![','] + u6;
    let u5 = ser_string(key_h()) + seq![':'] + a.h + t5;
    let t4 = seq![','] + u5;
    let u4 = ser_string(key_w()) + seq![':'] + a.w + t4;
    let t3 = seq![','] + u4;
    let u3 = ser_string(key_y()) + seq![':'] + a.y + t3;
    let t2 = seq![','] + u3;
    let u2 = ser_string(key_x()) + seq![':'] + a.x + t2;
    let t1 = seq![','] + u2;
    let u1 = ser_string(key_id()) + seq![':'] + ser_string(a.id) + t1;
    assert(s.skip(1) =~= u1);
    let acc0 = acc_empty();
    lemma_member_id(a.id, acc0, t1);
    let acc1 = AccView { id: Some(a.id), ..acc0 };
    assert(parse_members(u1, acc0) == parse_members(u2, acc1)) by {
        assert(t1[0] == ',');
        lemma_skip_ws_id(t1);
        assert(t1.skip(1) =~= u2);
        assert(u1.len() > u2.len());
    }
    lemma_member_num(key_x(), a.x, acc1, t2);
    let acc2 = AccView { x: Some(a.x), ..acc1 };
    assert(parse_members(u2, acc1) == parse_members(u3, acc2)) by {
        assert(t2[0] == ',');
        lemma_skip_ws_id(t2);
        assert(t2.skip(1) =~= u3);
        assert(u2.len() > u3.len());
    }
    lemma_member_num(key_y(), a.y, acc2, t3);
    let acc3 = AccView { y: Some(a.y), ..acc2 };
    assert(parse_members(u3, acc2) == parse_members(u4, acc3)) by {
        assert(t3[0] == ',');
        lemma_skip_ws_id(t3);
        assert(t3.skip(1) =~= u4);
        assert(u3.len() > u4.len());
    }
    lemma_member_num(key_w(), a.w, acc3, t4);
    let acc4 = AccView { w: Some(a.w), ..acc3 };
    assert(parse_members(u4, acc3) == parse_members(u5, acc4)) by {
        assert(t4[0] == ',');
        lemma_skip_ws_id(t4);
        assert(t4.skip(1) =~= u5);
        assert(u4.len() > u5.len());
    }
    lemma_member_num(key_h(), a.h, acc4, t5);
    let acc5 = AccView { h: Some(a.h), ..acc4 };
    assert(parse_members(u5, acc4) == parse_members(u6, acc5)) by {
        assert(t5[0] == ',');
        lemma_skip_ws_id(t5);
        assert(t5.skip(1) =~= u6);
        assert(u5.len() > u6.len());
    }
    lemma_member_url(a.url, acc5, t6);
    let acc6 = AccView { url: Some(a.url), ..acc5 };
    assert(parse_members(u6, acc5) == Some((acc6, rest))) by {
        assert(t6[0] == '}');
        lemma_skip_ws_id(t6);
        assert(t6.skip(1) =~= rest);
    }
    assert(parse_asset(s) == Some(
        (
            AssetView {
                id: a.id,
                x: a.x,
                y: a.y,
                w: a.w,
                h: a.h,
                url: a.url,
            },
            rest,
        ),
    ));
    assert(a == (AssetView { id: a.id, x: a.x, y: a.y, w: a.w, h: a.h, url: a.url }));
}

/// Parsing an emitted nonempty asset list gives back those assets.
proof fn lemma_parse_asset_list_ser(v: Seq<AssetView>, rest: Seq<char>)
    requires
        state_wf(v),
        v.len() >= 1,
    ensures
        parse_asset_list(ser_asset_items(v) + seq![']'] + rest) == Some((v, rest)),
    decreases v.len(),
{
    reveal(crate::json::grammar::ser_asset_items);
    let s = ser_asset_items(v) + seq![']'] + rest;
    if v.len() == 1 {
        let t = seq![']'] + rest;
        assert(s =~= ser_asset(v[0]) + t);
        lemma_parse_asset_ser(v[0], t);
        assert(t[0] == ']');
        lemma_skip_ws_id(t);
        assert(t.skip(1) =~= rest);
        assert(seq![v[0]] =~= v);
    } else {
        let s2 = ser_asset_items(v.skip(1)) + seq![']'] + rest;
        let t = seq![','] + s2;
        assert(ser_asset_items(v) == ser_asset(v[0]) + seq![','] + ser_asset_items(v.skip(1)));
        assert(s =~= ser_asset(v[0]) + t);
        lemma_parse_asset_ser(v[0], t);
        assert(t[0] == ',');
        lemma_skip_ws_id(t);
        assert(t.skip(1) =~= s2);
        assert(state_wf(v.skip(1))) by {
            assert(forall|i: int|
                0 <= i < v.skip(1).len() ==> #[trigger] v.skip(1)[i] == v[i + 1]);
        }
        lemma_parse_asset_list_ser(v.skip(1), rest);
        assert(s.len() > s2.len());
        assert(seq![v[0]] + v.skip(1) =~= v);
    }
}

/// Parsing an emitted asset array gives back those assets.
proof fn lemma_parse_assets_ser(v: Seq<AssetView>, rest: Seq<char>)
    requires
        state_wf(v),
    ensures
        parse_assets(ser_assets(v) + rest) == Some((v, rest)),
        (ser_assets(v) + rest)[0] == '[',
{
    reveal(crate::json::grammar::ser_assets);
    reveal(crate::json::grammar::ser_asset_items);
    let s = ser_assets(v) + rest;
    assert(s.len() > 0 && s[0] == '[');
    lemma_skip_ws_id(s);
    if v.len() == 0 {
        assert(ser_asset_items(v) == Seq::<char>::empty());
        assert(s.skip(1) =~= seq![']'] + rest);
        assert(s.skip(1)[0] == ']');
        lemma_skip_ws_id(s.skip(1));
        assert(s.skip(1).skip(1) =~= rest);
        assert(Seq::<AssetView>::empty() =~= v);
    } else {
        assert(s.skip(1) =~= ser_asset_items(v) + seq![']'] + rest);
        lemma_parse_asset_list_ser(v, rest);
        let inner = ser_asset_items(v) + seq![']'] + rest;
        reveal(crate::json::grammar::ser_asset_items);
        if v.len() == 1 {
            let t = seq![']'] + rest;
            assert(inner =~= ser_asset(v[0]) + t);
            lemma_parse_asset_ser(v[0], t);
            assert(inner[0] == '{');
        } else {
            let t = seq![','] + (ser_asset_items(v.skip(1)) + seq![']'] + rest);
            assert(inner =~= ser_asset(v[0]) + t);
            lemma_parse_asset_ser(v[0], t);
            assert(inner[0] == '{');
        }
        lemma_skip_ws_id(inner);
    }
}

// ---------------------------------------------------------------------
// Snapshots and delta frames
// ---------------------------------------------------------------------
/// Parsing an emitted snapshot object gives back the state.
proof fn lemma_parse_state_ser(v: Seq<AssetView>, rest: Seq<char>)
    requires
        state_wf(v),
    ensures
        parse_state(ser_state(v) + rest) == Some((v, rest)),
        (ser_state(v) + rest)[0] == '{',
{
    reveal(crate::json::grammar::ser_state);
    let s = ser_state(v) + rest;
    assert(s.len() > 0 && s[0] == '{');
    lemma_skip_ws_id(s);
    let r1 = seq![':'] + ser_assets(v) + seq!['}'] + rest;
    assert(s.skip(1) =~= ser_string(key_assets()) + r1);
    lemma_parse_string_ser(key_assets(), r1);
    lemma_skip_ws_id(s.skip(1));
    assert(r1[0] == ':');
    lemma_skip_ws_id(r1);
    let r2 = r1.skip(1);
    let close = seq!['}'] + rest;
    assert(r2 =~= ser_assets(v) + close);
    lemma_parse_assets_ser(v, close);
    assert(close[0] == '}');
    lemma_skip_ws_id(close);
    assert(close.skip(1) =~= rest);
}

/// Parsing an emitted `New` frame body gives back the message.
proof fn lemma_parse_message_ser_new(v: Seq<AssetView>, rest: Seq<char>)
    requires
        state_wf(v),
        rest.len() == 0,
    ensures
        parse_message_body(ser_message(MessageView::New(v)) + rest) == Some(
            (MessageView::New(v), rest),
        ),
{
    reveal(crate::json::grammar::ser_message);
    lemma_names_distinct();
    let s = ser_message(MessageView::New(v)) + rest;
    assert(s.len() > 0 && s[0] == '{');
    lemma_skip_ws_id(s);
    let r1 = seq![':'] + ser_state(v) + seq!['}'] + rest;
    assert(s.skip(1) =~= ser_string(tag_new()) + r1);
    lemma_parse_string_ser(tag_new(), r1);
    lemma_skip_ws_id(s.skip(1));
    assert(r1[0] == ':');
    lemma_skip_ws_id(r1);
    let close = seq!['}'] + rest;
    assert(r1.skip(1) =~= ser_state(v) + close);
    lemma_parse_state_ser(v, close);
    assert(close[0] == '}');
    lemma_skip_ws_id(close);
    assert(close.skip(1) =~= rest);
}

/// Parsing an emitted `Update` frame body gives back the message.
proof fn lemma_parse_message_ser_update(a: AssetView, rest: Seq<char>)
    requires
        asset_wf(a),
        rest.len() == 0,
    ensures
        parse_message_body(ser_message(MessageView::Update(a)) + rest) == Some(
            (MessageView::Update(a), rest),
        ),
{
    reveal(crate::json::grammar::ser_message);
    lemma_names_distinct();
    let s = ser_message(MessageView::Update(a)) + rest;
    assert(s.len() > 0 && s[0] == '{');
    lemma_skip_ws_id(s);
    let r1 = seq![':'] + ser_asset(a) + seq!['}'] + rest;
    assert(s.skip(1) =~= ser_string(tag_update()) + r1);
    lemma_parse_string_ser(tag_update(), r1);
    lemma_skip_ws_id(s.skip(1));
    assert(r1[0] == ':');
    lemma_skip_ws_id(r1);
    let close = seq!['}'] + rest;
    assert(r1.skip(1) =~= ser_asset(a) + close);
    lemma_parse_asset_ser(a, close);
    assert(close[0] == '}');
    lemma_skip_ws_id(close);
    assert(close.skip(1) =~= rest);
}

/// Parsing an emitted `Delete` frame body gives back the message.
proof fn lemma_parse_message_ser_delete(id: Seq<char>, rest: Seq<char>)
    requires
        rest.len() == 0,
    ensures
        parse_message_body(ser_message(MessageView::Delete(id)) + rest) == Some(
            (MessageView::Delete(id), rest),
        ),
{
    reveal(crate::json::grammar::ser_message);
    lemma_names_distinct();
    let s = ser_message(MessageView::Delete(id)) + rest;
    assert(s.len() > 0 && s[0] == '{');
    lemma_skip_ws_id(s);
    let r1 = seq![':'] + ser_string(id) + seq!['}'] + rest;
    assert(s.skip(1) =~= ser_string(tag_delete()) + r1);
    lemma_parse_string_ser(tag_delete(), r1);
    lemma_skip_ws_id(s.skip(1));
    assert(r1[0] == ':');
    lemma_skip_ws_id(r1);
    let close = seq!['}'] + rest;
    assert(r1.skip(1) =~= ser_string(id) + close);
    lemma_parse_string_ser(id, close);
    assert(r1.skip(1)[0] == '"');
    lemma_skip_ws_id(r1.skip(1));
    assert(close[0] == '}');
    lemma_skip_ws_id(close);
    assert(close.skip(1) =~= rest);
}

/// For every well-formed state, parsing its serialized snapshot gives
/// back exactly that state: a reader's first payload after the writer's
/// `New(s)` denotes `s` itself.
pub proof fn lemma_state_round_trip(v: Seq<AssetView>)
    requires
        state_wf(v),
    ensures
        parse_state_text(ser_state(v)) == Some(v),
{
    let empty = Seq::<char>::empty();
    assert(ser_state(v) + empty =~= ser_state(v));
    lemma_parse_state_ser(v, empty);
    assert(skip_ws(empty).len() == 0);
}

/// For every well-formed delta message, parsing its serialized frame
/// gives back exactly that message.
pub proof fn lemma_message_round_trip(m: MessageView)
    requires
        crate::model::message_wf(m),
    ensures
        parse_message_text(ser_message(m)) == Some(m),
{
    let empty = Seq::<char>::empty();
    assert(ser_message(m) + empty =~= ser_message(m));
    match m {
        MessageView::New(v) => lemma_parse_message_ser_new(v, empty),
        MessageView::Update(a) => lemma_parse_message_ser_update(a, empty),
        MessageView::Delete(id) => lemma_parse_message_ser_delete(id, empty),
    }
    assert(skip_ws(empty).len() == 0);
}


// ---------------------------------------------------------------------
// Parsed values are well-formed
// ---------------------------------------------------------------------
/// Truncating after the leading digits keeps their count.
proof fn lemma_digit_count_take(a: Seq<char>, k: int)
    requires
        digit_count(a) <= k <= a.len(),
    ensures
        digit_count(a.take(k)) == digit_count(a),
    decreases a.len(),
{
    lemma_digit_count_nonneg(a);
    if a.len() == 0 || k == 0 {
        assert(a.take(k) =~= Seq::<char>::empty());
    } else if is_digit(a[0]) {
        assert(a.take(k)[0] == a[0]);
        assert(a.take(k).skip(1) =~= a.skip(1).take(k - 1));
        lemma_digit_count_nonneg(a.skip(1));
        lemma_digit_count_take(a.skip(1), k - 1);
    } else {
        assert(a.take(k)[0] == a[0]);
    }
}

/// Truncating after the fraction part keeps its length.
proof fn lemma_frac_len_take(a: Seq<char>, k: int)
    requires
        frac_len(a) <= k <= a.len(),
    ensures
        frac_len(a.take(k)) == frac_len(a),
{
    if a.len() == 0 || k == 0 {
        assert(a.take(k) =~= Seq::<char>::empty());
        if a.len() > 0 && a[0] == '.' {
            lemma_digit_count_nonneg(a.skip(1));
        }
    } else {
        assert(a.take(k)[0] == a[0]);
        if a[0] == '.' {
            assert(a.take(k).skip(1) =~= a.skip(1).take(k - 1));
            lemma_digit_count_nonneg(a.skip(1));
            lemma_digit_count_take(a.skip(1), k - 1);
        }
    }
}

/// Truncating after the exponent part keeps its length.
proof fn lemma_exp_len_take(a: Seq<char>, k: int)
    requires
        exp_len(a) <= k <= a.len(),
    ensures
        exp_len(a.take(k)) == exp_len(a),
{
    if a.len() == 0 || k == 0 {
        assert(a.take(k) =~= Seq::<char>::empty());
        if a.len() > 0 && (a[0] == 'e' || a[0] == 'E') {
            let sg: int = if a.len() > 1 && (a[1] == '+' || a[1] == '-') { 1int } else { 0int };
            lemma_digit_count_nonneg(a.skip(1 + sg));
        }
    } else {
        let t = a.take(k);
        assert(t[0] == a[0]);
        if a[0] == 'e' || a[0] == 'E' {
            let sg: int = if a.len() > 1 && (a[1] == '+' || a[1] == '-') { 1int } else { 0int };
            let d = digit_count(a.skip(1 + sg));
            lemma_digit_count_nonneg(a.skip(1 + sg));
            if k == 1 {
                // the truncation holds the marker alone; both sides are zero
                assert(t.len() == 1);
                assert(t.skip(1) =~= Seq::<char>::empty());
                assert(exp_len(t) == 0);
                assert(exp_len(a) == 0 || exp_len(a) == 1 + sg + d);
                assert(exp_len(a) <= k);
                assert(exp_len(a) == 0);
            } else {
                assert(t.len() > 1 ==> t[1] == a[1]);
                let sgt: int = if t.len() > 1 && (t[1] == '+' || t[1] == '-') { 1int } else { 0int };
                assert(sgt == sg);
                assert(t.skip(1 + sg) =~= a.skip(1 + sg).take(k - 1 - sg));
                if d > 0 {
                    // the whole exponent fits inside the truncation
                    assert(1 + sg + d <= k);
                }
                lemma_digit_count_take(a.skip(1 + sg), k - 1 - sg);
            }
        }
    }
}

/// A lexeme the number parser hands out is itself a complete number
/// literal.
pub proof fn lemma_parse_number_wf(s: Seq<char>)
    requires
        parse_number(s) is Some,
    ensures
        is_json_number((parse_number(s)->0).0),
{
    let sg: int = if s.len() > 0 && s[0] == '-' { 1int } else { 0int };
    let t1 = s.skip(sg);
    let ip: int = if t1[0] == '0' { 1int } else { digit_count(t1) };
    let fp = frac_len(t1.skip(ip));
    let ep = exp_len(t1.skip(ip + fp));
    let total = sg + ip + fp + ep;
    lemma_number_parts_le(t1);
    assert(ip >= 1) by {
        if t1[0] != '0' {
            lemma_digit_count_nonneg(t1.skip(1));
        }
    }
    lemma_number_parts_le(t1.skip(ip));
    lemma_number_parts_le(t1.skip(ip + fp));
    assert(total <= s.len());
    let lex = s.take(total);
    assert((parse_number(s)->0).0 == lex);
    // the same scan on the lexeme alone finds the same boundaries
    assert(lex.len() == total);
    assert(lex[0] == s[0]);
    let l1 = lex.skip(sg);
    assert(l1 =~= t1.take(ip + fp + ep));
    assert(l1[0] == t1[0] && is_digit(l1[0]));
    let ip2: int = if l1[0] == '0' { 1int } else { digit_count(l1) };
    assert(ip2 == ip) by {
        if t1[0] != '0' {
            lemma_digit_count_take(t1, ip + fp + ep);
        }
    }
    assert(l1.skip(ip) =~= t1.skip(ip).take(fp + ep));
    assert(frac_len(l1.skip(ip)) == fp) by {
        lemma_frac_len_take(t1.skip(ip), fp + ep);
    }
    assert(l1.skip(ip + fp) =~= t1.skip(ip + fp).take(ep));
    assert(exp_len(l1.skip(ip + fp)) == ep) by {
        lemma_exp_len_take(t1.skip(ip + fp), ep);
    }
    assert(lex.take(total) =~= lex);
    assert(lex.skip(total) =~= Seq::<char>::empty());
    assert(parse_number(lex) == Some((lex, Seq::<char>::empty())));
}


/// The number-valued fields collected so far are well-formed literals.
spec fn acc_wf(acc: AccView) -> bool {
    &&& (acc.x is Some ==> is_json_number(acc.x->0))
    &&& (acc.y is Some ==> is_json_number(acc.y->0))
    &&& (acc.w is Some ==> is_json_number(acc.w->0))
    &&& (acc.h is Some ==> is_json_number(acc.h->0))
}

/// One parsed member keeps the collected fields well-formed.
proof fn lemma_member_wf(s: Seq<char>, acc: AccView)
    requires
        acc_wf(acc),
        parse_member(s, acc) is Some,
    ensures
        acc_wf((parse_member(s, acc)->0).0),
{
    if parse_string(skip_ws(s)) is Some {
        let r1 = (parse_string(skip_ws(s))->0).1;
        let r2 = skip_ws(r1);
        if r2.len() > 0 && r2[0] == ':' {
            let r3 = skip_ws(r2.skip(1));
            if parse_number(r3) is Some {
                lemma_parse_number_wf(r3);
            }
        }
    }
}

/// A whole parsed member list keeps the collected fields well-formed.
proof fn lemma_members_wf(s: Seq<char>, acc: AccView)
    requires
        acc_wf(acc),
        parse_members(s, acc) is Some,
    ensures
        acc_wf((parse_members(s, acc)->0).0),
    decreases s.len(),
{
    lemma_member_wf(s, acc);
    let acc2 = (parse_member(s, acc)->0).0;
    let r1 = (parse_member(s, acc)->0).1;
    let r2 = skip_ws(r1);
    if r2.len() > 0 && r2[0] == ',' && r2.skip(1).len() < s.len() {
        lemma_members_wf(r2.skip(1), acc2);
    }
}

/// A parsed asset is well-formed.
pub proof fn lemma_parse_asset_wf(s: Seq<char>)
    requires
        parse_asset(s) is Some,
    ensures
        asset_wf((parse_asset(s)->0).0),
{
    let s1 = skip_ws(s);
    lemma_members_wf(s1.skip(1), acc_empty());
}

/// A parsed asset list is well-formed throughout.
proof fn lemma_parse_asset_list_wf(s: Seq<char>)
    requires
        parse_asset_list(s) is Some,
    ensures
        state_wf((parse_asset_list(s)->0).0),
    decreases s.len(),
{
    lemma_parse_asset_wf(s);
    let a = (parse_asset(s)->0).0;
    let r1 = (parse_asset(s)->0).1;
    let r2 = skip_ws(r1);
    if r2.len() > 0 && r2[0] == ',' && r2.skip(1).len() < s.len() {
        lemma_parse_asset_list_wf(r2.skip(1));
        let v = (parse_asset_list(r2.skip(1))->0).0;
        assert(forall|i: int|
            0 <= i < (seq![a] + v).len() ==> asset_wf(#[trigger] (seq![a] + v)[i]));
    } else {
        assert(forall|i: int| 0 <= i < seq![a].len() ==> asset_wf(#[trigger] seq![a][i]));
    }
}

/// A parsed asset array is well-formed throughout.
proof fn lemma_parse_assets_wf(s: Seq<char>)
    requires
        parse_assets(s) is Some,
    ensures
        state_wf((parse_assets(s)->0).0),
{
    let s1 = skip_ws(s);
    let s2 = skip_ws(s1.skip(1));
    if s2.len() > 0 && s2[0] == ']' {
    } else {
        lemma_parse_asset_list_wf(s1.skip(1));
    }
}

/// A parsed snapshot is a well-formed state.
pub proof fn lemma_parse_state_wf(s: Seq<char>)
    requires
        parse_state(s) is Some,
    ensures
        state_wf((parse_state(s)->0).0),
{
    let s1 = skip_ws(s);
    let key = (parse_string(skip_ws(s1.skip(1)))->0).0;
    let r1 = (parse_string(skip_ws(s1.skip(1)))->0).1;
    let r2 = skip_ws(r1);
    lemma_parse_assets_wf(r2.skip(1));
}

/// A parsed delta frame carries only well-formed payloads: whatever text
/// a writer submits, the delta the engine reconciles with is
/// well-formed.
pub proof fn lemma_parse_message_wf(s: Seq<char>)
    requires
        parse_message_text(s) is Some,
    ensures
        crate::model::message_wf(parse_message_text(s)->0),
{
    let s1 = skip_ws(s);
    let tag = (parse_string(skip_ws(s1.skip(1)))->0).0;
    let r1 = (parse_string(skip_ws(s1.skip(1)))->0).1;
    let r2 = skip_ws(r1);
    if tag == tag_new() {
        lemma_parse_state_wf(r2.skip(1));
    } else if tag == tag_update() {
        lemma_parse_asset_wf(r2.skip(1));
    }
}

} // verus!
