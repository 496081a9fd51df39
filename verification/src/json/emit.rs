//! The executable wire serializer, verified against the serialization
//! functions of [`crate::json::grammar`].
//!
//! Output is accumulated as a `Vec<char>`; the public functions hand back
//! a `String` whose characters are exactly what the grammar prescribes.

use vstd::prelude::*;

verus! {

use crate::json::grammar;
use crate::model::{ImgfloatAsset, ImgfloatAssetStateMessage, ImgfloatState};
use crate::text::{chars_vec, string_from_chars};

/// Escaping one more character extends the escaped text by that
/// character's escape.
proof fn lemma_esc_push(t: Seq<char>, c: char)
    ensures
        grammar::esc(t.push(c)) == grammar::esc(t) + grammar::esc_char(c),
    decreases t.len(),
{
    if t.len() == 0 {
        assert(t.push(c)[0] == c);
        assert(t.push(c).skip(1) =~= Seq::<char>::empty());
        assert(grammar::esc(Seq::<char>::empty()) == Seq::<char>::empty());
        assert(grammar::esc(t.push(c)) == grammar::esc_char(c) + grammar::esc(
            t.push(c).skip(1),
        ));
        assert(grammar::esc_char(c) + Seq::<char>::empty() =~= grammar::esc_char(c));
        assert(grammar::esc(t) == Seq::<char>::empty());
        assert(grammar::esc(t) + grammar::esc_char(c) =~= grammar::esc_char(c));
    } else {
        assert(t.push(c).skip(1) =~= t.skip(1).push(c));
        lemma_esc_push(t.skip(1), c);
        assert(t.push(c)[0] == t[0]);
        assert(grammar::esc(t.push(c)) == grammar::esc_char(t[0]) + (grammar::esc(t.skip(1))
            + grammar::esc_char(c)));
        assert(grammar::esc_char(t[0]) + (grammar::esc(t.skip(1)) + grammar::esc_char(c)) =~= (
        grammar::esc_char(t[0]) + grammar::esc(t.skip(1))) + grammar::esc_char(c));
    }
}

/// The lower-case hexadecimal digit character for `n`.
fn hex_digit_char(n: u32) -> (c: char)
    requires
        n < 16,
    ensures
        c == grammar::hex_digit(n as int),
{
    if n < 10 {
        (('0' as u8) + (n as u8)) as char
    } else {
        (('a' as u8) + ((n - 10) as u8)) as char
    }
}

/// Append one character's in-string form to the output.
fn emit_escaped_char(out: &mut Vec<char>, c: char)
    ensures
        final(out)@ == old(out)@ + grammar::esc_char(c),
{
    let ghost o0 = out@;
    if c == '"' {
        out.push('\\');
        out.push('"');
    } else if c == '\\' {
        out.push('\\');
        out.push('\\');
    } else if c == '\u{8}' {
        out.push('\\');
        out.push('b');
    } else if c == '\u{c}' {
        out.push('\\');
        out.push('f');
    } else if c == '\n' {
        out.push('\\');
        out.push('n');
    } else if c == '\r' {
        out.push('\\');
        out.push('r');
    } else if c == '\t' {
        out.push('\\');
        out.push('t');
    } else if (c as u32) < 0x20 {
        let u = c as u32;
        out.push('\\');
        out.push('u');
        out.push('0');
        out.push('0');
        out.push(hex_digit_char(u / 16));
        out.push(hex_digit_char(u % 16));
    } else {
        out.push(c);
    }
    proof {
        assert(out@ =~= o0 + grammar::esc_char(c));
    }
}

/// Append a serialized string literal to the output.
fn emit_string(out: &mut Vec<char>, t: &str)
    ensures
        final(out)@ == old(out)@ + grammar::ser_string(t@),
{
    let ghost o0 = out@;
    let cs = chars_vec(t);
    out.push('"');
    let mut i: usize = 0;
    while i < cs.len()
        invariant
            i <= cs@.len(),
            cs@ == t@,
            out@ == o0 + seq!['"'] + grammar::esc(t@.subrange(0, i as int)),
        decreases cs@.len() - i,
    {
        emit_escaped_char(out, cs[i]);
        proof {
            assert(t@.subrange(0, i as int).push(t@[i as int]) =~= t@.subrange(0, i as int + 1));
            lemma_esc_push(t@.subrange(0, i as int), t@[i as int]);
        }
        i = i + 1;
    }
    proof {
        assert(t@.subrange(0, t@.len() as int) =~= t@);
    }
    out.push('"');
    proof {
        reveal(crate::json::grammar::ser_string);
        assert(out@ =~= o0 + grammar::ser_string(t@));
    }
}

/// Append text verbatim to the output.
fn emit_verbatim(out: &mut Vec<char>, t: &str)
    ensures
        final(out)@ == old(out)@ + t@,
{
    let ghost o0 = out@;
    let cs = chars_vec(t);
    let mut i: usize = 0;
    while i < cs.len()
        invariant
            i <= cs@.len(),
            cs@ == t@,
            out@ == o0 + t@.subrange(0, i as int),
        decreases cs@.len() - i,
    {
        out.push(cs[i]);
        proof {
            assert(o0 + t@.subrange(0, i as int + 1) =~= (o0 + t@.subrange(0, i as int)).push(
                t@[i as int],
            ));
        }
        i = i + 1;
    }
    proof {
        assert(t@.subrange(0, t@.len() as int) =~= t@);
    }
}

/// Append a serialized asset object to the output.
#[verifier::rlimit(100)]
fn emit_asset(out: &mut Vec<char>, a: &ImgfloatAsset)
    ensures
        final(out)@ == old(out)@ + grammar::ser_asset(a@),
{
    let ghost o0 = out@;
    proof {
        reveal_strlit("id");
        reveal_strlit("x");
        reveal_strlit("y");
        reveal_strlit("w");
        reveal_strlit("h");
        reveal_strlit("url");
        assert("id"@ =~= grammar::key_id());
        assert("x"@ =~= grammar::key_x());
        assert("y"@ =~= grammar::key_y());
        assert("w"@ =~= grammar::key_w());
        assert("h"@ =~= grammar::key_h());
        assert("url"@ =~= grammar::key_url());
    }
    out.push('{');
    emit_string(out, "id");
    out.push(':');
    emit_string(out, a.id.as_str());
    out.push(',');
    emit_string(out, "x");
    out.push(':');
    emit_verbatim(out, a.x.as_str());
    out.push(',');
    emit_string(out, "y");
    out.push(':');
    emit_verbatim(out, a.y.as_str());
    out.push(',');
    emit_string(out, "w");
    out.push(':');
    emit_verbatim(out, a.w.as_str());
    out.push(',');
    emit_string(out, "h");
    out.push(':');
    emit_verbatim(out, a.h.as_str());
    out.push(',');
    emit_string(out, "url");
    out.push(':');
    emit_string(out, a.url.as_str());
    out.push('}');
    proof {
        reveal(crate::json::grammar::ser_asset);
        assert(out@ =~= o0 + grammar::ser_asset(a@));
    }
}

/// Serializing one more asset extends the array items by a comma (when
/// the array was not empty) and that asset's object.
proof fn lemma_ser_items_push(v: Seq<crate::model::AssetView>, a: crate::model::AssetView)
    ensures
        grammar::ser_asset_items(v.push(a)) == if v.len() == 0 {
            grammar::ser_asset(a)
        } else {
            grammar::ser_asset_items(v) + seq![','] + grammar::ser_asset(a)
        },
    decreases v.len(),
{
    reveal(crate::json::grammar::ser_asset_items);
    if v.len() == 0 {
        assert(v.push(a)[0] == a);
        assert(grammar::ser_asset_items(v.push(a)) == grammar::ser_asset(a));
    } else {
        assert(v.push(a).skip(1) =~= v.skip(1).push(a));
        lemma_ser_items_push(v.skip(1), a);
        assert(v.push(a)[0] == v[0]);
        if v.len() == 1 {
            assert(v.skip(1).len() == 0);
            assert(grammar::ser_asset_items(v.push(a)) == grammar::ser_asset(v[0]) + seq![',']
                + grammar::ser_asset(a));
            assert(grammar::ser_asset_items(v) == grammar::ser_asset(v[0]));
        } else {
            assert(grammar::ser_asset_items(v.push(a)) == grammar::ser_asset(v[0]) + seq![',']
                + (grammar::ser_asset_items(v.skip(1)) + seq![','] + grammar::ser_asset(a)));
            assert(grammar::ser_asset_items(v) == grammar::ser_asset(v[0]) + seq![',']
                + grammar::ser_asset_items(v.skip(1)));
            assert(grammar::ser_asset(v[0]) + seq![','] + (grammar::ser_asset_items(v.skip(1))
                + seq![','] + grammar::ser_asset(a)) =~= (grammar::ser_asset(v[0]) + seq![',']
                + grammar::ser_asset_items(v.skip(1))) + seq![','] + grammar::ser_asset(a));
        }
    }
}

/// Append a serialized asset array to the output.
fn emit_assets(out: &mut Vec<char>, assets: &Vec<ImgfloatAsset>)
    ensures
        final(out)@ == old(out)@ + grammar::ser_assets(
            Seq::new(assets@.len(), |k: int| assets@[k]@),
        ),
{
    let ghost o0 = out@;
    let ghost va = Seq::new(assets@.len(), |k: int| assets@[k]@);
    proof {
        reveal(crate::json::grammar::ser_asset_items);
    }
    out.push('[');
    let mut i: usize = 0;
    while i < assets.len()
        invariant
            i <= assets@.len(),
            va == Seq::new(assets@.len(), |k: int| assets@[k]@),
            out@ == o0 + seq!['['] + grammar::ser_asset_items(va.subrange(0, i as int)),
        decreases assets@.len() - i,
    {
        if i > 0 {
            out.push(',');
        }
        emit_asset(out, &assets[i]);
        proof {
            reveal(crate::json::grammar::ser_asset_items);
            assert(va.subrange(0, i as int).push(va[i as int]) =~= va.subrange(0, i as int + 1));
            lemma_ser_items_push(va.subrange(0, i as int), va[i as int]);
            if i > 0 {
                assert(va.subrange(0, i as int).len() > 0);
            }
            assert(out@ =~= o0 + seq!['['] + grammar::ser_asset_items(
                va.subrange(0, i as int + 1),
            ));
        }
        i = i + 1;
    }
    proof {
        assert(va.subrange(0, va.len() as int) =~= va);
    }
    out.push(']');
    proof {
        reveal(crate::json::grammar::ser_assets);
        reveal(crate::json::grammar::ser_asset_items);
        assert(out@ =~= o0 + grammar::ser_assets(va));
    }
}

/// The serialized untagged snapshot object for a state.
pub fn state_json(s: &ImgfloatState) -> (r: String)
    ensures
        r@ == grammar::ser_state(s@),
{
    let mut out: Vec<char> = Vec::new();
    proof {
        reveal_strlit("assets");
        assert("assets"@ =~= grammar::key_assets());
    }
    out.push('{');
    emit_string(&mut out, "assets");
    out.push(':');
    emit_assets(&mut out, &s.assets);
    out.push('}');
    proof {
        reveal(crate::json::grammar::ser_state);
        assert(Seq::new(s.assets@.len(), |k: int| s.assets@[k]@) =~= s@);
        assert(out@ =~= grammar::ser_state(s@));
    }
    string_from_chars(&out)
}

/// The serialized tagged wire frame for a delta message.
pub fn message_json(m: &ImgfloatAssetStateMessage) -> (r: String)
    ensures
        r@ == grammar::ser_message(m@),
{
    let mut out: Vec<char> = Vec::new();
    out.push('{');
    match m {
        ImgfloatAssetStateMessage::New(s) => {
            proof {
                reveal_strlit("New");
                assert("New"@ =~= grammar::tag_new());
            }
            emit_string(&mut out, "New");
            out.push(':');
            let body = state_json(s);
            emit_verbatim(&mut out, body.as_str());
        },
        ImgfloatAssetStateMessage::Update(a) => {
            proof {
                reveal_strlit("Update");
                assert("Update"@ =~= grammar::tag_update());
            }
            emit_string(&mut out, "Update");
            out.push(':');
            emit_asset(&mut out, a);
        },
        ImgfloatAssetStateMessage::Delete(id) => {
            proof {
                reveal_strlit("Delete");
                assert("Delete"@ =~= grammar::tag_delete());
            }
            emit_string(&mut out, "Delete");
            out.push(':');
            emit_string(&mut out, id.as_str());
        },
    }
    out.push('}');
    proof {
        reveal(crate::json::grammar::ser_message);
        assert(out@ =~= grammar::ser_message(m@));
    }
    string_from_chars(&out)
}

} // verus!
