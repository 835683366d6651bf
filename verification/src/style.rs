//! draw.io style strings: `key=value` tokens separated by `;`.
use vstd::prelude::*;
use vstd::string::*;

use crate::text::{occurs_at, find, find_from, find_chars, find_chars_from, from_chars, lemma_find_from, push_all, slice_of, to_chars};

verus! {

/// The text `key=` that introduces a token.
pub open spec fn token_prefix(key: Seq<char>) -> Seq<char> {
    key + seq!['=']
}

/// Where the value that starts at `after` ends: at the next `;`, or at the
/// end of the style.
pub open spec fn value_end(style: Seq<char>, after: int) -> int {
    match find_from(style, seq![';'], after) {
        Some(e) => e,
        None => style.len() as int,
    }
}

/// `style` with `key=value;` appended, inserting a `;` separator first when
/// the style does not already end with one.
pub open spec fn append_token(style: Seq<char>, key: Seq<char>, value: Seq<char>) -> Seq<char> {
    if style.len() > 0 && style.last() == ';' {
        style + key + seq!['='] + value + seq![';']
    } else {
        style + seq![';'] + key + seq!['='] + value + seq![';']
    }
}

/// The style with the value of the first `key=` token replaced by `value`,
/// or with `key=value;` appended when the style has no such token.
pub open spec fn patched_style(style: Seq<char>, key: Seq<char>, value: Seq<char>) -> Seq<char> {
    match find(style, token_prefix(key)) {
        Some(start) => {
            let after = start + key.len() + 1;
            style.take(after) + value + style.skip(value_end(style, after))
        },
        None => append_token(style, key, value),
    }
}

/// Character-vector form of [`patch_style_token`].
pub fn patch_token_chars(style: &Vec<char>, key: &Vec<char>, value: &Vec<char>) -> (r: Vec<char>)
    ensures
        r@ == patched_style(style@, key@, value@),
{
    let mut token = key.clone();
    token.push('=');
    assert(token@ == token_prefix(key@));
    let semi = vec![';'];
    assert(semi@ =~= seq![';']);
    let slen = style.len();
    match find_chars(style, &token) {
        Some(start) => {
            proof {
                lemma_find_from(style@, token@, 0);
                assert(find_from(style@, token@, 0) == Some(start as int));
                assert(occurs_at(style@, token@, start as int));
            }
            let after = start + token.len();
            let end = match find_chars_from(style, &semi, after) {
                Some(i) => {
                    proof { lemma_find_from(style@, semi@, after as int); }
                    i
                },
                None => style.len(),
            };
            let mut out = slice_of(style, 0, after);
            push_all(&mut out, value);
            let rest = slice_of(style, end, style.len());
            push_all(&mut out, &rest);
            assert(style@.take(after as int) == style@.subrange(0, after as int));
            assert(style@.skip(end as int) == style@.subrange(end as int, style@.len() as int));
            out
        },
        None => {
            let mut out = style.clone();
            assert(out@ =~= style@);
            if !(style.len() > 0 && style[style.len() - 1] == ';') {
                out.push(';');
            }
            push_all(&mut out, key);
            out.push('=');
            push_all(&mut out, value);
            out.push(';');
            proof {
                if style@.len() > 0 && style@.last() == ';' {
                    assert(out@ =~= style@ + key@ + seq!['='] + value@ + seq![';']);
                } else {
                    assert(out@ =~= style@ + seq![';'] + key@ + seq!['='] + value@ + seq![';']);
                }
            }
            out
        },
    }
}

/// Replace (or append) a `key=value` token inside a draw.io style string.
/// If the token already exists its value is replaced; otherwise it is appended.
pub fn patch_style_token(style: &str, key: &str, value: &str) -> (r: String)
    ensures
        r@ == patched_style(style@, key@, value@),
{
    let s = to_chars(style);
    let k = to_chars(key);
    let v = to_chars(value);
    let out = patch_token_chars(&s, &k, &v);
    from_chars(&out)
}

/// The style with a colour token (`fillColor=` or `strokeColor=`) replaced by
/// `color` in two branches: the tail after the next `;` is kept, and nothing
/// is kept when the value runs to the end.
fn patch_color_token(style: &Vec<char>, token: &Vec<char>, key: &Vec<char>, color: &Vec<char>) -> (r: Vec<char>)
    requires
        token@ == token_prefix(key@),
    ensures
        r@ == patched_style(style@, key@, color@),
{
    let semi = vec![';'];
    assert(semi@ =~= seq![';']);
    let slen = style.len();
    if let Some(start) = find_chars(style, token) {
        proof { lemma_find_from(style@, token@, 0); }
        let after = start + token.len();
        if let Some(semi_at) = find_chars_from(style, &semi, after) {
            proof { lemma_find_from(style@, semi@, after as int); }
            let mut out = slice_of(style, 0, after);
            push_all(&mut out, color);
            let rest = slice_of(style, semi_at, style.len());
            push_all(&mut out, &rest);
            assert(style@.take(after as int) == style@.subrange(0, after as int));
            assert(style@.skip(semi_at as int) == style@.subrange(semi_at as int, style@.len() as int));
            out
        } else {
            let mut out = slice_of(style, 0, after);
            push_all(&mut out, color);
            assert(style@.take(after as int) == style@.subrange(0, after as int));
            assert(style@.skip(style@.len() as int) =~= Seq::<char>::empty());
            assert(out@ =~= out@ + Seq::<char>::empty());
            out
        }
    } else {
        let mut out = style.clone();
        assert(out@ =~= style@);
        if style.len() > 0 && style[style.len() - 1] == ';' {
            push_all(&mut out, key);
            out.push('=');
            push_all(&mut out, color);
            out.push(';');
            assert(out@ =~= style@ + key@ + seq!['='] + color@ + seq![';']);
        } else {
            out.push(';');
            push_all(&mut out, key);
            out.push('=');
            push_all(&mut out, color);
            out.push(';');
            assert(out@ =~= style@ + seq![';'] + key@ + seq!['='] + color@ + seq![';']);
        }
        out
    }
}

/// Character-vector form of [`patch_fill_color`].
pub fn fill_color_chars(style: &Vec<char>, color: &Vec<char>) -> (r: Vec<char>)
    ensures
        r@ == patched_style(style@, "fillColor"@, color@),
{
    let key = to_chars("fillColor");
    let token = to_chars("fillColor=");
    proof {
        reveal_strlit("fillColor");
        reveal_strlit("fillColor=");
        assert(token@ =~= token_prefix(key@));
    }
    patch_color_token(style, &token, &key, color)
}

/// Character-vector form of [`patch_stroke_color`].
pub fn stroke_color_chars(style: &Vec<char>, color: &Vec<char>) -> (r: Vec<char>)
    ensures
        r@ == patched_style(style@, "strokeColor"@, color@),
{
    let key = to_chars("strokeColor");
    let token = to_chars("strokeColor=");
    proof {
        reveal_strlit("strokeColor");
        reveal_strlit("strokeColor=");
        assert(token@ =~= token_prefix(key@));
    }
    patch_color_token(style, &token, &key, color)
}

/// Replace (or append) the `fillColor` token inside a draw.io style string.
/// The result is exactly the generic token patch on the key `fillColor`.
pub fn patch_fill_color(style: &str, color: &str) -> (r: String)
    ensures
        r@ == patched_style(style@, "fillColor"@, color@),
{
    let s = to_chars(style);
    let c = to_chars(color);
    from_chars(&fill_color_chars(&s, &c))
}

/// Replace (or append) the `strokeColor` token inside a draw.io style string.
/// The result is exactly the generic token patch on the key `strokeColor`.
pub fn patch_stroke_color(style: &str, color: &str) -> (r: String)
    ensures
        r@ == patched_style(style@, "strokeColor"@, color@),
{
    let s = to_chars(style);
    let c = to_chars(color);
    from_chars(&stroke_color_chars(&s, &c))
}

} // verus!
