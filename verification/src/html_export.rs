//! The self-contained HTML slideshow, and the base64 encoding it embeds
//! the slides with.
use vstd::prelude::*;

use crate::text::{decimal, from_chars, join, join_chars, push_all, push_decimal, to_chars};

verus! {

/// The standard base64 alphabet.
pub open spec fn base64_alphabet() -> Seq<char> {
    seq!['A', 'B', 'C', 'D', 'E', 'F', 'G', 'H', 'I', 'J', 'K', 'L', 'M', 'N', 'O', 'P', 'Q', 'R', 'S', 'T', 'U', 'V', 'W', 'X', 'Y', 'Z', 'a', 'b', 'c', 'd', 'e', 'f', 'g', 'h', 'i', 'j', 'k', 'l', 'm', 'n', 'o', 'p', 'q', 'r', 's', 't', 'u', 'v', 'w', 'x', 'y', 'z', '0', '1', '2', '3', '4', '5', '6', '7', '8', '9', '+', '/']
}

/// The four characters that encode a group of one to three bytes, read as
/// the 24-bit number `n`; missing bytes give `=` padding.
pub open spec fn base64_quad(n: int, has_second: bool, has_third: bool) -> Seq<char> {
    seq![
        base64_alphabet()[(n / 262144) % 64],
        base64_alphabet()[(n / 4096) % 64],
        if has_second { base64_alphabet()[(n / 64) % 64] } else { '=' },
        if has_third { base64_alphabet()[n % 64] } else { '=' },
    ]
}

/// Standard base64 (RFC 4648 alphabet, `=` padding) of `data`.
pub open spec fn base64_text(data: Seq<u8>) -> Seq<char>
    decreases data.len(),
{
    if data.len() == 0 {
        Seq::empty()
    } else if data.len() == 1 {
        base64_quad(data[0] * 65536, false, false)
    } else if data.len() == 2 {
        base64_quad(data[0] * 65536 + data[1] * 256, true, false)
    } else {
        base64_quad(data[0] * 65536 + data[1] * 256 + data[2], true, true) + base64_text(data.skip(3))
    }
}

/// Base64 of `data` as characters.
pub fn base64_chars(data: &Vec<u8>) -> (r: Vec<char>)
    ensures
        r@ == base64_text(data@),
{
    let alphabet = ['A', 'B', 'C', 'D', 'E', 'F', 'G', 'H', 'I', 'J', 'K', 'L', 'M', 'N', 'O', 'P', 'Q', 'R', 'S', 'T', 'U', 'V', 'W', 'X', 'Y', 'Z', 'a', 'b', 'c', 'd', 'e', 'f', 'g', 'h', 'i', 'j', 'k', 'l', 'm', 'n', 'o', 'p', 'q', 'r', 's', 't', 'u', 'v', 'w', 'x', 'y', 'z', '0', '1', '2', '3', '4', '5', '6', '7', '8', '9', '+', '/'];
    assert(alphabet@ =~= base64_alphabet());
    let len = data.len();
    let mut out: Vec<char> = Vec::new();
    let mut i: usize = 0;
    assert(data@.skip(0) =~= data@);
    while i < len
        invariant
            len == data@.len(),
            i <= len,
            alphabet@ == base64_alphabet(),
            out@ + base64_text(data@.skip(i as int)) == base64_text(data@),
        decreases len - i,
    {
        let ghost rest = data@.skip(i as int);
        let b0 = data[i] as u32;
        let b1: u32 = if len - i > 1 { data[i + 1] as u32 } else { 0 };
        let b2: u32 = if len - i > 2 { data[i + 2] as u32 } else { 0 };
        let n: u32 = (b0 << 16) | (b1 << 8) | b2;
        assert(n == b0 * 65536 + b1 * 256 + b2) by (bit_vector)
            requires
                b0 < 256 && b1 < 256 && b2 < 256,
                n == (b0 << 16) | (b1 << 8) | b2;
        assert((n >> 18) & 0x3f == (n / 262144) % 64) by (bit_vector);
        assert((n >> 12) & 0x3f == (n / 4096) % 64) by (bit_vector);
        assert((n >> 6) & 0x3f == (n / 64) % 64) by (bit_vector);
        assert(n & 0x3f == n % 64) by (bit_vector);
        let ghost before = out@;
        out.push(alphabet[((n >> 18) & 0x3f) as usize]);
        out.push(alphabet[((n >> 12) & 0x3f) as usize]);
        let has_second = len - i > 1;
        let has_third = len - i > 2;
        if has_second {
            out.push(alphabet[((n >> 6) & 0x3f) as usize]);
        } else {
            out.push('=');
        }
        if has_third {
            out.push(alphabet[(n & 0x3f) as usize]);
        } else {
            out.push('=');
        }
        proof {
            assert(out@ =~= before + base64_quad(n as int, has_second, has_third));
            assert(rest[0] == data@[i as int]);
            if has_second {
                assert(rest[1] == data@[i + 1]);
            }
            if has_third {
                assert(rest[2] == data@[i + 2]);
                assert(rest.skip(3) =~= data@.skip(i + 3));
            }
        }
        if has_third {
            i = i + 3;
        } else {
            proof {
                assert(data@.skip(len as int) =~= Seq::<u8>::empty());
            }
            i = len;
        }
    }
    assert(data@.skip(len as int) =~= Seq::<u8>::empty());
    out
}

/// Minimal base64 encoder: standard alphabet with `=` padding.
pub fn base64_encode(data: &[u8]) -> (r: String)
    ensures
        r@ == base64_text(data@),
{
    let mut v: Vec<u8> = Vec::new();
    let n = data.len();
    for i in 0..n
        invariant
            n == data@.len(),
            v@ == data@.take(i as int),
    {
        v.push(data[i]);
        assert(data@.take(i + 1) =~= data@.take(i as int).push(data@[i as int]));
    }
    assert(data@.take(n as int) =~= data@);
    from_chars(&base64_chars(&v))
}

pub const SLIDESHOW_HEAD: &'static str = r#"<!DOCTYPE html>
<html lang="en">
<head>
<meta charset="UTF-8">
<meta name="viewport" content="width=device-width, initial-scale=1.0">
<title>Slideshow</title>
<style>
  * { box-sizing: border-box; margin: 0; padding: 0; }
  body {
    background: #1a1a1a;
    display: flex;
    flex-direction: column;
    align-items: center;
    justify-content: center;
    min-height: 100vh;
    font-family: sans-serif;
    color: #eee;
  }
  #slide-container {
    position: relative;
    max-width: 95vw;
    max-height: 80vh;
  }
  #slide {
    display: block;
    max-width: 95vw;
    max-height: 80vh;
    box-shadow: 0 4px 24px rgba(0,0,0,0.6);
  }
  #controls {
    display: flex;
    align-items: center;
    gap: 16px;
    margin-top: 16px;
  }
  button {
    background: #444;
    color: #eee;
    border: none;
    border-radius: 6px;
    padding: 10px 24px;
    font-size: 16px;
    cursor: pointer;
    transition: background 0.15s;
  }
  button:hover:not(:disabled) { background: #666; }
  button:disabled { opacity: 0.3; cursor: default; }
  #counter { font-size: 15px; min-width: 60px; text-align: center; }
</style>
</head>
<body>
<div id="slide-container">
  <img id="slide" src="" alt="Slide">
</div>
<div id="controls">
  <button id="btn-prev" onclick="go(-1)">&#8592; Prev</button>
  <span id="counter">1 / "#;

pub const SLIDESHOW_MIDDLE: &'static str = r#"</span>
  <button id="btn-next" onclick="go(1)">Next &#8594;</button>
</div>
<script>
  var slides = [
    "#;

pub const SLIDESHOW_TAIL: &'static str = r#"
  ];
  var current = 0;

  function show(n) {
    current = Math.max(0, Math.min(slides.length - 1, n));
    document.getElementById("slide").src = slides[current];
    document.getElementById("counter").textContent = (current + 1) + " / " + slides.length;
    document.getElementById("btn-prev").disabled = current === 0;
    document.getElementById("btn-next").disabled = current === slides.length - 1;
  }

  function go(delta) { show(current + delta); }

  document.addEventListener("keydown", function(e) {
    if (e.key === "ArrowRight" || e.key === "ArrowDown") go(1);
    if (e.key === "ArrowLeft"  || e.key === "ArrowUp")   go(-1);
  });

  show(0);
</script>
</body>
</html>
"#;

/// Why a slideshow could not be built.
#[derive(Debug)]
pub enum SlideshowError {
    NoSlides,
}

impl SlideshowError {
    pub fn message(&self) -> (m: String)
        ensures
            m@ == "No PNG frames provided for HTML slideshow"@,
    {
        String::from_str("No PNG frames provided for HTML slideshow")
    }
}

/// The quoted data URI of one PNG slide.
pub open spec fn slide_literal(png: Seq<u8>) -> Seq<char> {
    seq!['"'] + "data:image/png;base64,"@ + base64_text(png) + seq!['"']
}

/// The slideshow page: every slide embedded as a data URI.
pub open spec fn slideshow_page(pngs: Seq<Seq<u8>>) -> Seq<char> {
    SLIDESHOW_HEAD@ + decimal(pngs.len()) + SLIDESHOW_MIDDLE@ + join(
        Seq::new(pngs.len(), |i: int| slide_literal(pngs[i])),
        ",\n    "@,
    ) + SLIDESHOW_TAIL@
}

/// Build a self-contained HTML slideshow from the bytes of the PNG slides,
/// embedded as base64 data URIs; an empty list of slides is refused.
pub fn build_html_slideshow(pngs: &Vec<Vec<u8>>) -> (r: Result<String, SlideshowError>)
    ensures
        pngs@.len() == 0 <==> r is Err,
        r matches Ok(page) ==> page@ == slideshow_page(pngs@.map_values(|p: Vec<u8>| p@)),
{
    let ghost pv = pngs@.map_values(|p: Vec<u8>| p@);
    if pngs.len() == 0 {
        return Err(SlideshowError::NoSlides);
    }
    let prefix = to_chars("data:image/png;base64,");
    let n = pngs.len();
    let mut slides: Vec<Vec<char>> = Vec::new();
    for i in 0..n
        invariant
            n == pngs@.len(),
            pv == pngs@.map_values(|p: Vec<u8>| p@),
            prefix@ == "data:image/png;base64,"@,
            slides@.len() == i,
            forall|j: int| 0 <= j < i ==> (#[trigger] slides@[j])@ == slide_literal(pv[j]),
    {
        let mut s: Vec<char> = Vec::new();
        s.push('"');
        push_all(&mut s, &prefix);
        let b = base64_chars(&pngs[i]);
        push_all(&mut s, &b);
        s.push('"');
        assert(s@ =~= slide_literal(pv[i as int]));
        slides.push(s);
    }
    let sep = to_chars(",\n    ");
    let js = join_chars(&slides, &sep);
    assert(slides@.map_values(|p: Vec<char>| p@) =~= Seq::new(pv.len(), |i: int| slide_literal(pv[i])));
    let mut page = to_chars(SLIDESHOW_HEAD);
    push_decimal(&mut page, n as u64);
    let mid = to_chars(SLIDESHOW_MIDDLE);
    push_all(&mut page, &mid);
    push_all(&mut page, &js);
    let tail = to_chars(SLIDESHOW_TAIL);
    push_all(&mut page, &tail);
    Ok(from_chars(&page))
}

} // verus!
