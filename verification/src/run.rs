//! The plan of a run: file names of slides, sections and animation frames,
//! the transforms of each frame, slide delays, and the digests that let an
//! unchanged step be skipped.
use vstd::prelude::*;
use vstd::utf8::encode_utf8;

use sha2::Digest;

use crate::config::{drawio_stem, steps_view, strip_drawio_ext, DerivedV};
use crate::model::{Config, Transform, TransformV, copy_transform, transforms_view};
use crate::text::{
    lemma_find_from,
    char_seqs, chars_eq, decimal, find_chars, from_chars, join, push_all, push_decimal, push_str, slice_of,
    split_chars, split_from, find, to_chars,
};

verus! {

// ---------------------------------------------------------------------------
// File names.

/// The PNG a step's slide is written to.
pub fn slide_png_name(output: &str) -> (r: String)
    ensures
        r@ == drawio_stem(output@) + ".png"@,
{
    let stem = strip_drawio_ext(output);
    let mut out = to_chars(stem.as_str());
    push_str(&mut out, ".png");
    from_chars(&out)
}

/// The GIF of animation section `n` (counted from 1) of a step.
pub fn section_gif_name(output: &str, n: u64) -> (r: String)
    ensures
        r@ == drawio_stem(output@) + ".section"@ + decimal(n as nat) + ".gif"@,
{
    let stem = strip_drawio_ext(output);
    let mut out = to_chars(stem.as_str());
    push_str(&mut out, ".section");
    push_decimal(&mut out, n);
    push_str(&mut out, ".gif");
    from_chars(&out)
}

/// The temporary file of frame `k` of animation section `n`, with extension
/// `ext` (such as `png`).
pub fn frame_file_name(stem: &str, n: u64, k: u64, ext: &str) -> (r: String)
    ensures
        r@ == stem@ + ".s"@ + decimal(n as nat) + ".f"@ + decimal(k as nat) + "."@ + ext@,
{
    let mut out = to_chars(stem);
    push_str(&mut out, ".s");
    push_decimal(&mut out, n);
    push_str(&mut out, ".f");
    push_decimal(&mut out, k);
    push_str(&mut out, ".");
    push_str(&mut out, ext);
    from_chars(&out)
}

// ---------------------------------------------------------------------------
// Animation frames.

/// The transforms of each frame of a section: frame 0 applies none, frame
/// `k` the first `k` transforms of the section, each on the state before
/// the section.
pub open spec fn frame_plan(section: Seq<TransformV>) -> Seq<Seq<TransformV>> {
    Seq::new(section.len() + 1, |k: int| section.take(k))
}

/// The transforms of each frame of a section: frame 0 applies none, frame
/// `k` the first `k` transforms of the section.
pub fn frame_transforms(section: &Vec<Transform>) -> (r: Vec<Vec<Transform>>)
    ensures
        r@.len() == section@.len() + 1,
        forall|k: int| 0 <= k < r@.len() ==> transforms_view((#[trigger] r@[k])@) == frame_plan(transforms_view(section@))[k],
{
    let ghost sv = transforms_view(section@);
    let mut r: Vec<Vec<Transform>> = Vec::new();
    let mut cur: Vec<Transform> = Vec::new();
    let n = section.len();
    r.push(Vec::new());
    assert(transforms_view(r@[0]@) =~= sv.take(0));
    for i in 0..n
        invariant
            n == section@.len(),
            sv == transforms_view(section@),
            r@.len() == i + 1,
            transforms_view(cur@) == sv.take(i as int),
            forall|k: int| 0 <= k < r@.len() ==> transforms_view((#[trigger] r@[k])@) == sv.take(k),
    {
        let ghost prev = transforms_view(cur@);
        cur.push(copy_transform(&section[i]));
        assert(transforms_view(cur@) =~= prev.push(section@[i as int]@));
        assert(sv.take(i + 1) =~= sv.take(i as int).push(sv[i as int]));
        let mut frame: Vec<Transform> = Vec::new();
        let m = cur.len();
        for j in 0..m
            invariant
                m == cur@.len(),
                frame@.len() == j,
                forall|q: int| 0 <= q < j ==> (#[trigger] frame@[q])@ == cur@[q]@,
        {
            frame.push(copy_transform(&cur[j]));
        }
        assert(transforms_view(frame@) =~= transforms_view(cur@));
        r.push(frame);
    }
    r
}

/// Whether a step has an Animation marker.
pub fn has_animation(transforms: &Vec<Transform>) -> (r: bool)
    ensures
        r == exists|i: int| 0 <= i < transforms@.len() && (#[trigger] transforms@[i]) is Animation,
{
    let n = transforms.len();
    for i in 0..n
        invariant
            n == transforms@.len(),
            forall|j: int| 0 <= j < i ==> !((#[trigger] transforms@[j]) is Animation),
    {
        if let Transform::Animation = &transforms[i] {
            return true;
        }
    }
    false
}

// ---------------------------------------------------------------------------
// Slides.

/// The delay of every slide: its own, else the configuration's.
pub fn slide_delays(config: &Config) -> (r: Vec<u32>)
    ensures
        r@.len() == config.derived@.len(),
        forall|i: int|
            0 <= i < r@.len() ==> #[trigger] r@[i] == match config.derived@[i].delay {
                Some(d) => d,
                None => config.delay_between_slides,
            },
{
    let mut r: Vec<u32> = Vec::new();
    let n = config.derived.len();
    for i in 0..n
        invariant
            n == config.derived@.len(),
            r@.len() == i,
            forall|j: int|
                0 <= j < i ==> #[trigger] r@[j] == match config.derived@[j].delay {
                    Some(d) => d,
                    None => config.delay_between_slides,
                },
    {
        let d = match config.derived[i].delay {
            Some(d) => d,
            None => config.delay_between_slides,
        };
        r.push(d);
    }
    r
}

/// The message for a `--step` that names no output.
pub open spec fn unknown_step_text(step: Seq<char>, outputs: Seq<Seq<char>>) -> Seq<char> {
    "Error: --step '"@ + step + "' does not match any output. Available outputs: ["@ + join(outputs, ", "@) + "]"@
}

/// The outputs of the steps, in order.
pub open spec fn outputs_of(ds: Seq<DerivedV>) -> Seq<Seq<char>> {
    Seq::new(ds.len(), |i: int| ds[i].output)
}

/// Check that `--step` names the output of a step.
pub fn check_step_filter(config: &Config, step: &str) -> (r: Result<(), String>)
    ensures
        outputs_of(steps_view(config.derived@)).contains(step@) ==> r is Ok,
        !outputs_of(steps_view(config.derived@)).contains(step@) ==> (r matches Err(m) && m@ == unknown_step_text(
            step@,
            outputs_of(steps_view(config.derived@)),
        )),
{
    let ghost ov = outputs_of(steps_view(config.derived@));
    let target = to_chars(step);
    let mut outs: Vec<Vec<char>> = Vec::new();
    let n = config.derived.len();
    for i in 0..n
        invariant
            n == config.derived@.len(),
            ov == outputs_of(steps_view(config.derived@)),
            target@ == step@,
            char_seqs(outs@) == ov.take(i as int),
            !ov.take(i as int).contains(step@),
    {
        let o = to_chars(config.derived[i].output.as_str());
        assert(ov[i as int] == o@);
        if chars_eq(&o, &target) {
            assert(ov[i as int] == step@);
            return Ok(());
        }
        let ghost prev = char_seqs(outs@);
        let ghost ov_i = o@;
        outs.push(o);
        assert(char_seqs(outs@) =~= prev.push(ov_i));
        assert(ov.take(i + 1) =~= ov.take(i as int).push(ov[i as int]));
        assert(!ov.take(i + 1).contains(step@)) by {
            let t = ov.take(i + 1);
            if t.contains(step@) {
                let k = choose|k: int| 0 <= k < t.len() && #[trigger] t[k] == step@;
                if k < i {
                    assert(ov.take(i as int)[k] == step@);
                }
            }
        }
    }
    assert(ov.take(n as int) =~= ov);
    let mut out = to_chars("Error: --step '");
    push_str(&mut out, step);
    push_str(&mut out, "' does not match any output. Available outputs: [");
    let sep = to_chars(", ");
    let joined = crate::text::join_chars(&outs, &sep);
    push_all(&mut out, &joined);
    push_str(&mut out, "]");
    Err(from_chars(&out))
}

// ---------------------------------------------------------------------------
// Digests.

/// The SHA-256 digest of `data`.
pub uninterp spec fn sha256_of(data: Seq<u8>) -> Seq<u8>;

/// sha2 `Sha256::digest`.
#[verifier::external_body]
fn sha256(data: &[u8]) -> (r: Vec<u8>)
    ensures
        r@ == sha256_of(data@),
        r@.len() == 32,
{
    sha2::Sha256::digest(data).to_vec()
}

/// The lowercase hexadecimal digit of `n < 16`.
pub open spec fn lower_hex_digit(n: int) -> char {
    seq!['0', '1', '2', '3', '4', '5', '6', '7', '8', '9', 'a', 'b', 'c', 'd', 'e', 'f'][n]
}

/// Bytes as lowercase hexadecimal, two digits each.
pub open spec fn hex_text(b: Seq<u8>) -> Seq<char>
    decreases b.len(),
{
    if b.len() == 0 {
        Seq::empty()
    } else {
        hex_text(b.drop_last()) + seq![lower_hex_digit((b.last() / 16) as int), lower_hex_digit((b.last() % 16) as int)]
    }
}

/// hex `encode`: each byte as two lowercase hexadecimal digits.
#[verifier::external_body]
fn hex_encode(data: &[u8]) -> (r: String)
    ensures
        r@ == hex_text(data@),
{
    hex::encode(data)
}

/// The digest of a step: the hexadecimal SHA-256 of the step's JSON form
/// followed by the document it starts from.
pub fn step_digest(item_json: &str, from_xml: &str) -> (r: String)
    ensures
        r@ == hex_text(sha256_of(encode_utf8(item_json@) + encode_utf8(from_xml@))),
{
    let a = item_json.as_bytes();
    let b = from_xml.as_bytes();
    let mut data: Vec<u8> = Vec::new();
    let n = a.len();
    for i in 0..n
        invariant
            n == a@.len(),
            data@ == a@.take(i as int),
    {
        data.push(a[i]);
        assert(a@.take(i + 1) =~= a@.take(i as int).push(a@[i as int]));
    }
    assert(a@.take(n as int) =~= a@);
    let m = b.len();
    for j in 0..m
        invariant
            m == b@.len(),
            n == a@.len(),
            data@ == a@ + b@.take(j as int),
    {
        data.push(b[j]);
        assert(b@.take(j + 1) =~= b@.take(j as int).push(b@[j as int]));
    }
    assert(b@.take(m as int) =~= b@);
    let digest = sha256(data.as_slice());
    hex_encode(digest.as_slice())
}

/// The lines of a text as `str::lines` gives them: split at `\n`, without
/// a last empty piece, each without a trailing `\r`.
pub open spec fn text_lines(s: Seq<char>) -> Seq<Seq<char>> {
    let pieces = split_from(s, '\n', 0);
    let kept = if pieces.len() > 0 && pieces.last().len() == 0 {
        pieces.drop_last()
    } else {
        pieces
    };
    Seq::new(
        kept.len(),
        |i: int|
            if kept[i].len() > 0 && kept[i].last() == '\r' {
                kept[i].drop_last()
            } else {
                kept[i]
            },
    )
}

/// The (output, digest) of one line `<digest>  <output>`; nothing for a
/// line without the two-space separator.
pub open spec fn digest_entry(line: Seq<char>) -> Option<(Seq<char>, Seq<char>)> {
    match find(line, "  "@) {
        Some(i) => Some((line.skip(i + 2), line.take(i))),
        None => None,
    }
}

/// The (output, digest) entries of a digest file, in order.
pub open spec fn digest_entries(lines: Seq<Seq<char>>) -> Seq<(Seq<char>, Seq<char>)>
    decreases lines.len(),
{
    if lines.len() == 0 {
        Seq::empty()
    } else {
        match digest_entry(lines.last()) {
            Some(e) => digest_entries(lines.drop_last()).push(e),
            None => digest_entries(lines.drop_last()),
        }
    }
}

/// The digest recorded for an output: the last entry that names it.
pub open spec fn recorded_digest(entries: Seq<(Seq<char>, Seq<char>)>, output: Seq<char>) -> Option<Seq<char>>
    decreases entries.len(),
{
    if entries.len() == 0 {
        None
    } else if entries.last().0 == output {
        Some(entries.last().1)
    } else {
        recorded_digest(entries.drop_last(), output)
    }
}

/// Pairs of strings seen as pairs of character sequences.
pub open spec fn string_pairs_of(v: Seq<(String, String)>) -> Seq<(Seq<char>, Seq<char>)> {
    v.map_values(|p: (String, String)| (p.0@, p.1@))
}

/// Read a digest file: the (output, digest) of every line `<digest>  <output>`.
pub fn parse_digests(content: &str) -> (r: Vec<(String, String)>)
    ensures
        string_pairs_of(r@) == digest_entries(text_lines(content@)),
{
    let chars = to_chars(content);
    let pieces = split_chars(&chars, '\n');
    let ghost pv = char_seqs(pieces@);
    let mut count = pieces.len();
    if count > 0 && pieces[count - 1].len() == 0 {
        count = count - 1;
    }
    let ghost kept = if pv.len() > 0 && pv.last().len() == 0 {
        pv.drop_last()
    } else {
        pv
    };
    let ghost lines = text_lines(content@);
    assert(pieces@.map_values(|p: Vec<char>| p@) == pv);
    assert(kept.len() == count);
    let sep = to_chars("  ");
    let mut r: Vec<(String, String)> = Vec::new();
    assert(string_pairs_of(r@) =~= Seq::<(Seq<char>, Seq<char>)>::empty());
    for i in 0..count
        invariant
            count <= pieces@.len(),
            pv == char_seqs(pieces@),
            pv == split_from(content@, '\n', 0),
            kept.len() == count,
            kept == (if pv.len() > 0 && pv.last().len() == 0 {
                pv.drop_last()
            } else {
                pv
            }),
            lines == text_lines(content@),
            sep@ == "  "@,
            string_pairs_of(r@) == digest_entries(lines.take(i as int)),
    {
        assert(kept[i as int] == pieces@[i as int]@);
        let piece = &pieces[i];
        let line = if piece.len() > 0 && piece[piece.len() - 1] == '\r' {
            slice_of(piece, 0, piece.len() - 1)
        } else {
            slice_of(piece, 0, piece.len())
        };
        assert(line@ == lines[i as int]) by {
            assert(piece@.subrange(0, piece@.len() as int) =~= piece@);
            assert(piece@.len() > 0 ==> piece@.subrange(0, piece@.len() - 1) =~= piece@.drop_last());
        }
        assert(lines.take(i + 1).drop_last() =~= lines.take(i as int));
        let ghost before = string_pairs_of(r@);
        let found = find_chars(&line, &sep);
        proof {
            reveal_strlit("  ");
            lemma_find_from(line@, sep@, 0);
        }
        match found {
            Some(k) => {
                let hash = slice_of(&line, 0, k);
                let name = slice_of(&line, k + 2, line.len());
                assert(hash@ =~= line@.take(k as int));
                assert(name@ =~= line@.skip(k + 2));
                r.push((from_chars(&name), from_chars(&hash)));
                assert(string_pairs_of(r@) =~= before.push((name@, hash@)));
            },
            None => {},
        }
    }
    assert(lines.take(count as int) =~= lines);
    r
}

/// The digest recorded for an output, if any.
pub fn stored_digest(entries: &Vec<(String, String)>, output: &str) -> (r: Option<String>)
    ensures
        match recorded_digest(string_pairs_of(entries@), output@) {
            Some(d) => r matches Some(x) && x@ == d,
            None => r is None,
        },
{
    let ghost ev = string_pairs_of(entries@);
    let target = to_chars(output);
    let mut i = entries.len();
    assert(ev.take(i as int) =~= ev);
    while i > 0
        invariant
            i <= entries@.len(),
            ev == string_pairs_of(entries@),
            target@ == output@,
            recorded_digest(ev, output@) == recorded_digest(ev.take(i as int), output@),
        decreases i,
    {
        assert(ev.take(i as int).drop_last() =~= ev.take(i - 1));
        assert(ev.take(i as int).last() == (entries@[i - 1].0@, entries@[i - 1].1@));
        let name = to_chars(entries[i - 1].0.as_str());
        if chars_eq(&name, &target) {
            return Some(entries[i - 1].1.clone());
        }
        i -= 1;
    }
    None
}

/// Whether a step is the one `--step` chose; with no `--step`, every step is.
pub open spec fn is_chosen(step: Option<Seq<char>>, output: Seq<char>) -> bool {
    match step {
        Some(s) => s == output,
        None => true,
    }
}

/// The `--step` choice as text.
pub open spec fn step_view(step: Option<&str>) -> Option<Seq<char>> {
    match step {
        Some(s) => Some(s@),
        None => None,
    }
}

/// Whether the step that writes `output` is left out: a run with `--dirty`
/// touches only the chosen step.
pub fn skips_step(step: Option<&str>, dirty: bool, output: &str) -> (r: bool)
    ensures
        r == (dirty && !is_chosen(step_view(step), output@)),
{
    if !dirty {
        return false;
    }
    match step {
        Some(s) => !chars_eq(&to_chars(s), &to_chars(output)),
        None => false,
    }
}

/// Whether the step that writes `output` is reused rather than rendered: it
/// was not chosen by `--step`, the digest recorded for it equals its
/// current digest, and its slide exists. A reused step is transformed again
/// only so that the steps after it can start from it; its animations are
/// not made again.
pub fn reuses_step(step: Option<&str>, output: &str, recorded: &Option<String>, current: &str, slide_exists: bool) -> (r:
    bool)
    ensures
        r == (!is_chosen(step_view(step), output@) && recorded.is_some() && recorded.unwrap()@ == current@
            && slide_exists),
{
    let chosen = match step {
        Some(s) => chars_eq(&to_chars(s), &to_chars(output)),
        None => true,
    };
    let same = match recorded {
        Some(d) => chars_eq(&to_chars(d.as_str()), &to_chars(current)),
        None => false,
    };
    !chosen && same && slide_exists
}

/// The digest file: one line `<digest>  <output>` for every step, in step
/// order, that has a new digest, each line ended by a newline.
pub open spec fn digest_file(outputs: Seq<Seq<char>>, digests: Seq<(Seq<char>, Seq<char>)>) -> Seq<char> {
    join(digest_lines(outputs, digests), "\n"@) + "\n"@
}

/// The lines of the digest file, in step order.
pub open spec fn digest_lines(outputs: Seq<Seq<char>>, digests: Seq<(Seq<char>, Seq<char>)>) -> Seq<Seq<char>>
    decreases outputs.len(),
{
    if outputs.len() == 0 {
        Seq::empty()
    } else {
        let rest = digest_lines(outputs.drop_last(), digests);
        match recorded_digest(digests, outputs.last()) {
            Some(d) => rest.push(d + "  "@ + outputs.last()),
            None => rest,
        }
    }
}

/// Write the digest file of a run: `digests` holds the (output, digest)
/// pairs computed, a later pair for an output replacing an earlier one.
pub fn digest_file_text(config: &Config, digests: &Vec<(String, String)>) -> (r: String)
    ensures
        r@ == digest_file(outputs_of(steps_view(config.derived@)), string_pairs_of(digests@)),
{
    let ghost ov = outputs_of(steps_view(config.derived@));
    let ghost dv = string_pairs_of(digests@);
    let mut lines: Vec<Vec<char>> = Vec::new();
    let n = config.derived.len();
    assert(char_seqs(lines@) =~= Seq::<Seq<char>>::empty());
    for i in 0..n
        invariant
            n == config.derived@.len(),
            ov == outputs_of(steps_view(config.derived@)),
            dv == string_pairs_of(digests@),
            char_seqs(lines@) == digest_lines(ov.take(i as int), dv),
    {
        assert(ov.take(i + 1).drop_last() =~= ov.take(i as int));
        assert(ov.take(i + 1).last() == config.derived@[i as int].output@);
        let ghost before = char_seqs(lines@);
        if let Some(d) = stored_digest(digests, config.derived[i].output.as_str()) {
            let mut line = to_chars(d.as_str());
            push_str(&mut line, "  ");
            push_str(&mut line, config.derived[i].output.as_str());
            let ghost l = line@;
            lines.push(line);
            assert(char_seqs(lines@) =~= before.push(l));
        }
    }
    assert(ov.take(n as int) =~= ov);
    let sep = to_chars("\n");
    let mut out = crate::text::join_chars(&lines, &sep);
    push_str(&mut out, "\n");
    from_chars(&out)
}

} // verus!
