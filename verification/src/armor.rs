//! The armor: a labelled text envelope for binary artifacts.
//!
//! An armored artifact is its base64 text, broken into lines of 64
//! characters, between a line `-----BEGIN <label>-----` and a line
//! `-----END <label>-----`. Reading looks for the first BEGIN line of the
//! expected label and the first END line of that label behind it, drops the
//! lines between them that start with `-----`, and decodes what is left. A
//! text may hold several envelopes; each is found by its label.
//!
//! Armored text is handled as its UTF-8 bytes; base64 itself is the `base64`
//! crate's.

use vstd::prelude::*;
use vstd::utf8::*;
use crate::canonical::string_from_utf8;
use crate::errors::CryptoError;

verus! {

/// The line feed that ends a line.
pub open spec fn lf() -> u8 {
    0x0a
}

/// The carriage return that may stand before a line feed.
pub open spec fn cr() -> u8 {
    0x0d
}

/// `-----`
pub open spec fn dashes() -> Seq<u8> {
    seq![0x2du8, 0x2d, 0x2d, 0x2d, 0x2d]
}

/// `-----BEGIN `
pub open spec fn begin_prefix() -> Seq<u8> {
    seq![0x2du8, 0x2d, 0x2d, 0x2d, 0x2d, 0x42, 0x45, 0x47, 0x49, 0x4e, 0x20]
}

/// `-----END `
pub open spec fn end_prefix() -> Seq<u8> {
    seq![0x2du8, 0x2d, 0x2d, 0x2d, 0x2d, 0x45, 0x4e, 0x44, 0x20]
}

/// The line that opens the envelope of a label.
pub open spec fn begin_marker(label: Seq<u8>) -> Seq<u8> {
    begin_prefix() + label + dashes()
}

/// The line that closes the envelope of a label.
pub open spec fn end_marker(label: Seq<u8>) -> Seq<u8> {
    end_prefix() + label + dashes()
}

/// A text broken by line feeds into lines of 64 bytes; the last line may be
/// shorter.
pub open spec fn wrapped(text: Seq<u8>) -> Seq<u8>
    decreases text.len(),
{
    if text.len() <= 64 {
        text
    } else {
        text.take(64) + seq![lf()] + wrapped(text.skip(64))
    }
}

/// The envelope of a payload that is already base64 text.
pub open spec fn armor_text(payload: Seq<u8>, label: Seq<u8>) -> Seq<u8> {
    begin_marker(label) + seq![lf()] + wrapped(payload) + seq![lf()] + end_marker(label) + seq![
        lf(),
    ]
}

/// Where the first line of a text ends: at its first line feed, or at its
/// end.
pub open spec fn first_line_end(text: Seq<u8>) -> nat
    decreases text.len(),
{
    if text.len() == 0 || text[0] == lf() {
        0
    } else {
        1 + first_line_end(text.skip(1))
    }
}

/// A line without the carriage return at its end, if it has one.
pub open spec fn without_cr(line: Seq<u8>) -> Seq<u8> {
    if line.len() > 0 && line.last() == cr() {
        line.drop_last()
    } else {
        line
    }
}

/// The lines of a text. A line ends with a line feed, or with a carriage
/// return and a line feed; the last one may end with the text.
pub open spec fn lines(text: Seq<u8>) -> Seq<Seq<u8>>
    decreases text.len(),
{
    if text.len() == 0 {
        seq![]
    } else {
        let end = first_line_end(text);
        let line = without_cr(text.take(end as int));
        if end >= text.len() {
            seq![line]
        } else {
            seq![line] + lines(text.skip((end + 1) as int))
        }
    }
}

/// Whether a line starts with `-----`.
pub open spec fn is_dashed(line: Seq<u8>) -> bool {
    line.len() >= 5 && line.take(5) == dashes()
}

/// What the lines hold up to the first END line of the label, without the
/// lines that start with `-----`; `None` where there is no such END line.
pub open spec fn body_content(lines: Seq<Seq<u8>>, label: Seq<u8>) -> Option<Seq<u8>>
    decreases lines.len(),
{
    if lines.len() == 0 {
        None
    } else if lines[0] == end_marker(label) {
        Some(Seq::empty())
    } else {
        match body_content(lines.drop_first(), label) {
            None => None,
            Some(rest) => Some(
                if is_dashed(lines[0]) {
                    rest
                } else {
                    lines[0] + rest
                },
            ),
        }
    }
}

/// What stands between the first BEGIN line of the label and the first END
/// line of the label behind it; `None` where either is missing.
pub open spec fn envelope_content(lines: Seq<Seq<u8>>, label: Seq<u8>) -> Option<Seq<u8>>
    decreases lines.len(),
{
    if lines.len() == 0 {
        None
    } else if lines[0] == begin_marker(label) {
        body_content(lines.drop_first(), label)
    } else {
        envelope_content(lines.drop_first(), label)
    }
}

/// The base64 text that an armored text holds under a label.
pub open spec fn armored_base64(text: Seq<u8>, label: Seq<u8>) -> Option<Seq<u8>> {
    envelope_content(lines(text), label)
}

/// The standard base64 text of a byte string, with padding.
pub uninterp spec fn base64_text(bytes: Seq<u8>) -> Seq<u8>;

/// The byte string that a standard base64 text with padding denotes, if it
/// denotes one.
pub uninterp spec fn base64_bytes(text: Seq<u8>) -> Option<Seq<u8>>;

/// A character of the standard base64 alphabet, or the padding character.
pub open spec fn is_base64_char(c: u8) -> bool {
    ||| 0x41 <= c <= 0x5a
    ||| 0x61 <= c <= 0x7a
    ||| 0x30 <= c <= 0x39
    ||| c == 0x2b
    ||| c == 0x2f
    ||| c == 0x3d
}

/// A text of base64 characters only.
pub open spec fn is_base64_text(text: Seq<u8>) -> bool {
    forall|i: int| 0 <= i < text.len() ==> is_base64_char(#[trigger] text[i])
}

/// The bytes that an armored text holds under a label.
pub open spec fn armored_bytes(text: Seq<u8>, label: Seq<u8>) -> Option<Seq<u8>> {
    match armored_base64(text, label) {
        None => None,
        Some(payload) => base64_bytes(payload),
    }
}

/// `encode_string` of the `base64` crate's `STANDARD` engine: text over the
/// standard alphabet and `=`, which its `decode` reads back as the bytes
/// that were encoded.
#[verifier::external_body]
pub(crate) fn base64_encode(bytes: &[u8]) -> (text: Vec<u8>)
    ensures
        text@ == base64_text(bytes@),
        is_base64_text(text@),
        base64_bytes(text@) == Some(bytes@),
{
    let mut text = String::new();
    base64::Engine::encode_string(&base64::engine::general_purpose::STANDARD, bytes, &mut text);
    text.into_bytes()
}

/// `decode` of the `base64` crate's `STANDARD` engine.
#[verifier::external_body]
pub(crate) fn base64_decode(text: &[u8]) -> (bytes: Option<Vec<u8>>)
    ensures
        bytes is Some <==> base64_bytes(text@) is Some,
        bytes matches Some(b) ==> base64_bytes(text@) == Some(b@),
{
    match base64::Engine::decode(&base64::engine::general_purpose::STANDARD, text) {
        Ok(bytes) => Some(bytes),
        Err(_) => None,
    }
}

/// Appends a byte string.
fn append(out: &mut Vec<u8>, part: &[u8])
    ensures
        final(out)@ == old(out)@ + part@,
{
    let mut i: usize = 0;
    while i < part.len()
        invariant
            i <= part.len(),
            out@ == old(out)@ + part@.take(i as int),
        decreases part.len() - i,
    {
        out.push(part[i]);
        assert(out@ =~= old(out)@ + part@.take(i + 1));
        i += 1;
    }
    assert(part@.take(i as int) =~= part@);
}

/// Appends a text, broken into lines of 64 bytes.
fn append_wrapped(out: &mut Vec<u8>, text: &[u8])
    ensures
        final(out)@ == old(out)@ + wrapped(text@),
{
    let mut i: usize = 0;
    assert(text@.skip(0) =~= text@);
    while text.len() - i > 64
        invariant
            i <= text.len(),
            old(out)@ + wrapped(text@) == out@ + wrapped(text@.skip(i as int)),
        decreases text.len() - i,
    {
        let ghost before = out@;
        let ghost rest = text@.skip(i as int);
        append(out, vstd::slice::slice_subrange(text, i, i + 64));
        out.push(0x0a);
        proof {
            assert(text@.subrange(i as int, i + 64) =~= rest.take(64));
            assert(rest.skip(64) =~= text@.skip(i + 64));
            assert(out@ + wrapped(text@.skip(i + 64)) =~= before + wrapped(rest));
        }
        i += 64;
    }
    let ghost before = out@;
    append(out, vstd::slice::slice_subrange(text, i, text.len()));
    proof {
        assert(text@.subrange(i as int, text@.len() as int) =~= text@.skip(i as int));
        assert(out@ =~= before + wrapped(text@.skip(i as int)));
    }
}

/// `-----BEGIN `
fn begin_prefix_bytes() -> (bytes: Vec<u8>)
    ensures
        bytes@ == begin_prefix(),
{
    let bytes: Vec<u8> = vec![0x2d, 0x2d, 0x2d, 0x2d, 0x2d, 0x42, 0x45, 0x47, 0x49, 0x4e, 0x20];
    assert(bytes@ =~= begin_prefix());
    bytes
}

/// `-----END `
fn end_prefix_bytes() -> (bytes: Vec<u8>)
    ensures
        bytes@ == end_prefix(),
{
    let bytes: Vec<u8> = vec![0x2d, 0x2d, 0x2d, 0x2d, 0x2d, 0x45, 0x4e, 0x44, 0x20];
    assert(bytes@ =~= end_prefix());
    bytes
}

/// `-----`
fn dashes_bytes() -> (bytes: Vec<u8>)
    ensures
        bytes@ == dashes(),
{
    let bytes: Vec<u8> = vec![0x2d, 0x2d, 0x2d, 0x2d, 0x2d];
    assert(bytes@ =~= dashes());
    bytes
}

/// Puts base64 text into the envelope of a label.
pub fn armor_base64(payload: &[u8], label: &[u8]) -> (text: Vec<u8>)
    ensures
        text@ == armor_text(payload@, label@),
{
    let begin = begin_prefix_bytes();
    let end = end_prefix_bytes();
    let five = dashes_bytes();
    let mut text: Vec<u8> = Vec::new();
    append(&mut text, begin.as_slice());
    append(&mut text, label);
    append(&mut text, five.as_slice());
    text.push(0x0a);
    append_wrapped(&mut text, payload);
    text.push(0x0a);
    append(&mut text, end.as_slice());
    append(&mut text, label);
    append(&mut text, five.as_slice());
    text.push(0x0a);
    assert(text@ =~= armor_text(payload@, label@));
    text
}

/// Bytes below 128 are UTF-8.
pub proof fn lemma_ascii_is_utf8(bytes: Seq<u8>)
    requires
        forall|i: int| 0 <= i < bytes.len() ==> #[trigger] bytes[i] < 0x80,
    ensures
        valid_utf8(bytes),
{
    assert(bytes.subrange(0, 0) =~= Seq::<u8>::empty());
    assert(partial_valid_utf8(bytes, 0));
    assert forall|i: int| 0 <= i < bytes.len() implies #[trigger] is_leading_byte_width_1(
        bytes[i],
    ) by {
        assert(bytes[i] < 0x80);
    }
    partial_valid_utf8_extend_ascii_block(bytes, 0, bytes.len() as int);
    assert(bytes.subrange(0, bytes.len() as int) =~= bytes);
}

/// Breaking a text of base64 characters into lines keeps it a text below
/// 128.
proof fn lemma_wrapped_is_ascii(text: Seq<u8>)
    requires
        is_base64_text(text),
    ensures
        forall|i: int| 0 <= i < wrapped(text).len() ==> #[trigger] wrapped(text)[i] < 0x80,
    decreases text.len(),
{
    if text.len() > 64 {
        lemma_wrapped_is_ascii(text.skip(64));
        let rest = wrapped(text.skip(64));
        assert forall|i: int| 0 <= i < wrapped(text).len() implies #[trigger] wrapped(text)[i]
            < 0x80 by {
            if i < 64 {
                assert(wrapped(text)[i] == text[i]);
            } else if i == 64 {
            } else {
                assert(wrapped(text)[i] == rest[i - 65]);
            }
        }
    }
}

/// The envelope of base64 text under a label that is UTF-8 is UTF-8.
pub proof fn lemma_armor_text_is_utf8(payload: Seq<u8>, label: Seq<u8>)
    requires
        is_base64_text(payload),
        valid_utf8(label),
    ensures
        valid_utf8(armor_text(payload, label)),
{
    let newline = seq![lf()];
    lemma_ascii_is_utf8(begin_prefix());
    lemma_ascii_is_utf8(end_prefix());
    lemma_ascii_is_utf8(dashes());
    lemma_ascii_is_utf8(newline);
    lemma_wrapped_is_ascii(payload);
    lemma_ascii_is_utf8(wrapped(payload));
    valid_utf8_concat(begin_prefix(), label);
    valid_utf8_concat(begin_prefix() + label, dashes());
    valid_utf8_concat(begin_marker(label), newline);
    valid_utf8_concat(begin_marker(label) + newline, wrapped(payload));
    valid_utf8_concat(begin_marker(label) + newline + wrapped(payload), newline);
    valid_utf8_concat(end_prefix(), label);
    valid_utf8_concat(end_prefix() + label, dashes());
    valid_utf8_concat(
        begin_marker(label) + newline + wrapped(payload) + newline,
        end_marker(label),
    );
    valid_utf8_concat(
        begin_marker(label) + newline + wrapped(payload) + newline + end_marker(label),
        newline,
    );
}

/// The first line ends where the first line feed stands, or with the text.
proof fn lemma_first_line_end(text: Seq<u8>, end: int)
    requires
        0 <= end <= text.len(),
        forall|j: int| 0 <= j < end ==> text[j] != lf(),
        end == text.len() || text[end] == lf(),
    ensures
        first_line_end(text) == end,
    decreases end,
{
    if end > 0 {
        lemma_first_line_end(text.skip(1), end - 1);
    }
}

/// The lines of a text are its first line and the lines of what follows it.
proof fn lemma_lines_unfold(text: Seq<u8>, end: int)
    requires
        0 <= end <= text.len(),
        text.len() > 0,
        forall|j: int| 0 <= j < end ==> text[j] != lf(),
        end == text.len() || text[end] == lf(),
    ensures
        lines(text) == seq![without_cr(text.take(end))] + lines(
            text.skip(
                if end < text.len() {
                    end + 1
                } else {
                    end
                },
            ),
        ),
{
    lemma_first_line_end(text, end);
    if end == text.len() {
        assert(lines(text.skip(end)) =~= Seq::<Seq<u8>>::empty());
        assert(seq![without_cr(text.take(end))] + Seq::<Seq<u8>>::empty() =~= seq![
            without_cr(text.take(end)),
        ]);
    }
}

/// Where the line that starts at `from` ends.
fn line_end(text: &[u8], from: usize) -> (end: usize)
    requires
        from <= text@.len(),
    ensures
        from <= end <= text@.len(),
        forall|j: int| from <= j < end ==> text@[j] != lf(),
        end == text@.len() || text@[end as int] == lf(),
{
    let mut end: usize = from;
    while end < text.len() && text[end] != 0x0a
        invariant
            from <= end <= text@.len(),
            forall|j: int| from <= j < end ==> text@[j] != lf(),
        decreases text.len() - end,
    {
        end += 1;
    }
    end
}

/// Whether the pattern stands in the text at `from`.
fn stands_at(text: &[u8], from: usize, pattern: &[u8]) -> (found: bool)
    requires
        from <= text@.len(),
    ensures
        found == (from + pattern@.len() <= text@.len() && text@.subrange(
            from as int,
            from + pattern@.len(),
        ) == pattern@),
{
    if text.len() - from < pattern.len() {
        return false;
    }
    let mut i: usize = 0;
    while i < pattern.len()
        invariant
            i <= pattern.len(),
            from + pattern.len() <= text.len(),
            text@.subrange(from as int, from + i) == pattern@.take(i as int),
        decreases pattern.len() - i,
    {
        if text[from + i] != pattern[i] {
            assert(text@.subrange(from as int, from + pattern@.len())[i as int] != pattern@[i as int]);
            return false;
        }
        assert(text@.subrange(from as int, from + i + 1) =~= text@.subrange(
            from as int,
            from + i,
        ).push(text@[from + i]));
        assert(pattern@.take(i + 1) =~= pattern@.take(i as int).push(pattern@[i as int]));
        i += 1;
    }
    assert(pattern@.take(i as int) =~= pattern@);
    true
}

/// Whether the line from `from` to `to` is the prefix, the label and five
/// dashes.
fn is_marker(text: &[u8], from: usize, to: usize, prefix: &[u8], label: &[u8]) -> (found: bool)
    requires
        from <= to <= text@.len(),
    ensures
        found == (text@.subrange(from as int, to as int) == prefix@ + label@ + dashes()),
{
    let five = dashes_bytes();
    let len = to - from;
    let ghost line = text@.subrange(from as int, to as int);
    let ghost marker = prefix@ + label@ + dashes();
    if len < prefix.len() || len - prefix.len() < label.len() || len - prefix.len() - label.len()
        != 5 {
        assert(line.len() != marker.len());
        return false;
    }
    let at_label = from + prefix.len();
    let at_dashes = at_label + label.len();
    let found = stands_at(text, from, prefix) && stands_at(text, at_label, label) && stands_at(
        text,
        at_dashes,
        five.as_slice(),
    );
    proof {
        let a = text@.subrange(from as int, at_label as int);
        let b = text@.subrange(at_label as int, at_dashes as int);
        let c = text@.subrange(at_dashes as int, to as int);
        assert(line =~= a + b + c);
        if line == marker {
            assert(a =~= marker.subrange(0, prefix@.len() as int));
            assert(b =~= marker.subrange(prefix@.len() as int, (prefix@.len() + label@.len()) as int));
            assert(c =~= marker.subrange((prefix@.len() + label@.len()) as int, marker.len() as int));
            assert(a =~= prefix@);
            assert(b =~= label@);
            assert(c =~= dashes());
        }
    }
    found
}

/// The line that starts at `pos` and what the lines behind it are.
proof fn lemma_next_line(text: Seq<u8>, pos: int, stop: int, to: int, next: int)
    requires
        0 <= pos < text.len(),
        pos <= stop <= text.len(),
        forall|j: int| pos <= j < stop ==> text[j] != lf(),
        stop == text.len() || text[stop] == lf(),
        to == if stop > pos && text[stop - 1] == cr() {
            stop - 1
        } else {
            stop
        },
        next == if stop < text.len() {
            stop + 1
        } else {
            stop
        },
    ensures
        lines(text.skip(pos)) == seq![text.subrange(pos, to)] + lines(text.skip(next)),
{
    let tail = text.skip(pos);
    lemma_lines_unfold(tail, stop - pos);
    assert(tail.take(stop - pos) =~= text.subrange(pos, stop));
    assert(text.subrange(pos, to) =~= without_cr(tail.take(stop - pos)));
    assert(tail.skip(next - pos) =~= text.skip(next));
}

/// The envelope in a line and the lines behind it.
proof fn lemma_envelope_content_step(line: Seq<u8>, rest: Seq<Seq<u8>>, label: Seq<u8>)
    ensures
        envelope_content(seq![line] + rest, label) == if line == begin_marker(label) {
            body_content(rest, label)
        } else {
            envelope_content(rest, label)
        },
{
    assert((seq![line] + rest).drop_first() =~= rest);
}

/// The body in a line and the lines behind it.
proof fn lemma_body_content_step(line: Seq<u8>, rest: Seq<Seq<u8>>, label: Seq<u8>)
    ensures
        body_content(seq![line] + rest, label) == if line == end_marker(label) {
            Some(Seq::<u8>::empty())
        } else {
            match body_content(rest, label) {
                None => None,
                Some(more) => Some(
                    if is_dashed(line) {
                        more
                    } else {
                        line + more
                    },
                ),
            }
        },
{
    assert((seq![line] + rest).drop_first() =~= rest);
}

/// What a reader has found so far, and what it has yet to find, give the
/// content of the envelope.
spec fn scan_state(
    text: Seq<u8>,
    label: Seq<u8>,
    pos: int,
    in_body: bool,
    content: Seq<u8>,
) -> Option<Seq<u8>> {
    if in_body {
        match body_content(lines(text.skip(pos)), label) {
            None => None,
            Some(rest) => Some(content + rest),
        }
    } else {
        envelope_content(lines(text.skip(pos)), label)
    }
}

/// A line outside the body: it opens the body or is passed over.
proof fn lemma_scan_outside(text: Seq<u8>, label: Seq<u8>, pos: int, to: int, next: int)
    requires
        lines(text.skip(pos)) == seq![text.subrange(pos, to)] + lines(text.skip(next)),
    ensures
        scan_state(text, label, pos, false, Seq::empty()) == scan_state(
            text,
            label,
            next,
            text.subrange(pos, to) == begin_marker(label),
            Seq::empty(),
        ),
{
    let line = text.subrange(pos, to);
    let rest = lines(text.skip(next));
    lemma_envelope_content_step(line, rest, label);
    match body_content(rest, label) {
        None => {},
        Some(more) => {
            assert(Seq::<u8>::empty() + more =~= more);
        },
    }
}

/// A line inside the body: it closes the body, is dropped, or is content.
proof fn lemma_scan_inside(
    text: Seq<u8>,
    label: Seq<u8>,
    pos: int,
    to: int,
    next: int,
    content: Seq<u8>,
)
    requires
        lines(text.skip(pos)) == seq![text.subrange(pos, to)] + lines(text.skip(next)),
    ensures
        scan_state(text, label, pos, true, content) == if text.subrange(pos, to) == end_marker(
            label,
        ) {
            Some(content)
        } else {
            scan_state(
                text,
                label,
                next,
                true,
                if is_dashed(text.subrange(pos, to)) {
                    content
                } else {
                    content + text.subrange(pos, to)
                },
            )
        },
{
    let line = text.subrange(pos, to);
    let rest = lines(text.skip(next));
    lemma_body_content_step(line, rest, label);
    assert(content + Seq::<u8>::empty() =~= content);
    match body_content(rest, label) {
        None => {},
        Some(more) => {
            assert(content + (line + more) =~= content + line + more);
        },
    }
}

/// Finds the envelope of a label in a text and returns the base64 text in
/// it.
pub fn armored_base64_of(text: &[u8], label: &[u8]) -> (payload: Option<Vec<u8>>)
    ensures
        payload is Some <==> armored_base64(text@, label@) is Some,
        payload matches Some(p) ==> armored_base64(text@, label@) == Some(p@),
{
    let begin = begin_prefix_bytes();
    let end = end_prefix_bytes();
    let five = dashes_bytes();
    let mut content: Vec<u8> = Vec::new();
    let mut in_body = false;
    let mut pos: usize = 0;
    assert(text@.skip(0) =~= text@);
    while pos < text.len()
        invariant
            pos <= text@.len(),
            begin@ == begin_prefix(),
            end@ == end_prefix(),
            five@ == dashes(),
            !in_body ==> content@ == Seq::<u8>::empty(),
            armored_base64(text@, label@) == scan_state(
                text@,
                label@,
                pos as int,
                in_body,
                content@,
            ),
        decreases text.len() - pos,
    {
        let stop = line_end(text, pos);
        let next = if stop < text.len() {
            stop + 1
        } else {
            stop
        };
        let to = if stop > pos && text[stop - 1] == 0x0d {
            stop - 1
        } else {
            stop
        };
        proof {
            lemma_next_line(text@, pos as int, stop as int, to as int, next as int);
        }
        if !in_body {
            proof {
                lemma_scan_outside(text@, label@, pos as int, to as int, next as int);
            }
            if is_marker(text, pos, to, begin.as_slice(), label) {
                in_body = true;
            }
        } else {
            proof {
                lemma_scan_inside(text@, label@, pos as int, to as int, next as int, content@);
            }
            if is_marker(text, pos, to, end.as_slice(), label) {
                return Some(content);
            }
            let dashed = to - pos >= 5 && stands_at(text, pos, five.as_slice());
            proof {
                let line = text@.subrange(pos as int, to as int);
                assert(line.len() >= 5 ==> line.take(5) =~= text@.subrange(pos as int, pos + 5));
            }
            if !dashed {
                append(&mut content, vstd::slice::slice_subrange(text, pos, to));
            }
        }
        pos = next;
    }
    assert(lines(text@.skip(pos as int)) =~= Seq::<Seq<u8>>::empty());
    None
}

/// A text without a line feed in it.
pub open spec fn is_single_line(text: Seq<u8>) -> bool {
    forall|i: int| 0 <= i < text.len() ==> #[trigger] text[i] != lf()
}

/// A line, a line feed and more text: the lines are the line and the lines
/// of the rest.
proof fn lemma_lines_cons(line: Seq<u8>, rest: Seq<u8>)
    requires
        is_single_line(line),
    ensures
        lines(line + seq![lf()] + rest) == seq![without_cr(line)] + lines(rest),
{
    let text = line + seq![lf()] + rest;
    let end = line.len() as int;
    assert forall|j: int| 0 <= j < end implies text[j] != lf() by {
        assert(text[j] == line[j]);
    }
    lemma_lines_unfold(text, end);
    assert(text.take(end) =~= line);
    assert(text.skip(end + 1) =~= rest);
}

/// The markers of a label without a line feed are lines of their own.
proof fn lemma_marker_is_line(label: Seq<u8>)
    requires
        is_single_line(label),
    ensures
        is_single_line(begin_marker(label)),
        is_single_line(end_marker(label)),
        without_cr(begin_marker(label)) == begin_marker(label),
        without_cr(end_marker(label)) == end_marker(label),
        begin_marker(label)[0] == 0x2d,
        end_marker(label)[0] == 0x2d,
{
    let begin = begin_marker(label);
    let end = end_marker(label);
    assert forall|i: int| 0 <= i < begin.len() implies #[trigger] begin[i] != lf() by {
        if i < 11 {
        } else if i < 11 + label.len() {
            assert(begin[i] == label[i - 11]);
        } else {
            assert(begin[i] == dashes()[i - 11 - label.len()]);
        }
    }
    assert forall|i: int| 0 <= i < end.len() implies #[trigger] end[i] != lf() by {
        if i < 9 {
        } else if i < 9 + label.len() {
            assert(end[i] == label[i - 9]);
        } else {
            assert(end[i] == dashes()[i - 9 - label.len()]);
        }
    }
    assert(begin.last() == dashes()[4]);
    assert(end.last() == dashes()[4]);
}

/// A line of base64 text is a line of content: no marker, not dropped.
proof fn lemma_base64_line(line: Seq<u8>, label: Seq<u8>)
    requires
        is_base64_text(line),
    ensures
        is_single_line(line),
        without_cr(line) == line,
        !is_dashed(line),
        line != begin_marker(label),
        line != end_marker(label),
{
    if line.len() > 0 {
        assert(is_base64_char(line[0]));
        assert(is_base64_char(line[line.len() - 1]));
        assert(begin_marker(label)[0] == 0x2d);
        assert(end_marker(label)[0] == 0x2d);
        if line.len() >= 5 {
            assert(line.take(5)[0] == line[0]);
            assert(dashes()[0] == 0x2d);
        }
    }
}

/// A label is read off its markers.
proof fn lemma_markers_differ(label: Seq<u8>, other: Seq<u8>)
    requires
        label != other,
    ensures
        begin_marker(label) != begin_marker(other),
        end_marker(label) != begin_marker(other),
{
    let one = begin_marker(label);
    let two = begin_marker(other);
    if one == two {
        assert(one.len() == 16 + label.len());
        assert(two.len() == 16 + other.len());
        assert(label =~= one.subrange(11, (11 + label.len()) as int));
        assert(other =~= two.subrange(11, (11 + other.len()) as int));
        assert(label =~= other);
    }
    assert(end_marker(label)[5] == 0x45);
    assert(two[5] == 0x42);
}

/// What follows the BEGIN line in the envelope of a payload.
pub open spec fn armor_body(payload: Seq<u8>, label: Seq<u8>) -> Seq<u8> {
    wrapped(payload) + seq![lf()] + end_marker(label) + seq![lf()]
}

/// The parts of a text of base64 characters are such texts.
proof fn lemma_base64_parts(text: Seq<u8>, at: int)
    requires
        is_base64_text(text),
        0 <= at <= text.len(),
    ensures
        is_base64_text(text.take(at)),
        is_base64_text(text.skip(at)),
{
    let head = text.take(at);
    let tail = text.skip(at);
    assert forall|i: int| 0 <= i < head.len() implies is_base64_char(#[trigger] head[i]) by {
        assert(head[i] == text[i]);
    }
    assert forall|i: int| 0 <= i < tail.len() implies is_base64_char(#[trigger] tail[i]) by {
        assert(tail[i] == text[i + at]);
    }
}

/// The lines of base64 text in an envelope are read back as that text,
/// whatever follows the envelope.
proof fn lemma_armor_body_content(payload: Seq<u8>, label: Seq<u8>, rest: Seq<u8>)
    requires
        is_base64_text(payload),
        is_single_line(label),
    ensures
        body_content(lines(armor_body(payload, label) + rest), label) == Some(payload),
    decreases payload.len(),
{
    let end = end_marker(label);
    lemma_marker_is_line(label);
    if payload.len() <= 64 {
        let tail = end + seq![lf()] + rest;
        assert(armor_body(payload, label) + rest =~= payload + seq![lf()] + tail);
        lemma_base64_line(payload, label);
        lemma_lines_cons(payload, tail);
        lemma_lines_cons(end, rest);
        lemma_body_content_step(end, lines(rest), label);
        lemma_body_content_step(payload, seq![end] + lines(rest), label);
        assert(payload + Seq::<u8>::empty() =~= payload);
    } else {
        let head = payload.take(64);
        let more = payload.skip(64);
        lemma_base64_parts(payload, 64);
        let tail = armor_body(more, label) + rest;
        assert(armor_body(payload, label) + rest =~= head + seq![lf()] + tail);
        lemma_base64_line(head, label);
        lemma_lines_cons(head, tail);
        lemma_armor_body_content(more, label, rest);
        lemma_body_content_step(head, lines(tail), label);
        assert(head + more =~= payload);
    }
}

/// The lines behind the BEGIN line of an envelope hold no BEGIN line of
/// another label: a reader who looks for one goes on behind the envelope.
proof fn lemma_armor_body_no_envelope(
    payload: Seq<u8>,
    label: Seq<u8>,
    other: Seq<u8>,
    rest: Seq<u8>,
)
    requires
        is_base64_text(payload),
        is_single_line(label),
        label != other,
    ensures
        envelope_content(lines(armor_body(payload, label) + rest), other) == envelope_content(
            lines(rest),
            other,
        ),
    decreases payload.len(),
{
    let end = end_marker(label);
    lemma_marker_is_line(label);
    lemma_markers_differ(label, other);
    if payload.len() <= 64 {
        let tail = end + seq![lf()] + rest;
        assert(armor_body(payload, label) + rest =~= payload + seq![lf()] + tail);
        lemma_base64_line(payload, other);
        lemma_lines_cons(payload, tail);
        lemma_lines_cons(end, rest);
        lemma_envelope_content_step(end, lines(rest), other);
        lemma_envelope_content_step(payload, seq![end] + lines(rest), other);
    } else {
        let head = payload.take(64);
        let more = payload.skip(64);
        lemma_base64_parts(payload, 64);
        let tail = armor_body(more, label) + rest;
        assert(armor_body(payload, label) + rest =~= head + seq![lf()] + tail);
        lemma_base64_line(head, other);
        lemma_lines_cons(head, tail);
        lemma_armor_body_no_envelope(more, label, other, rest);
        lemma_envelope_content_step(head, lines(tail), other);
    }
}

/// An envelope at the start of a text is found under its label, whatever
/// follows it. The label must not hold a line feed, which would break its
/// markers in two.
pub proof fn lemma_armor_found_first(payload: Seq<u8>, label: Seq<u8>, rest: Seq<u8>)
    requires
        is_base64_text(payload),
        is_single_line(label),
    ensures
        armored_base64(armor_text(payload, label) + rest, label) == Some(payload),
{
    let begin = begin_marker(label);
    let body = armor_body(payload, label) + rest;
    lemma_marker_is_line(label);
    assert(armor_text(payload, label) + rest =~= begin + seq![lf()] + body);
    lemma_lines_cons(begin, body);
    lemma_envelope_content_step(begin, lines(body), label);
    lemma_armor_body_content(payload, label, rest);
}

/// A reader who looks for another label passes over an envelope: it finds
/// what it would find in the text behind it.
pub proof fn lemma_armor_passed_over(
    payload: Seq<u8>,
    label: Seq<u8>,
    other: Seq<u8>,
    rest: Seq<u8>,
)
    requires
        is_base64_text(payload),
        is_single_line(label),
        label != other,
    ensures
        armored_base64(armor_text(payload, label) + rest, other) == armored_base64(rest, other),
{
    let begin = begin_marker(label);
    let body = armor_body(payload, label) + rest;
    lemma_marker_is_line(label);
    lemma_markers_differ(label, other);
    assert(armor_text(payload, label) + rest =~= begin + seq![lf()] + body);
    lemma_lines_cons(begin, body);
    lemma_envelope_content_step(begin, lines(body), other);
    lemma_armor_body_no_envelope(payload, label, other, rest);
}

/// An empty line in front of a text changes nothing of what is found in it.
pub proof fn lemma_empty_line_passed_over(rest: Seq<u8>, label: Seq<u8>)
    ensures
        armored_base64(seq![lf()] + rest, label) == armored_base64(rest, label),
{
    let empty = Seq::<u8>::empty();
    assert(seq![lf()] + rest =~= empty + seq![lf()] + rest);
    lemma_lines_cons(empty, rest);
    lemma_envelope_content_step(empty, lines(rest), label);
    assert(begin_marker(label).len() > 0);
}

/// Reading undoes armoring: the base64 text that was put into the envelope
/// of a label is what is found under that label. The label must not hold a
/// line feed, which would break its markers in two.
pub proof fn lemma_armor_round_trip(payload: Seq<u8>, label: Seq<u8>)
    requires
        is_base64_text(payload),
        is_single_line(label),
    ensures
        armored_base64(armor_text(payload, label), label) == Some(payload),
{
    lemma_armor_found_first(payload, label, Seq::empty());
    assert(armor_text(payload, label) + Seq::<u8>::empty() =~= armor_text(payload, label));
}

/// Nothing is found in an envelope under another label than its own.
pub proof fn lemma_armor_label_mismatch(payload: Seq<u8>, label: Seq<u8>, other: Seq<u8>)
    requires
        is_base64_text(payload),
        is_single_line(label),
        label != other,
    ensures
        armored_base64(armor_text(payload, label), other) is None,
{
    lemma_armor_passed_over(payload, label, other, Seq::empty());
    assert(armor_text(payload, label) + Seq::<u8>::empty() =~= armor_text(payload, label));
    assert(lines(Seq::<u8>::empty()) =~= Seq::<Seq<u8>>::empty());
}

/// Armors a byte string and returns the text as its UTF-8 bytes. The base64
/// text in the envelope is made of base64 characters and is read back as
/// the bytes.
pub fn armor_to_bytes(bytes: &[u8], label: &str) -> (text: Vec<u8>)
    ensures
        text@ == armor_text(base64_text(bytes@), encode_utf8(label@)),
        valid_utf8(text@),
        is_base64_text(base64_text(bytes@)),
        base64_bytes(base64_text(bytes@)) == Some(bytes@),
{
    let payload = base64_encode(bytes);
    let text = armor_base64(payload.as_slice(), label.as_bytes());
    proof {
        encode_utf8_valid_utf8(label@);
        lemma_armor_text_is_utf8(payload@, encode_utf8(label@));
    }
    text
}

/// Armors a byte string: its base64 text, in lines of 64 characters, in the
/// envelope of the label. Under a label without a line feed the bytes are
/// read back from the text, and under no other label is anything found.
pub fn armor(bytes: &[u8], label: &str) -> (text: String)
    ensures
        encode_utf8(text@) == armor_text(base64_text(bytes@), encode_utf8(label@)),
        is_single_line(encode_utf8(label@)) ==> armored_bytes(
            encode_utf8(text@),
            encode_utf8(label@),
        ) == Some(bytes@),
        is_single_line(encode_utf8(label@)) ==> forall|other: Seq<u8>|
            other != encode_utf8(label@) ==> #[trigger] armored_bytes(encode_utf8(text@), other)
                is None,
{
    let framed = armor_to_bytes(bytes, label);
    proof {
        let name = encode_utf8(label@);
        let payload = base64_text(bytes@);
        decode_utf8_encode_utf8(framed@);
        if is_single_line(name) {
            lemma_armor_round_trip(payload, name);
            assert forall|other: Seq<u8>| other != name implies #[trigger] armored_bytes(
                framed@,
                other,
            ) is None by {
                lemma_armor_label_mismatch(payload, name, other);
            }
        }
    }
    match string_from_utf8(framed) {
        Some(text) => text,
        None => String::new(),
    }
}

/// The base64 text that an armored text holds under a label.
pub fn extract_base64_from_armor(text: &str, label: &str) -> (payload: Result<
    Vec<u8>,
    CryptoError,
>)
    ensures
        payload is Ok <==> armored_base64(encode_utf8(text@), encode_utf8(label@)) is Some,
        payload matches Ok(p) ==> armored_base64(encode_utf8(text@), encode_utf8(label@)) == Some(
            p@,
        ),
        payload matches Err(e) ==> e == CryptoError::ArmorError,
{
    match armored_base64_of(text.as_bytes(), label.as_bytes()) {
        Some(payload) => Ok(payload),
        None => Err(CryptoError::ArmorError),
    }
}

/// The bytes that an armored text holds under a label. It fails where the
/// text has no BEGIN line of the label with an END line of the label behind
/// it, and where what stands between them is not base64.
pub fn extract_bytes_from_armor(text: &str, label: &str) -> (bytes: Result<Vec<u8>, CryptoError>)
    ensures
        bytes is Ok <==> armored_bytes(encode_utf8(text@), encode_utf8(label@)) is Some,
        bytes matches Ok(b) ==> armored_bytes(encode_utf8(text@), encode_utf8(label@)) == Some(b@),
        bytes matches Err(e) ==> e == CryptoError::ArmorError,
{
    match armored_base64_of(text.as_bytes(), label.as_bytes()) {
        None => Err(CryptoError::ArmorError),
        Some(payload) => match base64_decode(payload.as_slice()) {
            Some(bytes) => Ok(bytes),
            None => Err(CryptoError::ArmorError),
        },
    }
}

/// The label of a master signing key.
pub const MASTER_SIGNING_KEY: &'static str = "MASTER SIGNING KEY";

/// The label of a master verifying key.
pub const MASTER_VERIFYING_KEY: &'static str = "MASTER VERIFYING KEY";

/// The label of a delegate signing key.
pub const DELEGATE_SIGNING_KEY: &'static str = "DELEGATE SIGNING KEY";

/// The label of a delegate certificate.
pub const DELEGATE_CERTIFICATE: &'static str = "DELEGATE CERTIFICATE";

/// The label of a ghost signing key.
pub const GHOST_KEY: &'static str = "GHOST KEY";

/// The label of a ghost-key certificate.
pub const GHOSTKEY_CERTIFICATE: &'static str = "GHOSTKEY CERTIFICATE";

/// The label of a signature over a message.
pub const SIGNATURE: &'static str = "SIGNATURE";

/// A text of letters and blanks is a label that armors and reads back.
proof fn lemma_plain_label(label: Seq<char>)
    requires
        forall|i: int| 0 <= i < label.len() ==> ' ' <= #[trigger] label[i] <= 'Z',
    ensures
        is_single_line(encode_utf8(label)),
{
    assert(is_ascii_chars(label));
    is_ascii_chars_encode_utf8(label);
    let bytes = encode_utf8(label);
    assert forall|i: int| 0 <= i < bytes.len() implies #[trigger] bytes[i] != lf() by {
        assert(label[i] as u8 == bytes[i]);
    }
}

/// None of the labels in use holds a line feed.
pub proof fn lemma_labels_are_single_lines()
    ensures
        is_single_line(encode_utf8(MASTER_SIGNING_KEY@)),
        is_single_line(encode_utf8(MASTER_VERIFYING_KEY@)),
        is_single_line(encode_utf8(DELEGATE_SIGNING_KEY@)),
        is_single_line(encode_utf8(DELEGATE_CERTIFICATE@)),
        is_single_line(encode_utf8(GHOST_KEY@)),
        is_single_line(encode_utf8(GHOSTKEY_CERTIFICATE@)),
        is_single_line(encode_utf8(SIGNATURE@)),
{
    reveal_strlit("MASTER SIGNING KEY");
    reveal_strlit("MASTER VERIFYING KEY");
    reveal_strlit("DELEGATE SIGNING KEY");
    reveal_strlit("DELEGATE CERTIFICATE");
    reveal_strlit("GHOST KEY");
    reveal_strlit("GHOSTKEY CERTIFICATE");
    lemma_plain_label(MASTER_SIGNING_KEY@);
    lemma_plain_label(MASTER_VERIFYING_KEY@);
    lemma_plain_label(DELEGATE_SIGNING_KEY@);
    lemma_plain_label(DELEGATE_CERTIFICATE@);
    lemma_plain_label(GHOST_KEY@);
    lemma_plain_label(GHOSTKEY_CERTIFICATE@);
    reveal_strlit("SIGNATURE");
    lemma_plain_label(SIGNATURE@);
}

/// The label of a ghost key is not that of its certificate.
pub proof fn lemma_ghost_labels_differ()
    ensures
        encode_utf8(GHOST_KEY@) != encode_utf8(GHOSTKEY_CERTIFICATE@),
{
    reveal_strlit("GHOST KEY");
    reveal_strlit("GHOSTKEY CERTIFICATE");
    assert(is_ascii_chars(GHOST_KEY@));
    assert(is_ascii_chars(GHOSTKEY_CERTIFICATE@));
    is_ascii_chars_encode_utf8(GHOST_KEY@);
    is_ascii_chars_encode_utf8(GHOSTKEY_CERTIFICATE@);
}

} // verus!
