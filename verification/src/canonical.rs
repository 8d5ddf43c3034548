//! The canonical binary encoding of the values that records are made of.
//!
//! Every value has exactly one encoding, the shortest that MessagePack
//! offers for it: an integer below 128 is one byte, a larger one follows the
//! marker `0xcc`; a byte string is an array of such integers behind its
//! length; a text is its UTF-8 bytes behind their length. Readers accept the
//! canonical encoding of a value and nothing else, so that reading and
//! writing are inverse to each other.

use vstd::prelude::*;
use vstd::utf8::*;

verus! {

/// The longest byte string or text that can be encoded.
pub open spec fn max_len() -> nat {
    0xffff_ffff
}

/// The encoding of an integer below 256.
pub open spec fn uint8_encoding(value: u8) -> Seq<u8> {
    if value < 0x80 {
        seq![value]
    } else {
        seq![0xccu8, value]
    }
}

/// A number below 65536 in two bytes, the high byte first.
pub open spec fn be16(n: nat) -> Seq<u8> {
    seq![(n / 0x100) as u8, (n % 0x100) as u8]
}

/// A number below 2^32 in four bytes, the highest byte first.
pub open spec fn be32(n: nat) -> Seq<u8> {
    seq![
        (n / 0x100_0000) as u8,
        (n / 0x1_0000 % 0x100) as u8,
        (n / 0x100 % 0x100) as u8,
        (n % 0x100) as u8,
    ]
}

/// What stands in front of an array of `n` items.
pub open spec fn array_header(n: nat) -> Seq<u8> {
    if n < 16 {
        seq![(0x90 + n) as u8]
    } else if n < 0x1_0000 {
        seq![0xdcu8] + be16(n)
    } else {
        seq![0xddu8] + be32(n)
    }
}

/// What stands in front of a text of `n` bytes.
pub open spec fn text_header(n: nat) -> Seq<u8> {
    if n < 32 {
        seq![(0xa0 + n) as u8]
    } else if n < 0x100 {
        seq![0xd9u8, n as u8]
    } else if n < 0x1_0000 {
        seq![0xdau8] + be16(n)
    } else {
        seq![0xdbu8] + be32(n)
    }
}

/// The encodings of the integers of a sequence, one after the other.
pub open spec fn uint8_run(values: Seq<u8>) -> Seq<u8>
    decreases values.len(),
{
    if values.len() == 0 {
        seq![]
    } else {
        uint8_encoding(values[0]) + uint8_run(values.drop_first())
    }
}

/// The encoding of a byte string: an array of its bytes.
pub open spec fn byte_string_encoding(bytes: Seq<u8>) -> Seq<u8> {
    array_header(bytes.len()) + uint8_run(bytes)
}

/// The encoding of a text: its UTF-8 bytes behind their number.
pub open spec fn text_encoding(text: Seq<char>) -> Seq<u8> {
    text_header(encode_utf8(text).len()) + encode_utf8(text)
}

/// The integer whose encoding the input starts with, and the length of that
/// encoding.
pub open spec fn parse_uint8(input: Seq<u8>) -> Option<(u8, nat)> {
    if input.len() >= 1 && input[0] < 0x80 {
        Some((input[0], 1nat))
    } else if input.len() >= 2 && input[0] == 0xcc && input[1] >= 0x80 {
        Some((input[1], 2nat))
    } else {
        None
    }
}

/// The number that two bytes denote, the high byte first.
pub open spec fn be16_value(input: Seq<u8>) -> nat {
    (input[0] as nat) * 0x100 + input[1] as nat
}

/// The number that four bytes denote, the highest byte first.
pub open spec fn be32_value(input: Seq<u8>) -> nat {
    (input[0] as nat) * 0x100_0000 + (input[1] as nat) * 0x1_0000 + (input[2] as nat) * 0x100
        + input[3] as nat
}

/// The item count whose array header the input starts with, and the length
/// of that header.
pub open spec fn parse_array_header(input: Seq<u8>) -> Option<(nat, nat)> {
    if input.len() >= 1 && 0x90 <= input[0] < 0xa0 {
        Some(((input[0] - 0x90) as nat, 1nat))
    } else if input.len() >= 3 && input[0] == 0xdc && be16_value(input.skip(1)) >= 16 {
        Some((be16_value(input.skip(1)), 3nat))
    } else if input.len() >= 5 && input[0] == 0xdd && be32_value(input.skip(1)) >= 0x1_0000 {
        Some((be32_value(input.skip(1)), 5nat))
    } else {
        None
    }
}

/// The byte count whose text header the input starts with, and the length of
/// that header.
pub open spec fn parse_text_header(input: Seq<u8>) -> Option<(nat, nat)> {
    if input.len() >= 1 && 0xa0 <= input[0] < 0xc0 {
        Some(((input[0] - 0xa0) as nat, 1nat))
    } else if input.len() >= 2 && input[0] == 0xd9 && input[1] >= 32 {
        Some((input[1] as nat, 2nat))
    } else if input.len() >= 3 && input[0] == 0xda && be16_value(input.skip(1)) >= 0x100 {
        Some((be16_value(input.skip(1)), 3nat))
    } else if input.len() >= 5 && input[0] == 0xdb && be32_value(input.skip(1)) >= 0x1_0000 {
        Some((be32_value(input.skip(1)), 5nat))
    } else {
        None
    }
}

/// The `count` integers whose encodings the input starts with, and the
/// length of those encodings together.
pub open spec fn parse_uint8_run(input: Seq<u8>, count: nat) -> Option<(Seq<u8>, nat)>
    decreases count,
{
    if count == 0 {
        Some((Seq::<u8>::empty(), 0nat))
    } else {
        match parse_uint8(input) {
            None => None,
            Some((value, used)) => match parse_uint8_run(input.skip(used as int), (count - 1) as nat) {
                None => None,
                Some((values, more)) => Some((seq![value] + values, used + more)),
            },
        }
    }
}

/// The byte string whose encoding the input starts with, and the length of
/// that encoding.
pub open spec fn parse_byte_string(input: Seq<u8>) -> Option<(Seq<u8>, nat)> {
    match parse_array_header(input) {
        None => None,
        Some((count, used)) => match parse_uint8_run(input.skip(used as int), count) {
            None => None,
            Some((values, more)) => Some((values, used + more)),
        },
    }
}

/// The text whose encoding the input starts with, and the length of that
/// encoding.
pub open spec fn parse_text(input: Seq<u8>) -> Option<(Seq<char>, nat)> {
    match parse_text_header(input) {
        None => None,
        Some((count, used)) => {
            let bytes = input.subrange(used as int, (used + count) as int);
            if used + count <= input.len() && valid_utf8(bytes) {
                Some((decode_utf8(bytes), used + count))
            } else {
                None
            }
        },
    }
}

/// `String::from_utf8` of std: the text that the bytes are the UTF-8
/// encoding of, where they are one.
#[verifier::external_body]
pub(crate) fn string_from_utf8(bytes: Vec<u8>) -> (text: Option<String>)
    ensures
        text is Some <==> valid_utf8(bytes@),
        text matches Some(t) ==> t@ == decode_utf8(bytes@),
{
    match String::from_utf8(bytes) {
        Ok(text) => Some(text),
        Err(_) => None,
    }
}

/// Appends the encoding of an integer below 256.
pub fn write_uint8(out: &mut Vec<u8>, value: u8)
    ensures
        final(out)@ == old(out)@ + uint8_encoding(value),
{
    if value < 0x80 {
        out.push(value);
        assert(out@ =~= old(out)@ + uint8_encoding(value));
    } else {
        out.push(0xcc);
        out.push(value);
        assert(out@ =~= old(out)@ + uint8_encoding(value));
    }
}

/// Appends a number below 65536 in two bytes.
fn write_be16(out: &mut Vec<u8>, n: u32)
    requires
        n < 0x1_0000,
    ensures
        final(out)@ == old(out)@ + be16(n as nat),
{
    out.push((n / 0x100) as u8);
    out.push((n % 0x100) as u8);
    assert(out@ =~= old(out)@ + be16(n as nat));
}

/// Appends a number in four bytes.
fn write_be32(out: &mut Vec<u8>, n: u32)
    ensures
        final(out)@ == old(out)@ + be32(n as nat),
{
    out.push((n / 0x100_0000) as u8);
    out.push((n / 0x1_0000 % 0x100) as u8);
    out.push((n / 0x100 % 0x100) as u8);
    out.push((n % 0x100) as u8);
    assert(out@ =~= old(out)@ + be32(n as nat));
}

/// Appends the header of an array of `n` items.
pub fn write_array_header(out: &mut Vec<u8>, n: u32)
    ensures
        final(out)@ == old(out)@ + array_header(n as nat),
{
    if n < 16 {
        out.push((0x90 + n) as u8);
        assert(out@ =~= old(out)@ + array_header(n as nat));
    } else if n < 0x1_0000 {
        out.push(0xdc);
        write_be16(out, n);
        assert(out@ =~= old(out)@ + array_header(n as nat));
    } else {
        out.push(0xdd);
        write_be32(out, n);
        assert(out@ =~= old(out)@ + array_header(n as nat));
    }
}

/// Appends the header of a text of `n` bytes.
pub fn write_text_header(out: &mut Vec<u8>, n: u32)
    ensures
        final(out)@ == old(out)@ + text_header(n as nat),
{
    if n < 32 {
        out.push((0xa0 + n) as u8);
        assert(out@ =~= old(out)@ + text_header(n as nat));
    } else if n < 0x100 {
        out.push(0xd9);
        out.push(n as u8);
        assert(out@ =~= old(out)@ + text_header(n as nat));
    } else if n < 0x1_0000 {
        out.push(0xda);
        write_be16(out, n);
        assert(out@ =~= old(out)@ + text_header(n as nat));
    } else {
        out.push(0xdb);
        write_be32(out, n);
        assert(out@ =~= old(out)@ + text_header(n as nat));
    }
}

/// The encoding of a sequence of integers is that of its front part followed
/// by that of the rest.
pub proof fn lemma_uint8_run_concat(front: Seq<u8>, back: Seq<u8>)
    ensures
        uint8_run(front + back) == uint8_run(front) + uint8_run(back),
    decreases front.len(),
{
    if front.len() == 0 {
        assert(front + back =~= back);
        assert(uint8_run(front) + uint8_run(back) =~= uint8_run(back));
    } else {
        lemma_uint8_run_concat(front.drop_first(), back);
        assert((front + back).drop_first() =~= front.drop_first() + back);
        assert(uint8_run(front + back) =~= uint8_run(front) + uint8_run(back));
    }
}

/// Whether a length fits the encoding.
pub fn fits(len: usize) -> (fit: bool)
    ensures
        fit == (len <= max_len()),
{
    len <= 0xffff_ffff
}

/// Appends the encoding of a byte string.
pub fn write_byte_string(out: &mut Vec<u8>, bytes: &[u8])
    requires
        bytes@.len() <= max_len(),
    ensures
        final(out)@ == old(out)@ + byte_string_encoding(bytes@),
{
    write_array_header(out, bytes.len() as u32);
    let mut i: usize = 0;
    while i < bytes.len()
        invariant
            i <= bytes.len(),
            out@ == old(out)@ + array_header(bytes@.len()) + uint8_run(bytes@.take(i as int)),
        decreases bytes.len() - i,
    {
        write_uint8(out, bytes[i]);
        proof {
            let front = bytes@.take(i as int);
            let item = seq![bytes@[i as int]];
            lemma_uint8_run_concat(front, item);
            assert(item.drop_first() =~= Seq::<u8>::empty());
            assert(uint8_run(item.drop_first()) =~= Seq::<u8>::empty());
            assert(uint8_run(item) =~= uint8_encoding(bytes@[i as int]));
            assert(bytes@.take(i + 1) =~= front + item);
            assert(out@ =~= old(out)@ + array_header(bytes@.len()) + uint8_run(
                bytes@.take(i + 1),
            ));
        }
        i += 1;
    }
    assert(bytes@.take(i as int) =~= bytes@);
    assert(out@ =~= old(out)@ + byte_string_encoding(bytes@));
}

/// Appends the encoding of a text.
pub fn write_text(out: &mut Vec<u8>, text: &str)
    requires
        encode_utf8(text@).len() <= max_len(),
    ensures
        final(out)@ == old(out)@ + text_encoding(text@),
{
    let bytes = text.as_bytes();
    write_text_header(out, bytes.len() as u32);
    let mut i: usize = 0;
    while i < bytes.len()
        invariant
            i <= bytes.len(),
            bytes@ == encode_utf8(text@),
            out@ == old(out)@ + text_header(bytes@.len()) + bytes@.take(i as int),
        decreases bytes.len() - i,
    {
        out.push(bytes[i]);
        assert(bytes@.take(i + 1) =~= bytes@.take(i as int).push(bytes@[i as int]));
        assert(out@ =~= old(out)@ + text_header(bytes@.len()) + bytes@.take(i + 1));
        i += 1;
    }
    assert(bytes@.take(i as int) =~= bytes@);
    assert(out@ =~= old(out)@ + text_encoding(text@));
}

/// Reads the integer encoded at `pos`; returns it with the position behind
/// it.
pub fn read_uint8(input: &[u8], pos: usize) -> (item: Option<(u8, usize)>)
    requires
        pos <= input@.len(),
    ensures
        item is Some <==> parse_uint8(input@.skip(pos as int)) is Some,
        item matches Some((value, next)) ==> parse_uint8(input@.skip(pos as int)) == Some(
            (value, (next - pos) as nat),
        ) && pos < next <= input@.len(),
{
    let len = input.len();
    if pos < len && input[pos] < 0x80 {
        Some((input[pos], pos + 1))
    } else if len - pos >= 2 && input[pos] == 0xcc && input[pos + 1] >= 0x80 {
        Some((input[pos + 1], pos + 2))
    } else {
        None
    }
}

/// Reads the two-byte number at `pos`.
fn read_be16(input: &[u8], pos: usize) -> (n: u32)
    requires
        pos + 2 <= input@.len(),
    ensures
        n == be16_value(input@.skip(pos as int)),
{
    let high: u32 = input[pos] as u32;
    let low: u32 = input[pos + 1] as u32;
    high * 0x100 + low
}

/// Reads the four-byte number at `pos`.
fn read_be32(input: &[u8], pos: usize) -> (n: u32)
    requires
        pos + 4 <= input@.len(),
    ensures
        n == be32_value(input@.skip(pos as int)),
{
    let b0: u32 = input[pos] as u32;
    let b1: u32 = input[pos + 1] as u32;
    let b2: u32 = input[pos + 2] as u32;
    let b3: u32 = input[pos + 3] as u32;
    b0 * 0x100_0000 + b1 * 0x1_0000 + b2 * 0x100 + b3
}

/// Reads the array header at `pos`; returns the item count with the position
/// behind the header.
pub fn read_array_header(input: &[u8], pos: usize) -> (header: Option<(u32, usize)>)
    requires
        pos <= input@.len(),
    ensures
        header is Some <==> parse_array_header(input@.skip(pos as int)) is Some,
        header matches Some((count, next)) ==> parse_array_header(input@.skip(pos as int))
            == Some((count as nat, (next - pos) as nat)) && pos < next <= input@.len(),
{
    let len = input.len();
    let ghost rest = input@.skip(pos as int);
    if pos >= len {
        return None;
    }
    let marker = input[pos];
    assert(rest.skip(1) =~= input@.skip(pos + 1));
    if 0x90 <= marker && marker < 0xa0 {
        Some(((marker - 0x90) as u32, pos + 1))
    } else if marker == 0xdc && len - pos >= 3 {
        let count = read_be16(input, pos + 1);
        if count >= 16 {
            Some((count, pos + 3))
        } else {
            None
        }
    } else if marker == 0xdd && len - pos >= 5 {
        let count = read_be32(input, pos + 1);
        if count >= 0x1_0000 {
            Some((count, pos + 5))
        } else {
            None
        }
    } else {
        None
    }
}

/// Reads the text header at `pos`; returns the byte count with the position
/// behind the header.
pub fn read_text_header(input: &[u8], pos: usize) -> (header: Option<(u32, usize)>)
    requires
        pos <= input@.len(),
    ensures
        header is Some <==> parse_text_header(input@.skip(pos as int)) is Some,
        header matches Some((count, next)) ==> parse_text_header(input@.skip(pos as int))
            == Some((count as nat, (next - pos) as nat)) && pos < next <= input@.len(),
{
    let len = input.len();
    let ghost rest = input@.skip(pos as int);
    if pos >= len {
        return None;
    }
    let marker = input[pos];
    assert(rest.skip(1) =~= input@.skip(pos + 1));
    if 0xa0 <= marker && marker < 0xc0 {
        Some(((marker - 0xa0) as u32, pos + 1))
    } else if marker == 0xd9 && len - pos >= 2 {
        let count = input[pos + 1];
        if count >= 32 {
            Some((count as u32, pos + 2))
        } else {
            None
        }
    } else if marker == 0xda && len - pos >= 3 {
        let count = read_be16(input, pos + 1);
        if count >= 0x100 {
            Some((count, pos + 3))
        } else {
            None
        }
    } else if marker == 0xdb && len - pos >= 5 {
        let count = read_be32(input, pos + 1);
        if count >= 0x1_0000 {
            Some((count, pos + 5))
        } else {
            None
        }
    } else {
        None
    }
}

/// Reading `done + 1` integers is reading `done` of them and then one more.
proof fn lemma_parse_uint8_run_step(input: Seq<u8>, done: nat)
    ensures
        parse_uint8_run(input, done + 1) == match parse_uint8_run(input, done) {
            None => None,
            Some((values, used)) => match parse_uint8(input.skip(used as int)) {
                None => None,
                Some((value, more)) => Some((values.push(value), used + more)),
            },
        },
        parse_uint8_run(input, done) matches Some((values, used)) ==> values.len() == done && done
            <= used <= input.len(),
    decreases done,
{
    if done == 0 {
        assert(input.skip(0) =~= input);
        match parse_uint8(input) {
            None => {},
            Some((value, more)) => {
                assert(parse_uint8_run(input.skip(more as int), 0) == Some(
                    (Seq::<u8>::empty(), 0nat),
                ));
                assert(seq![value] + Seq::<u8>::empty() =~= Seq::<u8>::empty().push(value));
            },
        }
    } else {
        match parse_uint8(input) {
            None => {},
            Some((first, used)) => {
                let rest = input.skip(used as int);
                lemma_parse_uint8_run_step(rest, (done - 1) as nat);
                match parse_uint8_run(rest, (done - 1) as nat) {
                    None => {},
                    Some((values, more)) => {
                        assert(rest.skip(more as int) =~= input.skip((used + more) as int));
                        match parse_uint8(rest.skip(more as int)) {
                            None => {},
                            Some((value, last)) => {
                                assert(seq![first] + values.push(value) =~= (seq![first]
                                    + values).push(value));
                            },
                        }
                    },
                }
            },
        }
    }
}

/// Reads the byte string encoded at `pos`; returns it with the position
/// behind it.
pub fn read_byte_string(input: &[u8], pos: usize) -> (item: Option<(Vec<u8>, usize)>)
    requires
        pos <= input@.len(),
    ensures
        item is Some <==> parse_byte_string(input@.skip(pos as int)) is Some,
        item matches Some((bytes, next)) ==> parse_byte_string(input@.skip(pos as int)) == Some(
            (bytes@, (next - pos) as nat),
        ) && pos < next <= input@.len(),
{
    let (count, start) = match read_array_header(input, pos) {
        Some(header) => header,
        None => {
            return None;
        },
    };
    let ghost body = input@.skip(start as int);
    assert(body =~= input@.skip(pos as int).skip(start - pos));
    let mut bytes: Vec<u8> = Vec::new();
    let mut at: usize = start;
    let mut done: u32 = 0;
    while done < count
        invariant
            done <= count,
            start <= at <= input@.len(),
            pos < start,
            body == input@.skip(start as int),
            body == input@.skip(pos as int).skip(start - pos),
            parse_array_header(input@.skip(pos as int)) == Some(
                (count as nat, (start - pos) as nat),
            ),
            parse_uint8_run(body, done as nat) == Some((bytes@, (at - start) as nat)),
        decreases count - done,
    {
        proof {
            lemma_parse_uint8_run_step(body, done as nat);
            assert(body.skip(at - start) =~= input@.skip(at as int));
        }
        match read_uint8(input, at) {
            None => {
                proof {
                    lemma_parse_uint8_run_none(body, (done + 1) as nat, count as nat);
                }
                return None;
            },
            Some((value, next)) => {
                bytes.push(value);
                at = next;
                done += 1;
            },
        }
    }
    Some((bytes, at))
}

/// Where the first integers cannot be read, neither can more of them.
proof fn lemma_parse_uint8_run_none(input: Seq<u8>, few: nat, many: nat)
    requires
        few <= many,
        parse_uint8_run(input, few) is None,
    ensures
        parse_uint8_run(input, many) is None,
    decreases many - few,
{
    if few < many {
        lemma_parse_uint8_run_step(input, few);
        lemma_parse_uint8_run_none(input, few + 1, many);
    }
}

/// Reads the text encoded at `pos`; returns it with the position behind it.
pub fn read_text(input: &[u8], pos: usize) -> (item: Option<(String, usize)>)
    requires
        pos <= input@.len(),
    ensures
        item is Some <==> parse_text(input@.skip(pos as int)) is Some,
        item matches Some((text, next)) ==> parse_text(input@.skip(pos as int)) == Some(
            (text@, (next - pos) as nat),
        ) && pos < next <= input@.len(),
{
    let (count, start) = match read_text_header(input, pos) {
        Some(header) => header,
        None => {
            return None;
        },
    };
    let count = count as usize;
    if input.len() - start < count {
        return None;
    }
    let ghost rest = input@.skip(pos as int);
    assert(rest.subrange(start - pos, start - pos + count) =~= input@.subrange(
        start as int,
        start + count,
    ));
    let bytes = vstd::slice::slice_to_vec(vstd::slice::slice_subrange(input, start, start + count));
    match string_from_utf8(bytes) {
        Some(text) => Some((text, start + count)),
        None => None,
    }
}

/// An integer is read back from its encoding, whatever follows.
pub proof fn lemma_parse_uint8_encoding(value: u8, rest: Seq<u8>)
    ensures
        parse_uint8(uint8_encoding(value) + rest) == Some((value, uint8_encoding(value).len())),
{
}

/// What an integer was read from is its encoding.
pub proof fn lemma_parse_uint8_canonical(input: Seq<u8>)
    requires
        parse_uint8(input) is Some,
    ensures
        ({
            let (value, used) = parse_uint8(input)->0;
            used <= input.len() && input.take(used as int) == uint8_encoding(value)
        }),
{
    let (value, used) = parse_uint8(input)->0;
    assert(input.take(used as int) =~= uint8_encoding(value));
}

/// A two-byte number is read back.
proof fn lemma_be16_round_trip(n: nat, rest: Seq<u8>)
    requires
        n < 0x1_0000,
    ensures
        be16_value(be16(n) + rest) == n,
{
}

/// A four-byte number is read back.
proof fn lemma_be32_round_trip(n: nat, rest: Seq<u8>)
    requires
        n <= max_len(),
    ensures
        be32_value(be32(n) + rest) == n,
{
    let b0 = n / 0x100_0000;
    let b1 = n / 0x1_0000 % 0x100;
    let b2 = n / 0x100 % 0x100;
    let b3 = n % 0x100;
    assert(b0 * 0x100_0000 + b1 * 0x1_0000 + b2 * 0x100 + b3 == n);
}

/// Two bytes are the two-byte form of the number they denote.
proof fn lemma_be16_canonical(input: Seq<u8>)
    requires
        input.len() >= 2,
    ensures
        be16(be16_value(input)) == input.take(2),
        be16_value(input) < 0x1_0000,
{
    assert(be16(be16_value(input)) =~= input.take(2));
}

/// Four bytes are the four-byte form of the number they denote.
proof fn lemma_be32_canonical(input: Seq<u8>)
    requires
        input.len() >= 4,
    ensures
        be32(be32_value(input)) == input.take(4),
        be32_value(input) <= max_len(),
{
    let n = be32_value(input);
    assert(n / 0x100_0000 == input[0]);
    assert(n / 0x1_0000 % 0x100 == input[1]);
    assert(n / 0x100 % 0x100 == input[2]);
    assert(n % 0x100 == input[3]);
    assert(be32(n) =~= input.take(4));
}

/// An item count is read back from its array header, whatever follows.
pub proof fn lemma_parse_array_header_encoding(n: nat, rest: Seq<u8>)
    requires
        n <= max_len(),
    ensures
        parse_array_header(array_header(n) + rest) == Some((n, array_header(n).len())),
{
    let input = array_header(n) + rest;
    if n < 16 {
    } else if n < 0x1_0000 {
        assert(input.skip(1) =~= be16(n) + rest);
        lemma_be16_round_trip(n, rest);
    } else {
        assert(input.skip(1) =~= be32(n) + rest);
        lemma_be32_round_trip(n, rest);
    }
}

/// What an item count was read from is its array header.
pub proof fn lemma_parse_array_header_canonical(input: Seq<u8>)
    requires
        parse_array_header(input) is Some,
    ensures
        ({
            let (n, used) = parse_array_header(input)->0;
            n <= max_len() && used <= input.len() && input.take(used as int) == array_header(n)
        }),
{
    let (n, used) = parse_array_header(input)->0;
    if 0x90 <= input[0] < 0xa0 {
        assert(input.take(1) =~= array_header(n));
    } else if input[0] == 0xdc {
        lemma_be16_canonical(input.skip(1));
        assert(input.take(3) =~= seq![0xdcu8] + input.skip(1).take(2));
    } else {
        lemma_be32_canonical(input.skip(1));
        assert(input.take(5) =~= seq![0xddu8] + input.skip(1).take(4));
    }
}

/// A byte count is read back from its text header, whatever follows.
pub proof fn lemma_parse_text_header_encoding(n: nat, rest: Seq<u8>)
    requires
        n <= max_len(),
    ensures
        parse_text_header(text_header(n) + rest) == Some((n, text_header(n).len())),
{
    let input = text_header(n) + rest;
    if n < 32 {
    } else if n < 0x100 {
    } else if n < 0x1_0000 {
        assert(input.skip(1) =~= be16(n) + rest);
        lemma_be16_round_trip(n, rest);
    } else {
        assert(input.skip(1) =~= be32(n) + rest);
        lemma_be32_round_trip(n, rest);
    }
}

/// What a byte count was read from is its text header.
pub proof fn lemma_parse_text_header_canonical(input: Seq<u8>)
    requires
        parse_text_header(input) is Some,
    ensures
        ({
            let (n, used) = parse_text_header(input)->0;
            n <= max_len() && used <= input.len() && input.take(used as int) == text_header(n)
        }),
{
    let (n, used) = parse_text_header(input)->0;
    if 0xa0 <= input[0] < 0xc0 {
        assert(input.take(1) =~= text_header(n));
    } else if input[0] == 0xd9 {
        assert(input.take(2) =~= text_header(n));
    } else if input[0] == 0xda {
        lemma_be16_canonical(input.skip(1));
        assert(input.take(3) =~= seq![0xdau8] + input.skip(1).take(2));
    } else {
        lemma_be32_canonical(input.skip(1));
        assert(input.take(5) =~= seq![0xdbu8] + input.skip(1).take(4));
    }
}

/// A sequence of integers is read back from its encoding, whatever follows.
pub proof fn lemma_parse_uint8_run_encoding(values: Seq<u8>, rest: Seq<u8>)
    ensures
        parse_uint8_run(uint8_run(values) + rest, values.len()) == Some(
            (values, uint8_run(values).len()),
        ),
    decreases values.len(),
{
    if values.len() > 0 {
        let head = uint8_encoding(values[0]);
        let tail = uint8_run(values.drop_first());
        let input = uint8_run(values) + rest;
        assert(input =~= head + (tail + rest));
        lemma_parse_uint8_encoding(values[0], tail + rest);
        assert(input.skip(head.len() as int) =~= tail + rest);
        lemma_parse_uint8_run_encoding(values.drop_first(), rest);
        assert(seq![values[0]] + values.drop_first() =~= values);
    } else {
        assert(values =~= Seq::<u8>::empty());
    }
}

/// What a sequence of integers was read from is its encoding.
pub proof fn lemma_parse_uint8_run_canonical(input: Seq<u8>, count: nat)
    requires
        parse_uint8_run(input, count) is Some,
    ensures
        ({
            let (values, used) = parse_uint8_run(input, count)->0;
            values.len() == count && used <= input.len() && input.take(used as int) == uint8_run(
                values,
            )
        }),
    decreases count,
{
    if count == 0 {
        assert(input.take(0) =~= uint8_run(Seq::<u8>::empty()));
    } else {
        let (value, used) = parse_uint8(input)->0;
        let rest = input.skip(used as int);
        let (values, more) = parse_uint8_run(rest, (count - 1) as nat)->0;
        lemma_parse_uint8_canonical(input);
        lemma_parse_uint8_run_canonical(rest, (count - 1) as nat);
        let all = seq![value] + values;
        assert(all.drop_first() =~= values);
        assert(input.take((used + more) as int) =~= input.take(used as int) + rest.take(
            more as int,
        ));
    }
}

/// A byte string is read back from its encoding, whatever follows.
pub proof fn lemma_parse_byte_string_encoding(bytes: Seq<u8>, rest: Seq<u8>)
    requires
        bytes.len() <= max_len(),
    ensures
        parse_byte_string(byte_string_encoding(bytes) + rest) == Some(
            (bytes, byte_string_encoding(bytes).len()),
        ),
{
    let header = array_header(bytes.len());
    let input = byte_string_encoding(bytes) + rest;
    assert(input =~= header + (uint8_run(bytes) + rest));
    lemma_parse_array_header_encoding(bytes.len(), uint8_run(bytes) + rest);
    assert(input.skip(header.len() as int) =~= uint8_run(bytes) + rest);
    lemma_parse_uint8_run_encoding(bytes, rest);
}

/// What a byte string was read from is its encoding.
pub proof fn lemma_parse_byte_string_canonical(input: Seq<u8>)
    requires
        parse_byte_string(input) is Some,
    ensures
        ({
            let (bytes, used) = parse_byte_string(input)->0;
            bytes.len() <= max_len() && used <= input.len() && input.take(used as int)
                == byte_string_encoding(bytes)
        }),
{
    let (count, start) = parse_array_header(input)->0;
    let body = input.skip(start as int);
    let (bytes, more) = parse_uint8_run(body, count)->0;
    lemma_parse_array_header_canonical(input);
    lemma_parse_uint8_run_canonical(body, count);
    assert(input.take((start + more) as int) =~= input.take(start as int) + body.take(
        more as int,
    ));
}

/// A text is read back from its encoding, whatever follows.
pub proof fn lemma_parse_text_encoding(text: Seq<char>, rest: Seq<u8>)
    requires
        encode_utf8(text).len() <= max_len(),
    ensures
        parse_text(text_encoding(text) + rest) == Some((text, text_encoding(text).len())),
{
    let utf8 = encode_utf8(text);
    let header = text_header(utf8.len());
    let input = text_encoding(text) + rest;
    assert(input =~= header + (utf8 + rest));
    lemma_parse_text_header_encoding(utf8.len(), utf8 + rest);
    assert(input.subrange(header.len() as int, (header.len() + utf8.len()) as int) =~= utf8);
    encode_utf8_valid_utf8(text);
    encode_utf8_decode_utf8(text);
}

/// What a text was read from is its encoding.
pub proof fn lemma_parse_text_canonical(input: Seq<u8>)
    requires
        parse_text(input) is Some,
    ensures
        ({
            let (text, used) = parse_text(input)->0;
            encode_utf8(text).len() <= max_len() && used <= input.len() && input.take(
                used as int,
            ) == text_encoding(text)
        }),
{
    let (count, start) = parse_text_header(input)->0;
    let bytes = input.subrange(start as int, (start + count) as int);
    lemma_parse_text_header_canonical(input);
    decode_utf8_encode_utf8(bytes);
    assert(input.take((start + count) as int) =~= input.take(start as int) + bytes);
}

} // verus!
