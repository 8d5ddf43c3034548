//! Labels from the names of types: `GhostKey` is armored as `GHOST_KEY`.

use vstd::prelude::*;
use vstd::string::*;

verus! {

/// Whether `char::is_uppercase` of std takes the character for an
/// uppercase one.
pub uninterp spec fn is_uppercase_char(c: char) -> bool;

/// What `str::to_uppercase` of std makes of a text.
pub uninterp spec fn uppercase_text(text: Seq<char>) -> Seq<char>;

/// `char::is_uppercase` of std.
#[verifier::external_body]
fn char_is_uppercase(c: char) -> (upper: bool)
    ensures
        upper == is_uppercase_char(c),
{
    c.is_uppercase()
}

/// `str::to_uppercase` of std.
#[verifier::external_body]
fn text_to_uppercase(text: &str) -> (upper: String)
    ensures
        upper@ == uppercase_text(text@),
{
    text.to_uppercase()
}

/// `String::push` of std: the character goes to the end of the text.
#[verifier::external_body]
fn push_char(text: &mut String, c: char)
    ensures
        final(text)@ == old(text)@.push(c),
{
    text.push(c)
}

/// A text with `_` in front of each of its uppercase characters but the
/// first character.
pub open spec fn underscored(text: Seq<char>) -> Seq<char>
    decreases text.len(),
{
    if text.len() == 0 {
        Seq::empty()
    } else if text.len() > 1 && is_uppercase_char(text.last()) {
        underscored(text.drop_last()).push('_').push(text.last())
    } else {
        underscored(text.drop_last()).push(text.last())
    }
}

/// A name in camel case as a label: words apart by `_`, all in uppercase.
pub open spec fn camel_case_upper(text: Seq<char>) -> Seq<char> {
    uppercase_text(underscored(text))
}

/// What is left of a path when it is read from the left and cut behind each
/// `::`: its last segment. `seen` is what has been read of the segment at
/// hand.
pub open spec fn last_segment_from(seen: Seq<char>, rest: Seq<char>) -> Seq<char>
    decreases rest.len(),
{
    if rest.len() < 2 {
        seen + rest
    } else if rest[0] == ':' && rest[1] == ':' {
        last_segment_from(Seq::empty(), rest.skip(2))
    } else {
        last_segment_from(seen.push(rest[0]), rest.skip(1))
    }
}

/// The last segment of a path whose segments stand apart by `::`.
pub open spec fn last_segment(path: Seq<char>) -> Seq<char> {
    last_segment_from(Seq::empty(), path)
}

/// Turns a name in camel case into a label: `_` goes in front of every
/// uppercase character but the first character, and the whole goes to
/// uppercase.
pub fn camel_case_to_upper(s: &str) -> (label: String)
    ensures
        label@ == camel_case_upper(s@),
{
    let len = s.unicode_len();
    let mut result = String::new();
    let mut i: usize = 0;
    assert(s@.take(0) =~= Seq::<char>::empty());
    while i < len
        invariant
            i <= len,
            len == s@.len(),
            result@ == underscored(s@.take(i as int)),
        decreases len - i,
    {
        let c = s.get_char(i);
        proof {
            let next = s@.take(i + 1);
            assert(next.drop_last() =~= s@.take(i as int));
            assert(next.last() == c);
        }
        if char_is_uppercase(c) && i != 0 {
            push_char(&mut result, '_');
        }
        push_char(&mut result, c);
        i += 1;
    }
    assert(s@.take(len as int) =~= s@);
    text_to_uppercase(result.as_str())
}

/// The last segment of a path read up to `at`, where the segment at hand
/// started at `start`, is the last segment of the whole.
proof fn lemma_last_segment_step(path: Seq<char>, start: int, at: int)
    requires
        0 <= start <= at <= path.len(),
    ensures
        path.len() - at >= 2 && path[at] == ':' && path[at + 1] == ':' ==> last_segment_from(
            path.subrange(start, at),
            path.skip(at),
        ) == last_segment_from(Seq::empty(), path.skip(at + 2)),
        path.len() - at >= 2 && !(path[at] == ':' && path[at + 1] == ':') ==> last_segment_from(
            path.subrange(start, at),
            path.skip(at),
        ) == last_segment_from(path.subrange(start, at + 1), path.skip(at + 1)),
        path.len() - at < 2 ==> last_segment_from(path.subrange(start, at), path.skip(at))
            == path.subrange(start, path.len() as int),
{
    let rest = path.skip(at);
    let seen = path.subrange(start, at);
    if path.len() - at >= 2 {
        assert(rest[0] == path[at]);
        assert(rest[1] == path[at + 1]);
        assert(rest.skip(2) =~= path.skip(at + 2));
        assert(rest.skip(1) =~= path.skip(at + 1));
        assert(seen.push(rest[0]) =~= path.subrange(start, at + 1));
    } else {
        assert(seen + rest =~= path.subrange(start, path.len() as int));
    }
}

/// The label of a type from its full name: the last segment of the path,
/// as a label.
pub fn struct_name(full_name: &str) -> (label: String)
    ensures
        label@ == camel_case_upper(last_segment(full_name@)),
{
    let len = full_name.unicode_len();
    let mut start: usize = 0;
    let mut at: usize = 0;
    assert(full_name@.skip(0) =~= full_name@);
    assert(full_name@.subrange(0, 0) =~= Seq::<char>::empty());
    while len - at >= 2
        invariant
            start <= at <= len,
            len == full_name@.len(),
            last_segment(full_name@) == last_segment_from(
                full_name@.subrange(start as int, at as int),
                full_name@.skip(at as int),
            ),
        decreases len - at,
    {
        proof {
            lemma_last_segment_step(full_name@, start as int, at as int);
        }
        if full_name.get_char(at) == ':' && full_name.get_char(at + 1) == ':' {
            at += 2;
            start = at;
            assert(full_name@.subrange(start as int, at as int) =~= Seq::<char>::empty());
        } else {
            at += 1;
        }
    }
    proof {
        lemma_last_segment_step(full_name@, start as int, at as int);
    }
    camel_case_to_upper(full_name.substring_char(start, len))
}

} // verus!
