//! Texts as the profiler stream keeps them.
//!
//! A scope's name, target and data are each written to the stream as at most
//! [`MAX_SCOPE_TEXT`] bytes of UTF-8. The stream cuts a longer text by itself
//! where its byte at the limit starts a character, and cannot where it does
//! not. The functions here tell the two apart and cut the texts of the second
//! kind to the longest prefix of whole characters that fits.

use vstd::prelude::*;
use vstd::string::*;
use vstd::utf8::*;

verus! {

/// The number of bytes that the profiler stream keeps of one text. This is
/// the limit of puffin 0.16, whose stream writes the length of a text into
/// one byte, and has to follow it.
pub const MAX_SCOPE_TEXT: usize = 127;

/// The greatest character boundary of `bytes` that is at most `limit`.
pub open spec fn boundary_at_or_below(bytes: Seq<u8>, limit: int) -> int
    decreases limit,
{
    if limit <= 0 {
        0
    } else if is_char_boundary(bytes, limit) {
        limit
    } else {
        boundary_at_or_below(bytes, limit - 1)
    }
}

/// The number of bytes of `bytes` that are kept: all of them where they fit,
/// else as many whole characters as fit.
pub open spec fn kept_len(bytes: Seq<u8>) -> int {
    if bytes.len() <= MAX_SCOPE_TEXT {
        bytes.len() as int
    } else {
        boundary_at_or_below(bytes, MAX_SCOPE_TEXT as int)
    }
}

/// The part of `text` that is kept.
pub open spec fn scope_text(text: Seq<char>) -> Seq<char> {
    decode_utf8(encode_utf8(text).subrange(0, kept_len(encode_utf8(text))))
}

/// Whether the profiler can cut `text` at its limit by itself: the text is
/// short enough, or its byte at the limit starts a character.
pub open spec fn fits_scope(text: Seq<char>) -> bool {
    encode_utf8(text).len() <= MAX_SCOPE_TEXT || is_char_boundary(
        encode_utf8(text),
        MAX_SCOPE_TEXT as int,
    )
}

/// The text that is handed to the profiler for `text`: the text itself where
/// the profiler can cut it, else the part of it that is kept.
pub open spec fn handed_text(text: Seq<char>) -> Seq<char> {
    if fits_scope(text) {
        text
    } else {
        scope_text(text)
    }
}

/// The boundary found lies between zero and the limit, is a character
/// boundary, and no boundary lies between it and the limit.
pub proof fn lemma_boundary_at_or_below(bytes: Seq<u8>, limit: int)
    requires
        valid_utf8(bytes),
        0 <= limit <= bytes.len(),
    ensures
        0 <= boundary_at_or_below(bytes, limit) <= limit,
        is_char_boundary(bytes, boundary_at_or_below(bytes, limit)),
        forall|j: int|
            boundary_at_or_below(bytes, limit) < j <= limit ==> !is_char_boundary(bytes, j),
    decreases limit,
{
    if limit > 0 && !is_char_boundary(bytes, limit) {
        lemma_boundary_at_or_below(bytes, limit - 1);
    }
}

/// A text that is kept whole is its own kept part.
pub proof fn lemma_scope_text_short(text: Seq<char>)
    requires
        encode_utf8(text).len() <= MAX_SCOPE_TEXT,
    ensures
        scope_text(text) == text,
{
    let bytes = encode_utf8(text);
    assert(bytes.subrange(0, bytes.len() as int) =~= bytes);
    encode_utf8_decode_utf8(text);
}

/// A text of at most as many characters as the limit, all of them ASCII, is
/// kept whole and handed on as it is.
pub proof fn lemma_scope_text_ascii(text: Seq<char>)
    requires
        is_ascii_chars(text),
        text.len() <= MAX_SCOPE_TEXT,
    ensures
        scope_text(text) == text,
        fits_scope(text),
        handed_text(text) == text,
{
    is_ascii_chars_encode_utf8(text);
    lemma_scope_text_short(text);
}

/// The kept part is a prefix of the text, takes at most the limit in bytes,
/// and is left as it is by the profiler's own cut.
pub proof fn lemma_scope_text(text: Seq<char>)
    ensures
        scope_text(text).is_prefix_of(text),
        encode_utf8(scope_text(text)) == encode_utf8(text).subrange(
            0,
            kept_len(encode_utf8(text)),
        ),
        encode_utf8(scope_text(text)).len() <= MAX_SCOPE_TEXT,
        fits_scope(scope_text(text)),
        scope_text(scope_text(text)) == scope_text(text),
{
    let bytes = encode_utf8(text);
    encode_utf8_valid_utf8(text);
    encode_utf8_decode_utf8(text);
    let k = kept_len(bytes);
    if bytes.len() > MAX_SCOPE_TEXT {
        lemma_boundary_at_or_below(bytes, MAX_SCOPE_TEXT as int);
    } else {
        is_char_boundary_start_end_of_seq(bytes);
    }
    let head = bytes.subrange(0, k);
    let tail = bytes.subrange(k, bytes.len() as int);
    valid_utf8_split(bytes, k);
    decode_utf8_split(bytes, k);
    assert(text =~= decode_utf8(head) + decode_utf8(tail));
    assert(scope_text(text) =~= text.subrange(0, decode_utf8(head).len() as int));
    decode_utf8_encode_utf8(head);
    lemma_scope_text_short(scope_text(text));
}

/// Cuts `text` to the part that the profiler stream keeps.
pub fn clip_scope_text(text: &str) -> (kept: &str)
    ensures
        kept@ == scope_text(text@),
{
    let ghost bytes = text.spec_bytes();
    proof {
        encode_utf8_valid_utf8(text@);
        encode_utf8_decode_utf8(text@);
    }
    if text.as_bytes().len() <= MAX_SCOPE_TEXT {
        proof {
            lemma_scope_text_short(text@);
        }
        return text;
    }
    let mut cut: usize = MAX_SCOPE_TEXT;
    while !text.is_char_boundary(cut)
        invariant
            bytes == encode_utf8(text@),
            valid_utf8(bytes),
            bytes.len() > MAX_SCOPE_TEXT,
            cut <= MAX_SCOPE_TEXT,
            boundary_at_or_below(bytes, cut as int) == kept_len(bytes),
        decreases cut,
    {
        proof {
            is_char_boundary_start_end_of_seq(bytes);
        }
        cut = cut - 1;
    }
    let (kept, _) = text.split_at(cut);
    proof {
        encode_utf8_decode_utf8(kept@);
        assert(kept.spec_bytes() == bytes.subrange(0, cut as int));
    }
    kept
}

/// The text to hand to the profiler for `text`: `text` as it is where the
/// profiler can cut it by itself, else its longest prefix of whole characters
/// that fits.
pub fn hand_scope_text(text: &str) -> (handed: &str)
    ensures
        handed@ == handed_text(text@),
        fits_scope(handed@),
{
    if text.as_bytes().len() <= MAX_SCOPE_TEXT || text.is_char_boundary(MAX_SCOPE_TEXT) {
        text
    } else {
        proof {
            lemma_scope_text(text@);
        }
        clip_scope_text(text)
    }
}

} // verus!
