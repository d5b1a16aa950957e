//! Text fields of a header: bytes read as UTF-8, ending at the first NUL.
//!
//! Archives written by old tools are not guaranteed to hold valid text, so a
//! field is decoded leniently: every ill-formed byte sequence becomes the
//! replacement character U+FFFD. The text of the field is what stands before
//! the first NUL of the decoded characters.

use vstd::prelude::*;
use vstd::std_specs::iter::IteratorSpec;
use vstd::string::*;
use vstd::utf8::*;

verus! {

/// The characters that lenient UTF-8 decoding makes of `bytes`. This names
/// the outcome for bytes that are not well-formed UTF-8, where replacement
/// characters come in; for well-formed bytes see [`lenient_text`].
pub uninterp spec fn utf8_lossy(bytes: Seq<u8>) -> Seq<char>;

/// The text that bytes are read as: the text that they encode where they are
/// well-formed UTF-8, else what lenient decoding makes of them.
pub open spec fn lenient_text(bytes: Seq<u8>) -> Seq<char> {
    if valid_utf8(bytes) {
        decode_utf8(bytes)
    } else {
        utf8_lossy(bytes)
    }
}

/// Whether every byte of `bytes` is an ASCII character.
pub open spec fn is_ascii_bytes(bytes: Seq<u8>) -> bool {
    forall|i: int| 0 <= i < bytes.len() ==> #[trigger] bytes[i] < 0x80
}

/// ASCII bytes as characters, one for one.
pub open spec fn ascii_text(bytes: Seq<u8>) -> Seq<char> {
    Seq::new(bytes.len(), |i: int| bytes[i] as char)
}

/// The characters of `text` that stand before its first NUL; all of `text`
/// where it holds none.
pub open spec fn until_nul(text: Seq<char>) -> Seq<char>
    decreases text.len(),
{
    if text.len() == 0 || text[0] == '\0' {
        Seq::empty()
    } else {
        seq![text[0]] + until_nul(text.drop_first())
    }
}

/// The text of a field: its lenient decoding, cut at the first NUL.
pub open spec fn field_text(field: Seq<u8>) -> Seq<char> {
    until_nul(lenient_text(field))
}

/// `until_nul` is the prefix that ends where the first NUL stands.
pub proof fn lemma_until_nul(text: Seq<char>, n: int)
    requires
        0 <= n <= text.len(),
        forall|i: int| 0 <= i < n ==> text[i] != '\0',
        n < text.len() ==> text[n] == '\0',
    ensures
        until_nul(text) == text.subrange(0, n),
    decreases n,
{
    if n == 0 {
        assert(text.subrange(0, 0) =~= Seq::<char>::empty());
    } else {
        let tail = text.drop_first();
        assert forall|i: int| 0 <= i < n - 1 implies tail[i] != '\0' by {
            assert(tail[i] == text[i + 1]);
        }
        lemma_until_nul(tail, n - 1);
        assert(seq![text[0]] + tail.subrange(0, n - 1) =~= text.subrange(0, n));
    }
}

/// ASCII bytes are well-formed UTF-8 and encode themselves, so a field of
/// ASCII bytes reads as its bytes up to the first NUL.
pub proof fn ascii_field_reads_as_its_bytes(field: Seq<u8>)
    requires
        is_ascii_bytes(field),
    ensures
        valid_utf8(field),
        lenient_text(field) == ascii_text(field),
        field_text(field) == until_nul(ascii_text(field)),
{
    let chars = ascii_text(field);
    assert(is_ascii_chars(chars)) by {
        assert forall|i: int| 0 <= i < chars.len() implies '\0' <= #[trigger] chars[i]
            <= '\u{7f}' by {
            assert(field[i] < 0x80);
        }
    }
    is_ascii_chars_encode_utf8(chars);
    assert(encode_utf8(chars) =~= field) by {
        assert forall|i: int| 0 <= i < field.len() implies encode_utf8(chars)[i] == field[i] by {
            assert(chars[i] as u8 == encode_utf8(chars)[i]);
            assert(field[i] < 0x80);
        }
    }
    encode_utf8_valid_utf8(chars);
    encode_utf8_decode_utf8(chars);
}

/// Decodes bytes leniently with `String::from_utf8_lossy` of the standard
/// library. Where the bytes are well-formed UTF-8 the result is the text
/// that they encode; else it is a function of the bytes alone, in which
/// replacement characters stand for what is ill-formed.
#[verifier::external_body]
fn decode_lossy(bytes: &[u8]) -> (text: String)
    ensures
        text@ == if valid_utf8(bytes@) {
            decode_utf8(bytes@)
        } else {
            utf8_lossy(bytes@)
        },
{
    String::from_utf8_lossy(bytes).into_owned()
}

/// Cuts a text at its first NUL.
pub fn cut_at_nul(text: &str) -> (head: String)
    ensures
        head@ == until_nul(text@),
{
    let len: usize = text.unicode_len();
    let mut chars = text.chars();
    let mut n: usize = 0;
    while n < len
        invariant_except_break
            chars.remaining() == text@.skip(n as int),
        invariant
            n <= len == text@.len(),
            forall|i: int| 0 <= i < n ==> text@[i] != '\0',
        ensures
            n <= len == text@.len(),
            forall|i: int| 0 <= i < n ==> text@[i] != '\0',
            n < len ==> text@[n as int] == '\0',
        decreases len - n,
    {
        let next = chars.next();
        assert(next == Some(text@[n as int]));
        assert(chars.remaining() =~= text@.skip(n + 1));
        match next {
            Some(c) => {
                if c == '\0' {
                    break ;
                }
            },
            None => {
                break ;
            },
        }
        n += 1;
    }
    proof {
        lemma_until_nul(text@, n as int);
    }
    text.substring_char(0, n).to_owned()
}

/// Decodes a text field: the bytes are read leniently as UTF-8, and the text
/// ends before the first NUL.
pub fn lossy_string(s: &[u8]) -> (text: String)
    ensures
        text@ == field_text(s@),
{
    let whole = decode_lossy(s);
    cut_at_nul(whole.as_str())
}

} // verus!
