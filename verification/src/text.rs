//! Conversion between native null-terminated buffers and owned text.

use vstd::prelude::*;
use vstd::string::StringSliceAdditionalSpecFns;
use vstd::utf8::{decode_utf8, encode_utf8, valid_utf8};

verus! {

/// The number of bytes of `buf` that stand before its first zero byte, or
/// the length of `buf` where it holds none.
pub open spec fn text_len(buf: Seq<u8>) -> nat
    decreases buf.len(),
{
    if buf.len() == 0 || buf[0] == 0 {
        0
    } else {
        1 + text_len(buf.drop_first())
    }
}

/// The bytes that a native reader sees in `buf`: those before the terminator.
pub open spec fn text_bytes(buf: Seq<u8>) -> Seq<u8> {
    buf.take(text_len(buf) as int)
}

/// The text that a possibly-null native buffer decodes to. A null buffer and
/// one whose bytes are not UTF-8 both give the empty text.
pub open spec fn decoded_text(raw: Option<Seq<u8>>) -> Seq<char> {
    match raw {
        None => Seq::empty(),
        Some(buf) => if valid_utf8(text_bytes(buf)) {
            decode_utf8(text_bytes(buf))
        } else {
            Seq::empty()
        },
    }
}

/// The native buffer that carries `text`: its UTF-8 bytes and a terminator.
pub open spec fn encoded_text(text: Seq<char>) -> Seq<u8> {
    encode_utf8(text).push(0u8)
}

/// The view of a possibly-null buffer.
pub open spec fn raw_view(raw: Option<Vec<u8>>) -> Option<Seq<u8>> {
    match raw {
        None => None,
        Some(buf) => Some(buf@),
    }
}

/// `text_len` is the one position that has no zero byte before it and is
/// either the end of the buffer or the place of a zero byte.
pub proof fn lemma_text_len(buf: Seq<u8>)
    ensures
        text_len(buf) <= buf.len(),
        forall|i: int| 0 <= i < text_len(buf) ==> buf[i] != 0,
        text_len(buf) < buf.len() ==> buf[text_len(buf) as int] == 0,
    decreases buf.len(),
{
    if buf.len() == 0 || buf[0] == 0 {
    } else {
        let rest = buf.drop_first();
        lemma_text_len(rest);
        assert forall|i: int| 0 <= i < text_len(buf) implies buf[i] != 0 by {
            if i > 0 {
                assert(buf[i] == rest[i - 1]);
            }
        }
        if text_len(buf) < buf.len() {
            assert(rest[text_len(rest) as int] == buf[text_len(rest) as int + 1]);
        }
    }
}

/// A position with the properties of `text_len` is `text_len`.
pub proof fn lemma_text_len_unique(buf: Seq<u8>, n: int)
    requires
        0 <= n <= buf.len(),
        forall|i: int| 0 <= i < n ==> buf[i] != 0,
        n < buf.len() ==> buf[n] == 0,
    ensures
        text_len(buf) == n,
{
    lemma_text_len(buf);
    let m = text_len(buf) as int;
    if m < n {
        assert(buf[m] == 0);
    } else if n < m {
        assert(buf[n] != 0);
    }
}

/// `String::from_utf8` of std: gives the text that `bytes` encode where they
/// are well-formed UTF-8, and refuses them otherwise.
#[verifier::external_body]
fn utf8_to_string(bytes: Vec<u8>) -> (r: Option<String>)
    ensures
        r.is_some() == valid_utf8(bytes@),
        r matches Some(s) ==> s@ == decode_utf8(bytes@),
{
    match String::from_utf8(bytes) {
        Ok(s) => Some(s),
        Err(_) => None,
    }
}

/// Copies the bytes of `buf` that stand before its terminator.
pub fn text_of(buf: &Vec<u8>) -> (r: Vec<u8>)
    ensures
        r@ == text_bytes(buf@),
{
    let mut out: Vec<u8> = Vec::new();
    let mut i: usize = 0;
    while i < buf.len() && buf[i] != 0
        invariant
            i <= buf.len(),
            out@ == buf@.take(i as int),
            forall|k: int| 0 <= k < i ==> buf@[k] != 0,
        decreases buf.len() - i,
    {
        out.push(buf[i]);
        i += 1;
        assert(out@ =~= buf@.take(i as int));
    }
    proof {
        lemma_text_len_unique(buf@, i as int);
    }
    out
}

/// Decodes a possibly-null native buffer. Decoding never fails: a null
/// buffer, and bytes that are not UTF-8, give the empty string.
pub fn decode_text(raw: &Option<Vec<u8>>) -> (r: String)
    ensures
        r@ == decoded_text(raw_view(*raw)),
{
    match raw {
        None => String::new(),
        Some(buf) => {
            match utf8_to_string(text_of(buf)) {
                Some(s) => s,
                None => String::new(),
            }
        },
    }
}

/// Encodes `text` as a null-terminated native buffer.
pub fn encode_text(text: &str) -> (r: Vec<u8>)
    ensures
        r@ == encoded_text(text@),
{
    let mut out = text.as_bytes_vec();
    out.push(0u8);
    out
}

/// Whether the encoding of `text` holds a zero byte, which a native reader
/// would take for the terminator.
pub fn has_nul(text: &str) -> (r: bool)
    ensures
        r == encode_utf8(text@).contains(0u8),
{
    let bytes = text.as_bytes();
    let mut i: usize = 0;
    while i < bytes.len()
        invariant
            i <= bytes@.len(),
            bytes@ == encode_utf8(text@),
            forall|k: int| 0 <= k < i ==> bytes@[k] != 0,
        decreases bytes.len() - i,
    {
        if bytes[i] == 0 {
            return true;
        }
        i += 1;
    }
    false
}

/// The bytes that a native reader sees hold no zero byte.
pub proof fn lemma_text_bytes_no_zero(buf: Seq<u8>)
    ensures
        !text_bytes(buf).contains(0u8),
{
    lemma_text_len(buf);
}

/// A native reader sees in a terminated buffer the bytes that were put
/// before the terminator, provided that none of them is zero.
pub proof fn lemma_text_bytes_terminated(bytes: Seq<u8>)
    requires
        !bytes.contains(0u8),
    ensures
        text_bytes(bytes.push(0u8)) == bytes,
{
    let buf = bytes.push(0u8);
    assert forall|i: int| 0 <= i < bytes.len() implies buf[i] != 0 by {
        assert(bytes.contains(bytes[i]));
    }
    lemma_text_len_unique(buf, bytes.len() as int);
    assert(text_bytes(buf) =~= bytes);
}

/// Encoding a text and decoding the buffer gives the text back, provided
/// that its encoding holds no zero byte.
pub proof fn lemma_decode_encoded(text: Seq<char>)
    requires
        !encode_utf8(text).contains(0u8),
    ensures
        decoded_text(Some(encoded_text(text))) == text,
{
    broadcast use vstd::utf8::encode_utf8_valid_utf8, vstd::utf8::encode_utf8_decode_utf8;
    lemma_text_bytes_terminated(encode_utf8(text));
}

/// Decoding never fails, and a null buffer or one whose text is not UTF-8
/// decodes to the empty text.
pub proof fn lemma_decode_degrades(raw: Option<Seq<u8>>)
    requires
        raw matches Some(buf) ==> !valid_utf8(text_bytes(buf)),
    ensures
        decoded_text(raw) == Seq::<char>::empty(),
{
}

} // verus!
