//! What holds of the strings that a request record stores.

use vstd::prelude::*;
use vstd::utf8::{
    encode_utf8, encode_utf8_decode_utf8, encode_utf8_valid_utf8, is_ascii_chars,
    is_ascii_chars_encode_utf8,
};
use crate::request::{lemma_terminator_is, logical_bytes, text_of, zero_padded, Request};

verus! {

/// The number of bytes of `bytes` that a buffer of `width` bytes keeps.
pub open spec fn kept(bytes: Seq<u8>, width: nat) -> int {
    if bytes.len() <= width {
        bytes.len() as int
    } else {
        width as int
    }
}

/// A string whose encoding holds no zero byte is stored as the prefix of its
/// encoding that fits the buffer: what is longer than the buffer is cut off.
pub proof fn lemma_stored_prefix(text: Seq<char>, width: nat)
    requires
        forall|i: int| 0 <= i < encode_utf8(text).len() ==> encode_utf8(text)[i] != 0,
    ensures
        logical_bytes(zero_padded(encode_utf8(text), width)) == encode_utf8(text).take(
            kept(encode_utf8(text), width),
        ),
{
    let bytes = encode_utf8(text);
    let buffer = zero_padded(bytes, width);
    let n = kept(bytes, width);
    lemma_terminator_is(buffer, n);
    assert(buffer.take(n) =~= bytes.take(n));
}

/// A string that fits the buffer and whose encoding holds no zero byte is
/// read back as it was stored.
pub proof fn lemma_round_trip(text: Seq<char>, width: nat)
    requires
        encode_utf8(text).len() <= width,
        forall|i: int| 0 <= i < encode_utf8(text).len() ==> encode_utf8(text)[i] != 0,
    ensures
        text_of(zero_padded(encode_utf8(text), width)) == text,
{
    let bytes = encode_utf8(text);
    lemma_stored_prefix(text, width);
    assert(bytes.take(bytes.len() as int) =~= bytes);
    encode_utf8_valid_utf8(text);
    encode_utf8_decode_utf8(text);
}

/// An ASCII string without a NUL character is read back as its first `width`
/// characters: a longer one is cut to the prefix that fits.
pub proof fn lemma_ascii_truncated(text: Seq<char>, width: nat)
    requires
        is_ascii_chars(text),
        forall|i: int| 0 <= i < text.len() ==> text[i] != '\0',
    ensures
        text_of(zero_padded(encode_utf8(text), width)) == text.take(
            if text.len() <= width {
                text.len() as int
            } else {
                width as int
            },
        ),
{
    let bytes = encode_utf8(text);
    is_ascii_chars_encode_utf8(text);
    assert forall|i: int| 0 <= i < bytes.len() implies bytes[i] != 0 by {
        let c = text[i];
        assert(c as u8 == bytes[i]);
        assert('\0' <= c <= '\u{7f}');
    }
    lemma_stored_prefix(text, width);
    let n = kept(bytes, width);
    let prefix = text.take(n);
    assert(is_ascii_chars(prefix)) by {
        assert forall|i: int| 0 <= i < prefix.len() implies '\0' <= #[trigger] prefix[i]
            <= '\u{7f}' by {
            assert(prefix[i] == text[i]);
        }
    }
    is_ascii_chars_encode_utf8(prefix);
    assert(encode_utf8(prefix) =~= bytes.take(n)) by {
        assert forall|i: int| 0 <= i < n implies encode_utf8(prefix)[i] == bytes[i] by {
            assert(prefix[i] == text[i]);
            assert(prefix[i] as u8 == encode_utf8(prefix)[i]);
            assert(text[i] as u8 == bytes[i]);
        }
    }
    encode_utf8_valid_utf8(prefix);
    encode_utf8_decode_utf8(prefix);
}

/// Two records that lie on the wire as the same bytes are the same record:
/// what `from_bytes` reads from the bytes of `to_bytes` is the record that
/// was written.
pub proof fn lemma_wire_is_injective(left: Request, right: Request)
    requires
        left.wire() == right.wire(),
    ensures
        left == right,
{
    let bytes = left.wire();
    assert(left.operation.spec_code() == bytes[0]);
    assert(right.operation.spec_code() == bytes[0]);
    assert forall|i: int| 0 <= i < 64 implies left.key[i] == right.key[i] by {
        assert(left.key@[i] == left.wire()[1 + i]);
        assert(right.key@[i] == right.wire()[1 + i]);
    }
    assert forall|i: int| 0 <= i < 256 implies left.value[i] == right.value[i] by {
        assert(left.value@[i] == left.wire()[65 + i]);
        assert(right.value@[i] == right.wire()[65 + i]);
    }
    assert(left.key =~= right.key);
    assert(left.value =~= right.value);
}

} // verus!
