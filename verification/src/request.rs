//! The request record: one operation byte, a 64-byte key buffer and a
//! 256-byte value buffer, both zero padded.

use vstd::prelude::*;
use vstd::slice::slice_subrange;
use vstd::string::StringExecFns;
use vstd::utf8::{decode_utf8, encode_utf8, encode_utf8_decode_utf8, valid_utf8};

verus! {

/// The width of a record's key buffer, in bytes.
pub const KEY_CAPACITY: usize = 64;

/// The width of a record's value buffer, in bytes.
pub const VALUE_CAPACITY: usize = 256;

/// The size of a record on the wire: the operation byte, the key buffer and
/// the value buffer.
pub const REQUEST_SIZE: usize = 321;

/// The kind of a request. On the wire it is one byte: `GET` is 0, `INSERT`
/// is 1, `DELETE` is 2.
#[allow(non_camel_case_types)]
#[derive(Debug, Copy, Clone, PartialEq, Eq, Structural)]
pub enum Operation {
    GET,
    INSERT,
    DELETE,
}

impl Operation {
    /// The byte that stands for the operation on the wire.
    pub open spec fn spec_code(self) -> u8 {
        match self {
            Operation::GET => 0,
            Operation::INSERT => 1,
            Operation::DELETE => 2,
        }
    }

    /// The operation's name as it is printed.
    pub open spec fn spec_name(self) -> Seq<char> {
        match self {
            Operation::GET => "GET"@,
            Operation::INSERT => "INSERT"@,
            Operation::DELETE => "DELETE"@,
        }
    }

    /// The byte that stands for the operation on the wire.
    pub fn code(self) -> (code: u8)
        ensures
            code == self.spec_code(),
    {
        match self {
            Operation::GET => 0,
            Operation::INSERT => 1,
            Operation::DELETE => 2,
        }
    }

    /// The operation that a wire byte stands for, if any.
    pub fn from_code(code: u8) -> (operation: Option<Operation>)
        ensures
            code > 2 <==> operation is None,
            operation is Some ==> operation.unwrap().spec_code() == code,
    {
        if code == 0 {
            Some(Operation::GET)
        } else if code == 1 {
            Some(Operation::INSERT)
        } else if code == 2 {
            Some(Operation::DELETE)
        } else {
            None
        }
    }

    /// The operation's name as it is printed.
    pub fn name(self) -> (name: &'static str)
        ensures
            name@ == self.spec_name(),
    {
        match self {
            Operation::GET => "GET",
            Operation::INSERT => "INSERT",
            Operation::DELETE => "DELETE",
        }
    }
}

/// `bytes` cut or zero padded to `width` bytes.
pub open spec fn zero_padded(bytes: Seq<u8>, width: nat) -> Seq<u8> {
    Seq::new(
        width,
        |i: int|
            if i < bytes.len() {
                bytes[i]
            } else {
                0u8
            },
    )
}

/// The position of the first zero byte, or the length where there is none.
pub open spec fn terminator(bytes: Seq<u8>) -> int
    decreases bytes.len(),
{
    if bytes.len() == 0 || bytes[0] == 0 {
        0
    } else {
        1 + terminator(bytes.drop_first())
    }
}

/// The bytes before the first zero byte.
pub open spec fn logical_bytes(bytes: Seq<u8>) -> Seq<u8> {
    bytes.take(terminator(bytes))
}

/// What is shown in place of a buffer that does not hold UTF-8.
pub open spec fn invalid_text() -> Seq<char> {
    "<invalid utf8>"@
}

/// The string that a zero-padded buffer holds: the bytes before the first
/// zero byte, decoded as UTF-8.
pub open spec fn text_of(bytes: Seq<u8>) -> Seq<char> {
    if valid_utf8(logical_bytes(bytes)) {
        decode_utf8(logical_bytes(bytes))
    } else {
        invalid_text()
    }
}

/// `terminator` is the one position before which no byte is zero and at
/// which the buffer ends or holds a zero.
pub proof fn lemma_terminator_is(bytes: Seq<u8>, p: int)
    requires
        0 <= p <= bytes.len(),
        forall|j: int| 0 <= j < p ==> bytes[j] != 0,
        p < bytes.len() ==> bytes[p] == 0,
    ensures
        terminator(bytes) == p,
    decreases bytes.len(),
{
    if p > 0 {
        let rest = bytes.drop_first();
        assert forall|j: int| 0 <= j < p - 1 implies rest[j] != 0 by {
            assert(rest[j] == bytes[j + 1]);
        }
        lemma_terminator_is(rest, p - 1);
    }
}

/// `std::str::from_utf8`: the string slice over `bytes` where they are valid
/// UTF-8, nothing where they are not. The slice, encoded again, is `bytes`.
#[verifier::external_body]
fn checked_utf8(bytes: &[u8]) -> (text: Option<&str>)
    ensures
        text is Some <==> valid_utf8(bytes@),
        text is Some ==> encode_utf8(text.unwrap()@) == bytes@,
{
    match std::str::from_utf8(bytes) {
        Ok(text) => Some(text),
        Err(_) => None,
    }
}

/// The UTF-8 bytes of `text`, cut or zero padded to `N` bytes.
fn padded<const N: usize>(text: &str) -> (buffer: [u8; N])
    ensures
        buffer@ == zero_padded(encode_utf8(text@), N as nat),
{
    let bytes = text.as_bytes();
    let n = if bytes.len() < N {
        bytes.len()
    } else {
        N
    };
    let mut buffer = [0u8;N];
    let mut i: usize = 0;
    while i < n
        invariant
            i <= n <= N,
            n <= bytes@.len(),
            buffer@.len() == N,
            forall|j: int| 0 <= j < i ==> buffer@[j] == bytes@[j],
            forall|j: int| i <= j < N ==> buffer@[j] == 0,
        decreases n - i,
    {
        buffer[i] = bytes[i];
        i += 1;
    }
    assert(buffer@ =~= zero_padded(encode_utf8(text@), N as nat));
    buffer
}

/// A fixed-width request record.
#[derive(Debug, Copy, Clone)]
pub struct Request {
    pub operation: Operation,
    pub key: [u8; 64],
    pub value: [u8; 256],
}

impl Request {
    /// A record for `operation` on `key` and `value`. What does not fit a
    /// buffer is cut off; the rest of each buffer is zero.
    pub fn new(operation: Operation, key: &str, value: &str) -> (request: Request)
        ensures
            request.operation == operation,
            request.key@ == zero_padded(encode_utf8(key@), KEY_CAPACITY as nat),
            request.value@ == zero_padded(encode_utf8(value@), VALUE_CAPACITY as nat),
    {
        Request { operation, key: padded::<64>(key), value: padded::<256>(value) }
    }

    /// The key: the key buffer up to its first zero byte, as a string.
    pub fn key_str(&self) -> (text: &str)
        ensures
            text@ == text_of(self.key@),
    {
        Self::bytes_to_str(&self.key)
    }

    /// The value: the value buffer up to its first zero byte, as a string.
    pub fn value_str(&self) -> (text: &str)
        ensures
            text@ == text_of(self.value@),
    {
        Self::bytes_to_str(&self.value)
    }

    /// The string that a zero-padded buffer holds, or `<invalid utf8>` where
    /// the bytes before the first zero are not UTF-8.
    pub fn bytes_to_str<const N: usize>(bytes: &[u8; N]) -> (text: &str)
        ensures
            text@ == text_of(bytes@),
    {
        let mut pos: usize = 0;
        while pos < N && bytes[pos] != 0
            invariant
                pos <= N,
                bytes@.len() == N,
                forall|j: int| 0 <= j < pos ==> bytes@[j] != 0,
            decreases N - pos,
        {
            pos += 1;
        }
        proof {
            lemma_terminator_is(bytes@, pos as int);
        }
        let logical = slice_subrange(bytes.as_slice(), 0, pos);
        assert(logical@ =~= logical_bytes(bytes@));
        match checked_utf8(logical) {
            Some(text) => {
                proof {
                    encode_utf8_decode_utf8(text@);
                }
                text
            },
            None => "<invalid utf8>",
        }
    }

    /// The record as it lies on the wire: the operation's code, then the key
    /// buffer, then the value buffer.
    pub open spec fn wire(&self) -> Seq<u8> {
        seq![self.operation.spec_code()] + self.key@ + self.value@
    }

    /// The record as it lies on the wire.
    pub fn to_bytes(&self) -> (bytes: Vec<u8>)
        ensures
            bytes@ == self.wire(),
            bytes@.len() == REQUEST_SIZE,
    {
        let mut bytes: Vec<u8> = Vec::new();
        bytes.push(self.operation.code());
        let mut i: usize = 0;
        while i < 64
            invariant
                i <= 64,
                bytes@ == seq![self.operation.spec_code()] + self.key@.take(i as int),
            decreases 64 - i,
        {
            bytes.push(self.key[i]);
            assert(self.key@.take(i as int + 1) =~= self.key@.take(i as int).push(
                self.key@[i as int],
            ));
            i += 1;
        }
        assert(self.key@.take(64) =~= self.key@);
        let mut j: usize = 0;
        while j < 256
            invariant
                j <= 256,
                bytes@ == seq![self.operation.spec_code()] + self.key@ + self.value@.take(
                    j as int,
                ),
            decreases 256 - j,
        {
            bytes.push(self.value[j]);
            assert(self.value@.take(j as int + 1) =~= self.value@.take(j as int).push(
                self.value@[j as int],
            ));
            j += 1;
        }
        assert(self.value@.take(256) =~= self.value@);
        bytes
    }

    /// The record that lies on the wire as `bytes`: there is one where
    /// `bytes` has the size of a record and begins with the code of an
    /// operation.
    pub fn from_bytes(bytes: &[u8]) -> (request: Option<Request>)
        ensures
            request is Some <==> bytes@.len() == REQUEST_SIZE && bytes@[0] <= 2,
            request is Some ==> request.unwrap().wire() == bytes@,
    {
        if bytes.len() != REQUEST_SIZE {
            return None;
        }
        let operation = match Operation::from_code(bytes[0]) {
            Some(operation) => operation,
            None => {
                return None;
            },
        };
        let mut key = [0u8;64];
        let mut i: usize = 0;
        while i < 64
            invariant
                i <= 64,
                bytes@.len() == REQUEST_SIZE,
                forall|k: int| 0 <= k < i ==> key@[k] == bytes@[1 + k],
            decreases 64 - i,
        {
            key[i] = bytes[1 + i];
            i += 1;
        }
        let mut value = [0u8;256];
        let mut j: usize = 0;
        while j < 256
            invariant
                j <= 256,
                bytes@.len() == REQUEST_SIZE,
                forall|k: int| 0 <= k < j ==> value@[k] == bytes@[65 + k],
            decreases 256 - j,
        {
            value[j] = bytes[65 + j];
            j += 1;
        }
        let request = Request { operation, key, value };
        assert(request.wire() =~= bytes@);
        Some(request)
    }

    /// The record as one line of text: its operation, key and value.
    pub open spec fn spec_describe(&self) -> Seq<char> {
        "Operation: "@ + self.operation.spec_name() + ", Key: "@ + text_of(self.key@)
            + ", Value: "@ + text_of(self.value@)
    }

    /// The record as one line of text: its operation, key and value.
    pub fn describe(&self) -> (line: String)
        ensures
            line@ == self.spec_describe(),
    {
        let mut line = String::from_str("Operation: ");
        line.append(self.operation.name());
        line.append(", Key: ");
        line.append(self.key_str());
        line.append(", Value: ");
        line.append(self.value_str());
        line
    }
}

} // verus!
