//! Fixed-width values as the display server sends them.

use byteorder::LittleEndian;
use byteorder::ReadBytesExt;
use vstd::prelude::*;
use vstd::utf8::{decode_utf8, valid_utf8};

verus! {

/// The 32-bit value that four bytes spell when the least significant comes first.
pub open spec fn le_u32(bytes: Seq<u8>) -> int
    recommends
        bytes.len() >= 4,
{
    bytes[0] as int + bytes[1] as int * 0x100 + bytes[2] as int * 0x1_0000 + bytes[3] as int
        * 0x100_0000
}

/// `byteorder::ReadBytesExt::read_u32::<LittleEndian>` on a byte slice.
///
/// The call takes the first four bytes of the slice and reads them as a
/// little-endian number; on a slice shorter than four bytes it fails with an
/// end-of-input error, which comes back as `None`.
#[verifier::external_body]
fn read_u32_le(bytes: &[u8]) -> (value: Option<u32>)
    ensures
        bytes@.len() >= 4 ==> value == Some(le_u32(bytes@) as u32),
        bytes@.len() < 4 ==> value is None,
{
    let mut reader: &[u8] = bytes;
    match reader.read_u32::<LittleEndian>() {
        Ok(value) => Some(value),
        Err(_) => None,
    }
}

/// Reads a property value that must be exactly one 32-bit item.
pub fn single_u32(bytes: &[u8]) -> (value: Option<u32>)
    ensures
        bytes@.len() == 4 ==> value == Some(le_u32(bytes@) as u32),
        bytes@.len() != 4 ==> value is None,
{
    if bytes.len() != 4 {
        return None;
    }
    read_u32_le(bytes)
}

/// A property reply as the display server sent it: the number of items it
/// claims to hold, and its bytes.
#[derive(Clone, Debug, PartialEq, Eq)]
pub struct PropertyReply {
    pub value_len: u32,
    pub value: Vec<u8>,
}

pub struct ReplyModel {
    pub value_len: u32,
    pub value: Seq<u8>,
}

impl View for PropertyReply {
    type V = ReplyModel;

    open spec fn view(&self) -> ReplyModel {
        ReplyModel { value_len: self.value_len, value: self.value@ }
    }
}

/// What a reply holds when exactly one 32-bit item is expected.
#[derive(Clone, Copy, Debug, PartialEq, Eq, Structural)]
pub enum Single {
    /// The property is not set: no item and no bytes.
    Absent,
    /// One item of four bytes, read least significant byte first.
    Value(u32),
    /// Anything else: the count and the bytes do not fit one 32-bit item.
    Malformed,
}

pub open spec fn single_value(reply: ReplyModel) -> Single {
    if reply.value_len == 0 && reply.value.len() == 0 {
        Single::Absent
    } else if reply.value_len == 1 && reply.value.len() == 4 {
        Single::Value(le_u32(reply.value) as u32)
    } else {
        Single::Malformed
    }
}

/// Number of bytes before the first zero byte, or all of them.
pub open spec fn name_len(value: Seq<u8>) -> int
    decreases value.len(),
{
    if value.len() == 0 || value[0] == 0 {
        0
    } else {
        1 + name_len(value.skip(1))
    }
}

/// The text at the start of a string property: the bytes before the first
/// zero byte, if they are UTF-8.
pub open spec fn leading_text(value: Seq<u8>) -> Option<Seq<char>> {
    let name = value.take(name_len(value));
    if valid_utf8(name) {
        Some(decode_utf8(name))
    } else {
        None
    }
}

/// A run of `n` non-zero bytes, ended by a zero byte or by the end, is the
/// leading name.
proof fn lemma_name_len(value: Seq<u8>, n: int)
    requires
        0 <= n <= value.len(),
        forall|k: int| 0 <= k < n ==> #[trigger] value[k] != 0,
        n == value.len() || value[n] == 0,
    ensures
        name_len(value) == n,
    decreases n,
{
    if n > 0 {
        let tail = value.skip(1);
        assert forall|k: int| 0 <= k < n - 1 implies #[trigger] tail[k] != 0 by {
            assert(tail[k] == value[k + 1]);
        }
        lemma_name_len(tail, n - 1);
    }
}

/// `String::from_utf8`, with the error dropped.
///
/// The call succeeds exactly on well-formed UTF-8 and then yields the text
/// that the bytes encode.
#[verifier::external_body]
fn text_of(bytes: Vec<u8>) -> (text: Option<String>)
    ensures
        text is Some <==> valid_utf8(bytes@),
        text matches Some(s) ==> s@ == decode_utf8(bytes@),
{
    match String::from_utf8(bytes) {
        Ok(text) => Some(text),
        Err(_) => None,
    }
}

impl PropertyReply {
    /// Reads the reply as one 32-bit item.
    pub fn single(&self) -> (found: Single)
        ensures
            found == single_value(self@),
    {
        if self.value_len == 0 && self.value.len() == 0 {
            Single::Absent
        } else if self.value_len == 1 {
            match single_u32(self.value.as_slice()) {
                Some(value) => Single::Value(value),
                None => Single::Malformed,
            }
        } else {
            Single::Malformed
        }
    }

    /// Reads the reply as text that ends at the first zero byte.
    pub fn text(&self) -> (found: Option<String>)
        ensures
            match found {
                Some(text) => leading_text(self@.value) == Some(text@),
                None => leading_text(self@.value) is None,
            },
    {
        let mut name: Vec<u8> = Vec::new();
        let mut i: usize = 0;
        while i < self.value.len() && self.value[i] != 0
            invariant
                i <= self.value@.len(),
                name@ == self.value@.take(i as int),
                forall|k: int| 0 <= k < i ==> #[trigger] self.value@[k] != 0,
            decreases self.value@.len() - i,
        {
            name.push(self.value[i]);
            proof {
                assert(self.value@.take(i + 1) =~= self.value@.take(i as int).push(
                    self.value@[i as int],
                ));
            }
            i += 1;
        }
        proof {
            lemma_name_len(self.value@, i as int);
        }
        text_of(name)
    }
}

} // verus!
