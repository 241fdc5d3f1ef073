//! Byte buffers.
//!
//! What the server reads and what it queues to be written is held in
//! `Bytes` buffers of the `bytes` crate. The verifier cannot look into such
//! a buffer; [`contents`] stands for the bytes that it holds, and the few
//! operations used here are described over it. Those descriptions are
//! believed, not proved.

use bytes::Buf;
use bytes::Bytes;
use vstd::prelude::*;
use vstd::slice::slice_to_vec;
use vstd::utf8::{decode_utf8, valid_utf8};

verus! {

/// Makes `Bytes` known to the verifier, as a type that it cannot look into.
#[verifier::external_type_specification]
#[verifier::external_body]
pub struct ExBytes(bytes::Bytes);

/// The bytes that a buffer holds, first to last.
pub uninterp spec fn contents(buffer: Bytes) -> Seq<u8>;

/// The bytes of each buffer of a list.
pub open spec fn all_contents(buffers: Seq<Bytes>) -> Seq<Seq<u8>> {
    buffers.map_values(|b: Bytes| contents(b))
}

/// `Bytes::copy_from_slice` makes a buffer that holds a copy of the bytes
/// given.
pub assume_specification[ Bytes::copy_from_slice ](data: &[u8]) -> (buffer: Bytes)
    ensures
        contents(buffer) == data@,
;

/// `Bytes::len` is the number of bytes held.
pub assume_specification[ Bytes::len ](buffer: &Bytes) -> (n: usize)
    ensures
        n == contents(*buffer).len(),
;

/// Borrowing a buffer as a slice gives the bytes held.
pub assume_specification<'a>[ <Bytes as core::convert::AsRef<[u8]>>::as_ref ](
    buffer: &'a Bytes,
) -> (data: &'a [u8])
    ensures
        data@ == contents(*buffer),
;

/// `Buf::advance` on a buffer drops its first `cnt` bytes. It panics where
/// the buffer holds fewer, which the precondition rules out.
pub assume_specification[ <Bytes as Buf>::advance ](buffer: &mut Bytes, cnt: usize)
    requires
        cnt <= contents(*old(buffer)).len(),
    ensures
        contents(*final(buffer)) == contents(*old(buffer)).skip(cnt as int),
;

/// `String::from_utf8` of the standard library turns bytes into text.
/// Believed of it: it succeeds on exactly the byte strings that are valid
/// UTF-8, and the text is then what the bytes encode.
#[verifier::external_body]
fn text_from_utf8(bytes: Vec<u8>) -> (text: Option<String>)
    ensures
        text is Some <==> valid_utf8(bytes@),
        text matches Some(t) ==> t@ == decode_utf8(bytes@),
{
    String::from_utf8(bytes).ok()
}

/// The text that a buffer of input encodes, if it is valid UTF-8.
pub open spec fn input_text(bytes: Seq<u8>) -> Option<Seq<char>> {
    if valid_utf8(bytes) {
        Some(decode_utf8(bytes))
    } else {
        None
    }
}

/// Reads a buffer of input as text. There is no text where the bytes are
/// not valid UTF-8.
pub fn get_input_string(message: &Bytes) -> (text: Option<String>)
    ensures
        match text {
            Some(t) => input_text(contents(*message)) == Some(t@),
            None => input_text(contents(*message)) is None,
        },
{
    let data: &[u8] = message.as_ref();
    let u8_buf: Vec<u8> = slice_to_vec(data);
    text_from_utf8(u8_buf)
}

} // verus!
