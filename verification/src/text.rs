//! Decoding of UTF-8 text received from the kernel or the network.
use vstd::prelude::*;
use vstd::utf8::{decode_utf8, valid_utf8};

verus! {

/// Decodes bytes as UTF-8 with `std::str::from_utf8`, which accepts them
/// exactly when they are well-formed UTF-8 and then gives the characters
/// they encode.
#[verifier::external_body]
pub(crate) fn utf8_text(bytes: &[u8]) -> (text: Option<&str>)
    ensures
        text is Some <==> valid_utf8(bytes@),
        text matches Some(t) ==> t@ == decode_utf8(bytes@),
{
    std::str::from_utf8(bytes).ok()
}

/// The text of the first `amt` bytes of a received datagram, where they are
/// well-formed UTF-8 and the buffer is not empty.
pub open spec fn datagram_text(buf: Seq<u8>, amt: int) -> Option<Seq<char>> {
    let bytes = buf.take(amt);
    if buf.len() != 0 && valid_utf8(bytes) {
        Some(decode_utf8(bytes))
    } else {
        None
    }
}

/// The text that a datagram of `amt` bytes, received into `buf`, carries.
pub fn received_text(buf: &[u8], amt: usize) -> (text: Option<String>)
    requires
        amt <= buf@.len(),
    ensures
        match text {
            Some(t) => datagram_text(buf@, amt as int) == Some(t@),
            None => datagram_text(buf@, amt as int) is None,
        },
{
    if buf.len() == 0 {
        return None;
    }
    let bytes = &buf[0..amt];
    assert(bytes@ =~= buf@.take(amt as int));
    match utf8_text(bytes) {
        Some(t) => Some(t.to_owned()),
        None => None,
    }
}

} // verus!
