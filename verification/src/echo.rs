//! The reply of the echo server to what a client sent.

use vstd::prelude::*;

verus! {

/// What to send back after reading `read` bytes into `buffer`: those bytes,
/// or nothing (and close) once the client sent none.
pub fn echo_reply(buffer: &[u8], read: usize) -> (r: Option<Vec<u8>>)
    requires
        read <= buffer@.len(),
    ensures
        read == 0 ==> r is None,
        read > 0 ==> (r matches Some(bytes) && bytes@ == buffer@.subrange(0, read as int)),
{
    if read == 0 {
        return None;
    }
    let mut bytes: Vec<u8> = Vec::new();
    let mut i: usize = 0;
    while i < read
        invariant
            read <= buffer@.len(),
            i <= read,
            bytes@ == buffer@.subrange(0, i as int),
        decreases read - i,
    {
        bytes.push(buffer[i]);
        i = i + 1;
        assert(bytes@ =~= buffer@.subrange(0, i as int));
    }
    Some(bytes)
}

} // verus!
