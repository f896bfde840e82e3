//! The ingest step: what happens to one inbound message's decode result.
//!
//! The surrounding loop waits for the next message or the shutdown signal and
//! decodes the payload outside the library; [`ingest_event`] is the rule: a
//! decoded event is appended to the buffer in arrival order, a decode failure
//! drops the message — it is reported and never retried, and never stops the
//! loop.

use vstd::prelude::*;

use crate::buffer::Buffer;

verus! {

/// Apply one decode result to the buffer: append the event on success,
/// leave the buffer untouched on a decode failure. Returns whether the event
/// was appended.
pub fn ingest_event<T>(buf: &mut Buffer<T>, decoded: Option<T>) -> (appended: bool)
    ensures
        appended == (decoded is Some),
        decoded matches Some(e) ==> final(buf)@ == old(buf)@.push(e),
        decoded is None ==> final(buf)@ == old(buf)@,
{
    match decoded {
        Some(e) => {
            buf.append(e);
            true
        },
        None => false,
    }
}

} // verus!
