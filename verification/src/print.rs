//! The kernel print request.

use crate::syscall::TerminationReason;
use crate::wire::text_from_utf8;
use core::ops::ControlFlow;
use vstd::prelude::*;
use vstd::utf8::decode_utf8;
use vstd::utf8::valid_utf8;

verus! {

/// What a print request with the bytes `body` results in: the text to write,
/// or `MalformedBody` where the bytes are not UTF-8.
pub open spec fn print_outcome(body: Seq<u8>) -> Result<Seq<char>, TerminationReason> {
    if valid_utf8(body) {
        Ok(decode_utf8(body))
    } else {
        Err(TerminationReason::MalformedBody)
    }
}

/// Serves a print request whose body, copied from the caller's memory, is
/// `body`: hands back the text for the serial line and the terminal, or ends
/// the caller with `MalformedBody` where the body is not UTF-8.
pub fn kprint(body: &[u8]) -> (r: ControlFlow<Option<TerminationReason>, &str>)
    ensures
        r matches ControlFlow::Continue(text) ==> print_outcome(body@) == Ok::<
            Seq<char>,
            TerminationReason,
        >(text@),
        r matches ControlFlow::Break(reason) ==> reason is Some && print_outcome(body@) == Err::<
            Seq<char>,
            TerminationReason,
        >(reason.unwrap()),
{
    match text_from_utf8(body) {
        Some(s) => ControlFlow::Continue(s),
        None => ControlFlow::Break(Some(TerminationReason::MalformedBody)),
    }
}

} // verus!
