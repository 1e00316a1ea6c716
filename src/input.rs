//! The decisions behind prompting for input; reading the terminal is left to
//! the caller.
use vstd::prelude::*;
use vstd::string::StringSliceAdditionalSpecFns;

verus! {

/// What a yes/no prompt makes of a line: `y` is yes, `n` is no, anything
/// else asks again.
pub open spec fn yes_no_answer(line: Seq<u8>) -> Option<bool> {
    if line == seq![121u8] {
        Some(true)
    } else if line == seq![110u8] {
        Some(false)
    } else {
        None
    }
}

/// Reads a yes/no answer from a line of input, without its line ending.
pub fn yes_no(line: &str) -> (r: Option<bool>)
    ensures
        r == yes_no_answer(line.spec_bytes()),
{
    let bytes = line.as_bytes();
    if bytes.len() != 1 {
        return None;
    }
    let b = bytes[0];
    assert(bytes@ =~= seq![b]);
    if b == 121u8 {
        Some(true)
    } else if b == 110u8 {
        Some(false)
    } else {
        None
    }
}

} // verus!
