//! The C interface to mandwm, which is not written yet.

use vstd::prelude::*;

verus! {

/// Generating the C libraries is not offered yet: the call is always
/// refused, with a message that points to the crate's description, and no
/// library or header is made. The refusal is handed back as an error rather
/// than a panic; a caller that cannot go on without the libraries stops on
/// it.
pub fn gen_libs() -> (r: Result<(), String>)
    ensures
        r matches Err(m) && m@ == "Please read the crate description before using the ffi."@,
{
    Err(String::from_str("Please read the crate description before using the ffi."))
}

} // verus!
