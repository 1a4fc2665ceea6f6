//! The foreign-call boundary: validation of the raw arguments and the fixed
//! integer code space in which every outcome is reported.

use vstd::prelude::*;

verus! {

/// The operation succeeded.
pub const CODE_OK: i32 = 0;

/// A required argument pointer was null.
pub const CODE_NULL_POINTER: i32 = -1;

/// An argument pointed at text that is not valid in the expected encoding.
pub const CODE_BAD_ENCODING: i32 = -2;

/// The delegated operation failed; the detail goes to a diagnostic stream,
/// never to the caller.
pub const CODE_OPERATION_FAILED: i32 = -3;

/// What decoding one raw text-pointer argument yielded: a null pointer,
/// a pointer to ill-encoded text, or the text itself.
pub enum RawArg {
    Null,
    Malformed,
    Text(String),
}

/// The code returned before any filesystem work: the null-pointer check on
/// each argument comes first — either argument null yields the null code —
/// and only then the decoding check on either argument; `None` means both
/// decoded and the operation may run.
pub open spec fn spec_early_code(src: RawArg, dst: RawArg) -> Option<i32> {
    if src is Null || dst is Null {
        Some(CODE_NULL_POINTER)
    } else if src is Malformed || dst is Malformed {
        Some(CODE_BAD_ENCODING)
    } else {
        None
    }
}

/// Validates the two decoded arguments, cheap and free of side effects:
/// null pointers are reported before ill-encoded text, whichever argument
/// carries the fault.
pub fn validate_args(src: &RawArg, dst: &RawArg) -> (r: Option<i32>)
    ensures
        r == spec_early_code(*src, *dst),
{
    match (src, dst) {
        (RawArg::Null, _) | (_, RawArg::Null) => Some(CODE_NULL_POINTER),
        (RawArg::Malformed, _) | (_, RawArg::Malformed) => Some(CODE_BAD_ENCODING),
        _ => None,
    }
}

/// The status reported once the delegated operation has run: success, or
/// the one code into which every internal failure collapses.
pub fn completion_code(succeeded: bool) -> (r: i32)
    ensures
        r == if succeeded {
            CODE_OK
        } else {
            CODE_OPERATION_FAILED
        },
{
    if succeeded {
        CODE_OK
    } else {
        CODE_OPERATION_FAILED
    }
}

} // verus!
