//! Decision helpers for the hooked file-open entry points. The hooks
//! themselves are C-ABI code outside this crate; they hand the request's
//! path, flags and optional mode to these functions and act on the answer.

use vstd::prelude::*;

verus! {

/// The `O_CREAT` flag bit of the open calls.
pub const OPEN_FLAG_CREAT: i32 = 0o100;

/// The combined `O_TMPFILE` flag bits of the open calls.
pub const OPEN_FLAG_TMPFILE: i32 = 0o20200000;

/// The structured-flags argument of the newer open variant.
#[allow(non_camel_case_types)]
pub struct open_how {
    pub flags: u64,
    pub mode: u64,
    pub resolve: u64,
}

/// The calling convention supplies a permission-mode argument only when the
/// flags ask for file creation or exclusive temporary-file creation.
pub open spec fn open_flags_take_mode(flags: i32) -> bool {
    flags & OPEN_FLAG_CREAT != 0 || flags & OPEN_FLAG_TMPFILE == OPEN_FLAG_TMPFILE
}

/// Whether an open request with these flags carries a mode argument.
pub fn open_needs_mode_arg(flags: i32) -> (r: bool)
    ensures
        r == open_flags_take_mode(flags),
{
    flags & OPEN_FLAG_CREAT != 0 || flags & OPEN_FLAG_TMPFILE == OPEN_FLAG_TMPFILE
}

/// The permission mode an open request forwards: the caller's mode when the
/// flags carry one, no extra permission bits otherwise.
pub fn effective_mode(flags: i32, mode: u32) -> (r: u32)
    ensures
        r == (if open_flags_take_mode(flags) {
            mode
        } else {
            0u32
        }),
{
    if open_needs_mode_arg(flags) {
        mode
    } else {
        0
    }
}

} // verus!
