//! Classification of captured error text from the external version-control
//! tool. Two failure signatures get a recovery transition instead of a
//! propagated error: a takedown notice and a changed default branch.

use vstd::prelude::*;
use crate::strutil::{contains_seq, contains_seq_ci, contains_str, contains_str_ci};

verus! {

/// The captured text carries the two-part signature that the tool emits
/// when the remote's default branch no longer matches the local one.
pub open spec fn is_default_branch_error_spec(m: Seq<char>) -> bool {
    &&& contains_seq(m, "Your configuration specifies to merge with the ref"@)
    &&& contains_seq(m, "no such ref was fetched"@)
}

/// The captured text carries a takedown marker, compared up to ASCII case.
pub open spec fn is_dmca_error_spec(m: Seq<char>) -> bool {
    contains_seq_ci(m, "dmca"@)
}

/// Detects the default-branch mismatch signature in captured error text:
/// both parts of the message must occur.
pub fn is_default_branch_error(msg: &str) -> (r: bool)
    ensures
        r == is_default_branch_error_spec(msg@),
{
    contains_str(msg, "Your configuration specifies to merge with the ref") && contains_str(
        msg,
        "no such ref was fetched",
    )
}

/// Detects a takedown notice in captured error text, up to ASCII case.
pub fn is_dmca_error(msg: &str) -> (r: bool)
    ensures
        r == is_dmca_error_spec(msg@),
{
    contains_str_ci(msg, "dmca")
}

} // verus!
