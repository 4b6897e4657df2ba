//! The conflict/exclusion rule.
//!
//! Every declaration carries, besides its own flags, an exclusion mask: the
//! set of flags it cannot coexist with under one name in one scope. The
//! legality of a redeclaration is decided by one pure function over the
//! existing symbol's flags and mask and the candidate's flags and mask, so
//! that every declaration kind goes through the same rule.

use vstd::prelude::*;

use crate::flags::SymbolFlags;

verus! {

/// Is a candidate declaration with flags `new_flags` and exclusion mask
/// `new_excludes` an illegal redeclaration of an existing symbol with flags
/// `existing_flags` and exclusion mask `existing_excludes`?
///
/// It is when the existing symbol's flags intersect the candidate's mask, or
/// the candidate's flags intersect the existing symbol's mask.
pub open spec fn spec_conflicts(
    existing_flags: SymbolFlags,
    existing_excludes: SymbolFlags,
    new_flags: SymbolFlags,
    new_excludes: SymbolFlags,
) -> bool {
    existing_flags.spec_intersects(new_excludes) || new_flags.spec_intersects(existing_excludes)
}

/// Decides redeclaration legality; see [`spec_conflicts`].
pub fn conflicts(
    existing_flags: SymbolFlags,
    existing_excludes: SymbolFlags,
    new_flags: SymbolFlags,
    new_excludes: SymbolFlags,
) -> (r: bool)
    ensures
        r == spec_conflicts(existing_flags, existing_excludes, new_flags, new_excludes),
{
    existing_flags.intersects(new_excludes) || new_flags.intersects(existing_excludes)
}

} // verus!
