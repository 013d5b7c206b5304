//! Versions of the messages that processes exchange.

use vstd::prelude::*;

verus! {

/// Version stamped on every outgoing message.
pub const SCHEMA_VERSION: u32 = 1;

/// Oldest version still understood.
pub const MIN_COMPATIBLE_VERSION: u32 = 1;

/// `v` lies in the window of versions that this build understands.
pub open spec fn schema_compatible(v: u32) -> bool {
    MIN_COMPATIBLE_VERSION <= v <= SCHEMA_VERSION
}

/// Whether a message of version `v` is understood.
pub fn is_schema_compatible(v: u32) -> (r: bool)
    ensures
        r == schema_compatible(v),
{
    MIN_COMPATIBLE_VERSION <= v && v <= SCHEMA_VERSION
}

/// Version of a message that names none: the first one that existed.
pub fn default_schema_version() -> (v: u32)
    ensures
        v == 1,
{
    1
}

/// What this build sends, this build understands.
pub proof fn own_version_is_compatible()
    ensures
        schema_compatible(SCHEMA_VERSION),
{
}

/// A version is understood exactly where it lies between the oldest that is still understood and
/// the one that this build sends.
pub proof fn understood_versions_are_a_window(v: u32)
    ensures
        schema_compatible(v) <==> v >= MIN_COMPATIBLE_VERSION && v <= SCHEMA_VERSION,
        !schema_compatible(0),
        MIN_COMPATIBLE_VERSION <= SCHEMA_VERSION,
{
}

} // verus!
