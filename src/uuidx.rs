//! Random identifier generation.
use vstd::prelude::*;

verus! {

/// The identifier type of the uuid crate, carried through as an opaque value.
#[verifier::external_type_specification]
#[verifier::external_body]
pub struct ExUuid(uuid::Uuid);

/// The version number that `Uuid::get_version_num` reads from an identifier.
pub uninterp spec fn version_num_of(u: uuid::Uuid) -> usize;

/// Relies on uuid::Uuid::get_version_num: it reads the version bits of the
/// identifier, so its result depends on the identifier alone.
pub assume_specification[ uuid::Uuid::get_version_num ](u: &uuid::Uuid) -> (r: usize)
    ensures
        r == version_num_of(*u),
;

/// Relies on uuid::Uuid::new_v4: a fresh random identifier on each call,
/// drawn from the operating system's random source (the call panics only when
/// that source fails, which no argument controls). Whatever is drawn, the
/// version bits are set to 4. Nothing else is promised of the random value.
pub assume_specification[ uuid::Uuid::new_v4 ]() -> (r: uuid::Uuid)
    ensures
        version_num_of(r) == 4,
;

/// Generates a new random version-4 identifier.
pub fn new_v4() -> (r: uuid::Uuid)
    ensures
        version_num_of(r) == 4,
{
    uuid::Uuid::new_v4()
}

} // verus!
