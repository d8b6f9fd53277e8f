//! The identifier type, `uuid::Uuid`, and what is taken on trust about it.

use uuid::Uuid;
use vstd::prelude::*;

verus! {

/// `uuid::Uuid`. The library carries such a value and never looks inside:
/// it reads the bytes through `Uuid::as_bytes` and makes a value from bytes
/// through `Uuid::from_bytes`.
#[verifier::external_type_specification]
#[verifier::external_body]
pub struct ExUuid(uuid::Uuid);

/// The sixteen bytes that an identifier holds, first byte first: what
/// `Uuid::as_bytes` shows of it. An identifier is a wrapper around these
/// bytes and holds nothing else, so the three functions below are all
/// stated over this one name.
pub uninterp spec fn uuid_bytes(id: Uuid) -> Seq<u8>;

/// What holds of the bytes of every random (version 4) identifier: the
/// high half of byte 6 is the version, 4, and the two high bits of byte 8
/// are the variant, `10`.
pub open spec fn is_version_4(bytes: Seq<u8>) -> bool {
    &&& bytes.len() == 16
    &&& bytes[6] / 16 == 4
    &&& bytes[8] / 64 == 2
}

/// `Uuid::as_bytes` returns a reference to the byte array that the
/// identifier wraps. Not proved: that these are the bytes named by
/// [`uuid_bytes`], which is what gives that name its meaning.
pub assume_specification[ Uuid::as_bytes ](id: &Uuid) -> (bytes: &uuid::Bytes)
    ensures
        bytes@ == uuid_bytes(*id),
;

/// `Uuid::from_bytes` wraps the given array unchanged. Not proved: that
/// the identifier it returns holds exactly the bytes it was given.
pub assume_specification[ Uuid::from_bytes ](bytes: uuid::Bytes) -> (id: Uuid)
    ensures
        uuid_bytes(id) == bytes@,
;

/// `Uuid::new_v4` draws 128 random bits from the operating system, then
/// overwrites the version and variant bits. Not proved: that the result
/// carries version 4 and the variant `10`. Nothing else is claimed of it:
/// two calls may return different identifiers. The call panics if the
/// operating system cannot supply random bytes.
pub assume_specification[ Uuid::new_v4 ]() -> (id: Uuid)
    ensures
        is_version_4(uuid_bytes(id)),
;

} // verus!
