//! Identifiers of players and connections.
use vstd::prelude::*;

verus! {

/// The number of distinct values of a `u64`: the weight of the upper half of a UUID.
pub open spec fn half_base() -> int {
    0x1_0000_0000_0000_0000
}

/// A 128-bit universally unique identifier, held as its big-endian 128-bit value.
#[derive(Clone, Copy, Debug, PartialEq, Eq, Hash, Structural)]
pub struct Uuid(pub u128);

impl Uuid {
    /// The upper 64 bits of the identifier.
    pub open spec fn high(self) -> int {
        self.0 as int / half_base()
    }

    /// The lower 64 bits of the identifier.
    pub open spec fn low(self) -> int {
        self.0 as int % half_base()
    }
}

/// Calls `uuid::Uuid::from_u64_pair` and reads the result back with `as_u128`:
/// the UUID whose upper 64 bits are `high` and whose lower 64 bits are `low`.
#[verifier::external_body]
pub(crate) fn uuid_value_from_u64_pair(high: u64, low: u64) -> (value: u128)
    ensures
        value == high * half_base() + low,
{
    ::uuid::Uuid::from_u64_pair(high, low).as_u128()
}

/// Calls `uuid::Uuid::as_u64_pair` on the UUID made by `uuid::Uuid::from_u128(value)`:
/// the upper and the lower 64 bits of `value`.
#[verifier::external_body]
pub(crate) fn uuid_u64_pair(value: u128) -> (pair: (u64, u64))
    ensures
        pair.0 == value as int / half_base(),
        pair.1 == value as int % half_base(),
{
    ::uuid::Uuid::from_u128(value).as_u64_pair()
}

/// Calls `uuid::Uuid::new_v4`, read back with `as_u128`. The value is random; what holds
/// of every outcome is that the version nibble (bits 76 to 79) is 4 and that the two
/// variant bits (bits 62 and 63) are `10`. The call panics only when the platform's
/// random source fails, which no argument controls.
#[verifier::external_body]
pub(crate) fn random_uuid_value() -> (value: u128)
    ensures
        (value / 0x1000_0000_0000_0000_0000) % 16 == 4,
        (value / 0x4000_0000_0000_0000) % 4 == 2,
{
    ::uuid::Uuid::new_v4().as_u128()
}

} // verus!
