//! Interface identifiers.

use vstd::prelude::*;

verus! {

/// A 128-bit globally unique value naming one interface.
#[derive(Clone, Copy, Debug, PartialEq, Eq, Hash, Structural)]
pub struct InterfaceId {
    pub value: u128,
}

/// The value of the identifier shared by every object: the unknown interface.
pub const IID_IUNKNOWN_VALUE: u128 = 0x00000000_0000_0000_C000_000000000046u128;

/// The value of the identifier of the class-creation interface.
pub const IID_ICLASSFACTORY_VALUE: u128 = 0x00000001_0000_0000_C000_000000000046u128;

impl InterfaceId {
    /// The identifier every object answers to.
    pub open spec fn spec_unknown() -> InterfaceId {
        InterfaceId { value: IID_IUNKNOWN_VALUE }
    }

    /// The identifier of the class-creation interface.
    pub open spec fn spec_class_factory() -> InterfaceId {
        InterfaceId { value: IID_ICLASSFACTORY_VALUE }
    }

    pub fn new(value: u128) -> (id: InterfaceId)
        ensures
            id.value == value,
    {
        InterfaceId { value }
    }

    #[verifier::when_used_as_spec(spec_unknown)]
    pub fn unknown() -> (id: InterfaceId)
        ensures
            id == Self::spec_unknown(),
    {
        InterfaceId { value: IID_IUNKNOWN_VALUE }
    }

    #[verifier::when_used_as_spec(spec_class_factory)]
    pub fn class_factory() -> (id: InterfaceId)
        ensures
            id == Self::spec_class_factory(),
    {
        InterfaceId { value: IID_ICLASSFACTORY_VALUE }
    }

    /// Whether two identifiers name the same interface.
    pub fn is_equal(&self, other: &InterfaceId) -> (same: bool)
        ensures
            same == (*self == *other),
    {
        self.value == other.value
    }

    /// Whether this is the identifier every object answers to.
    pub fn is_unknown(&self) -> (yes: bool)
        ensures
            yes == (*self == Self::spec_unknown()),
    {
        self.value == IID_IUNKNOWN_VALUE
    }
}

} // verus!
