use vstd::prelude::*;

verus! {

/// A set of DEX access flags, held as the bits of a `u32`.
#[derive(Debug, Clone, Copy, PartialEq, Eq, Structural, Hash)]
pub struct AccessFlags {
    pub bits: u32,
}

/// Every bit that names an access flag.
pub const ALL_ACCESS_FLAG_BITS: u32 = 0x37FFF;

/// The flags that a class may carry.
pub const CLASS_ACCESS_FLAG_BITS: u32 = 0x761F;

/// The flags that a method may carry.
pub const METHOD_ACCESS_FLAG_BITS: u32 = 0x31DFF;

/// The flags that a field may carry.
pub const FIELD_ACCESS_FLAG_BITS: u32 = 0x50DF;

#[allow(non_snake_case)]
impl AccessFlags {
    pub fn ACC_PUBLIC() -> (res: AccessFlags)
        ensures
            res.spec_bits() == 0x1,
    {
        AccessFlags { bits: 0x1 }
    }
    pub fn ACC_PRIVATE() -> (res: AccessFlags)
        ensures
            res.spec_bits() == 0x2,
    {
        AccessFlags { bits: 0x2 }
    }
    pub fn ACC_PROTECTED() -> (res: AccessFlags)
        ensures
            res.spec_bits() == 0x4,
    {
        AccessFlags { bits: 0x4 }
    }
    pub fn ACC_STATIC() -> (res: AccessFlags)
        ensures
            res.spec_bits() == 0x8,
    {
        AccessFlags { bits: 0x8 }
    }
    pub fn ACC_FINAL() -> (res: AccessFlags)
        ensures
            res.spec_bits() == 0x10,
    {
        AccessFlags { bits: 0x10 }
    }
    pub fn ACC_SYNCHRONIZED() -> (res: AccessFlags)
        ensures
            res.spec_bits() == 0x20,
    {
        AccessFlags { bits: 0x20 }
    }
    pub fn ACC_VOLATILE() -> (res: AccessFlags)
        ensures
            res.spec_bits() == 0x40,
    {
        AccessFlags { bits: 0x40 }
    }
    pub fn ACC_BRIDGE() -> (res: AccessFlags)
        ensures
            res.spec_bits() == 0x40,
    {
        AccessFlags { bits: 0x40 }
    }
    pub fn ACC_TRANSIENT() -> (res: AccessFlags)
        ensures
            res.spec_bits() == 0x80,
    {
        AccessFlags { bits: 0x80 }
    }
    pub fn ACC_VARARGS() -> (res: AccessFlags)
        ensures
            res.spec_bits() == 0x80,
    {
        AccessFlags { bits: 0x80 }
    }
    pub fn ACC_NATIVE() -> (res: AccessFlags)
        ensures
            res.spec_bits() == 0x100,
    {
        AccessFlags { bits: 0x100 }
    }
    pub fn ACC_INTERFACE() -> (res: AccessFlags)
        ensures
            res.spec_bits() == 0x200,
    {
        AccessFlags { bits: 0x200 }
    }
    pub fn ACC_ABSTRACT() -> (res: AccessFlags)
        ensures
            res.spec_bits() == 0x400,
    {
        AccessFlags { bits: 0x400 }
    }
    pub fn ACC_STRICT() -> (res: AccessFlags)
        ensures
            res.spec_bits() == 0x800,
    {
        AccessFlags { bits: 0x800 }
    }
    pub fn ACC_SYNTHETIC() -> (res: AccessFlags)
        ensures
            res.spec_bits() == 0x1000,
    {
        AccessFlags { bits: 0x1000 }
    }
    pub fn ACC_ANNOTATION() -> (res: AccessFlags)
        ensures
            res.spec_bits() == 0x2000,
    {
        AccessFlags { bits: 0x2000 }
    }
    pub fn ACC_ENUM() -> (res: AccessFlags)
        ensures
            res.spec_bits() == 0x4000,
    {
        AccessFlags { bits: 0x4000 }
    }
    pub fn ACC_CONSTRUCTOR() -> (res: AccessFlags)
        ensures
            res.spec_bits() == 0x10000,
    {
        AccessFlags { bits: 0x10000 }
    }
    pub fn ACC_DECLARED_SYNCHRONIZED() -> (res: AccessFlags)
        ensures
            res.spec_bits() == 0x20000,
    {
        AccessFlags { bits: 0x20000 }
    }

    /// The bits of this set.
    pub open spec fn spec_bits(self) -> u32 {
        self.bits
    }

    pub fn empty() -> (res: AccessFlags)
        ensures
            res.spec_bits() == 0,
    {
        AccessFlags { bits: 0 }
    }

    /// The flags among `bits` that have a name; other bits are dropped.
    pub fn from_bits_truncate(bits: u32) -> (res: AccessFlags)
        ensures
            res.spec_bits() == bits & ALL_ACCESS_FLAG_BITS,
    {
        AccessFlags { bits: bits & ALL_ACCESS_FLAG_BITS }
    }

    pub fn bits(&self) -> (res: u32)
        ensures
            res == self.spec_bits(),
    {
        self.bits
    }

    /// Whether every flag of `other` is set here.
    pub fn contains(&self, other: AccessFlags) -> (res: bool)
        ensures
            res == (self.spec_bits() & other.spec_bits() == other.spec_bits()),
    {
        self.bits & other.bits == other.bits
    }

    /// Whether some flag of `other` is set here.
    pub fn intersects(&self, other: AccessFlags) -> (res: bool)
        ensures
            res == (self.spec_bits() & other.spec_bits() != 0),
    {
        self.bits & other.bits != 0
    }

    /// The flags set here or in `other`.
    pub fn union(self, other: AccessFlags) -> (res: AccessFlags)
        ensures
            res.spec_bits() == self.spec_bits() | other.spec_bits(),
    {
        AccessFlags { bits: self.bits | other.bits }
    }

    /// Adds the flags of `other`.
    pub fn insert(&mut self, other: AccessFlags)
        ensures
            final(self).spec_bits() == old(self).spec_bits() | other.spec_bits(),
    {
        self.bits = self.bits | other.bits;
    }

    /// Whether some flag here is one that a class may carry.
    pub fn is_valid_for_class(self) -> (res: bool)
        ensures
            res == (self.spec_bits() & CLASS_ACCESS_FLAG_BITS != 0),
    {
        let valid = AccessFlags::ACC_PUBLIC().union(AccessFlags::ACC_PRIVATE()).union(
            AccessFlags::ACC_PROTECTED(),
        ).union(AccessFlags::ACC_STATIC()).union(AccessFlags::ACC_FINAL()).union(
            AccessFlags::ACC_INTERFACE(),
        ).union(AccessFlags::ACC_ABSTRACT()).union(AccessFlags::ACC_SYNTHETIC()).union(
            AccessFlags::ACC_ANNOTATION(),
        ).union(AccessFlags::ACC_ENUM());
        assert((((((((((0x1u32 | 0x2u32) | 0x4u32) | 0x8u32) | 0x10u32) | 0x200u32) | 0x400u32) | 0x1000u32) | 0x2000u32) | 0x4000u32) == CLASS_ACCESS_FLAG_BITS) by (bit_vector);
        assert(valid.spec_bits() == CLASS_ACCESS_FLAG_BITS);
        self.intersects(valid)
    }

    /// Whether some flag here is one that a method may carry.
    pub fn is_valid_for_method(self) -> (res: bool)
        ensures
            res == (self.spec_bits() & METHOD_ACCESS_FLAG_BITS != 0),
    {
        let valid = AccessFlags::ACC_PUBLIC().union(AccessFlags::ACC_PRIVATE()).union(
            AccessFlags::ACC_PROTECTED(),
        ).union(AccessFlags::ACC_STATIC()).union(AccessFlags::ACC_FINAL()).union(
            AccessFlags::ACC_SYNCHRONIZED(),
        ).union(AccessFlags::ACC_BRIDGE()).union(AccessFlags::ACC_VARARGS()).union(
            AccessFlags::ACC_NATIVE(),
        ).union(AccessFlags::ACC_ABSTRACT()).union(AccessFlags::ACC_STRICT()).union(
            AccessFlags::ACC_SYNTHETIC(),
        ).union(AccessFlags::ACC_CONSTRUCTOR()).union(AccessFlags::ACC_DECLARED_SYNCHRONIZED());
        assert((((((((((((((0x1u32 | 0x2u32) | 0x4u32) | 0x8u32) | 0x10u32) | 0x20u32) | 0x40u32) | 0x80u32) | 0x100u32) | 0x400u32) | 0x800u32) | 0x1000u32) | 0x10000u32) | 0x20000u32) == METHOD_ACCESS_FLAG_BITS) by (bit_vector);
        assert(valid.spec_bits() == METHOD_ACCESS_FLAG_BITS);
        self.intersects(valid)
    }

    /// Whether some flag here is one that a field may carry.
    pub fn is_valid_for_field(self) -> (res: bool)
        ensures
            res == (self.spec_bits() & FIELD_ACCESS_FLAG_BITS != 0),
    {
        let valid = AccessFlags::ACC_PUBLIC().union(AccessFlags::ACC_PRIVATE()).union(
            AccessFlags::ACC_PROTECTED(),
        ).union(AccessFlags::ACC_STATIC()).union(AccessFlags::ACC_FINAL()).union(
            AccessFlags::ACC_VOLATILE(),
        ).union(AccessFlags::ACC_TRANSIENT()).union(AccessFlags::ACC_SYNTHETIC()).union(
            AccessFlags::ACC_ENUM(),
        );
        assert(((((((((0x1u32 | 0x2u32) | 0x4u32) | 0x8u32) | 0x10u32) | 0x40u32) | 0x80u32) | 0x1000u32) | 0x4000u32) == FIELD_ACCESS_FLAG_BITS) by (bit_vector);
        assert(valid.spec_bits() == FIELD_ACCESS_FLAG_BITS);
        self.intersects(valid)
    }
}

impl core::ops::BitOr for AccessFlags {
    type Output = AccessFlags;

    fn bitor(self, other: AccessFlags) -> (res: AccessFlags)
        ensures
            res.spec_bits() == self.spec_bits() | other.spec_bits(),
    {
        self.union(other)
    }
}

impl vstd::std_specs::ops::BitOrSpecImpl for AccessFlags {
    open spec fn obeys_bitor_spec() -> bool {
        true
    }

    open spec fn bitor_req(self, rhs: AccessFlags) -> bool {
        true
    }

    open spec fn bitor_spec(self, rhs: AccessFlags) -> AccessFlags {
        AccessFlags { bits: self.bits | rhs.bits }
    }
}

} // verus!
