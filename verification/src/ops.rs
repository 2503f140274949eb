//! The operation bitmask: a 16-bit flag set over {create, read, update,
//! delete}, stored in the low four bits. Grants carry such a mask, and a
//! permission check passes when the requested mask intersects the granted one.

use vstd::prelude::*;

verus! {

/// Bit masks of the four operations.
pub const CREATE_MASK: u16 = 0b0001;

pub const READ_MASK: u16 = 0b0010;

pub const UPDATE_MASK: u16 = 0b0100;

pub const DELETE_MASK: u16 = 0b1000;

/// A set of operations, packed into a 16-bit mask. Only the low four bits
/// are meaningful; the width leaves headroom for further operations.
#[derive(Clone, Copy, PartialEq, Eq, Hash, Debug, Structural)]
pub struct Operations(pub u16);

/// The mask that `Operations::new` packs from four booleans.
pub open spec fn pack_ops(create: bool, read: bool, update: bool, delete: bool) -> u16 {
    (if create {
        CREATE_MASK
    } else {
        0u16
    }) | (if read {
        READ_MASK
    } else {
        0u16
    }) | (if update {
        UPDATE_MASK
    } else {
        0u16
    }) | (if delete {
        DELETE_MASK
    } else {
        0u16
    })
}

impl Operations {
    pub open spec fn spec_can_create(self) -> bool {
        self.0 & CREATE_MASK != 0
    }

    pub open spec fn spec_can_read(self) -> bool {
        self.0 & READ_MASK != 0
    }

    pub open spec fn spec_can_update(self) -> bool {
        self.0 & UPDATE_MASK != 0
    }

    pub open spec fn spec_can_delete(self) -> bool {
        self.0 & DELETE_MASK != 0
    }

    /// Whether the two masks share at least one operation bit. This is the
    /// test every permission check applies between the requested operations
    /// and a grant's mask.
    pub open spec fn spec_intersects(self, other: Operations) -> bool {
        self.0 & other.0 != 0
    }

    /// The set of create operations alone.
    pub fn create() -> (r: Operations)
        ensures
            r.0 == CREATE_MASK,
    {
        Operations(CREATE_MASK)
    }

    /// The set of read operations alone.
    pub fn read() -> (r: Operations)
        ensures
            r.0 == READ_MASK,
    {
        Operations(READ_MASK)
    }

    /// The set of update operations alone.
    pub fn update() -> (r: Operations)
        ensures
            r.0 == UPDATE_MASK,
    {
        Operations(UPDATE_MASK)
    }

    /// The set of delete operations alone.
    pub fn delete() -> (r: Operations)
        ensures
            r.0 == DELETE_MASK,
    {
        Operations(DELETE_MASK)
    }

    /// Packs four booleans into the four low bits of the mask.
    pub fn new(create: bool, read: bool, update: bool, delete: bool) -> (r: Operations)
        ensures
            r.0 == pack_ops(create, read, update, delete),
            r.spec_can_create() == create,
            r.spec_can_read() == read,
            r.spec_can_update() == update,
            r.spec_can_delete() == delete,
    {
        let c: u16 = if create {
            CREATE_MASK
        } else {
            0
        };
        let r_: u16 = if read {
            READ_MASK
        } else {
            0
        };
        let u: u16 = if update {
            UPDATE_MASK
        } else {
            0
        };
        let d: u16 = if delete {
            DELETE_MASK
        } else {
            0
        };
        let bits: u16 = c | r_ | u | d;
        proof {
            assert((c | r_ | u | d) & 0b0001u16 == c) by (bit_vector)
                requires
                    (c == 0b0001u16 || c == 0u16) && (r_ == 0b0010u16 || r_ == 0u16) && (u
                        == 0b0100u16 || u == 0u16) && (d == 0b1000u16 || d == 0u16),
            ;
            assert((c | r_ | u | d) & 0b0010u16 == r_) by (bit_vector)
                requires
                    (c == 0b0001u16 || c == 0u16) && (r_ == 0b0010u16 || r_ == 0u16) && (u
                        == 0b0100u16 || u == 0u16) && (d == 0b1000u16 || d == 0u16),
            ;
            assert((c | r_ | u | d) & 0b0100u16 == u) by (bit_vector)
                requires
                    (c == 0b0001u16 || c == 0u16) && (r_ == 0b0010u16 || r_ == 0u16) && (u
                        == 0b0100u16 || u == 0u16) && (d == 0b1000u16 || d == 0u16),
            ;
            assert((c | r_ | u | d) & 0b1000u16 == d) by (bit_vector)
                requires
                    (c == 0b0001u16 || c == 0u16) && (r_ == 0b0010u16 || r_ == 0u16) && (u
                        == 0b0100u16 || u == 0u16) && (d == 0b1000u16 || d == 0u16),
            ;
        }
        Operations(bits)
    }

    /// The raw 16-bit mask.
    pub fn bits(&self) -> (r: u16)
        ensures
            r == self.0,
    {
        self.0
    }

    pub fn can_create(&self) -> (r: bool)
        ensures
            r == self.spec_can_create(),
    {
        (self.0 & CREATE_MASK) != 0
    }

    pub fn can_read(&self) -> (r: bool)
        ensures
            r == self.spec_can_read(),
    {
        (self.0 & READ_MASK) != 0
    }

    pub fn can_update(&self) -> (r: bool)
        ensures
            r == self.spec_can_update(),
    {
        (self.0 & UPDATE_MASK) != 0
    }

    pub fn can_delete(&self) -> (r: bool)
        ensures
            r == self.spec_can_delete(),
    {
        (self.0 & DELETE_MASK) != 0
    }

    /// Whether the two masks share at least one operation bit.
    pub fn intersects(&self, other: &Operations) -> (r: bool)
        ensures
            r == self.spec_intersects(*other),
    {
        (self.0 & other.0) != 0
    }
}

impl From<u16> for Operations {
    /// Wraps a raw mask, as read back from the store's 16-bit column.
    fn from(value: u16) -> (r: Operations) {
        Operations(value)
    }
}

impl vstd::std_specs::convert::FromSpecImpl<u16> for Operations {
    open spec fn obeys_from_spec() -> bool {
        true
    }

    open spec fn from_spec(value: u16) -> Operations {
        Operations(value)
    }
}

} // verus!
