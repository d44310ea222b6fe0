//! Page keys and the relation or SLRU block that a key stands for.

use vstd::prelude::*;

verus! {

/// Names one fork of one relation.
#[derive(Clone, Copy, Debug, PartialEq, Eq, Structural, Hash)]
pub struct RelTag {
    pub forknum: u8,
    pub spcnode: u32,
    pub dbnode: u32,
    pub relnode: u32,
}

/// The simple LRU areas whose pages are kept in the key space.
#[derive(Clone, Copy, Debug, PartialEq, Eq, Structural, Hash)]
pub enum SlruKind {
    Clog,
    MultiXactMembers,
    MultiXactOffsets,
}

/// Key of one page in the key space of a timeline.
#[derive(Clone, Copy, Debug, PartialEq, Eq, Structural, Hash)]
pub struct Key {
    pub field1: u8,
    pub field2: u32,
    pub field3: u32,
    pub field4: u32,
    pub field5: u8,
    pub field6: u32,
}

/// The relation block that `key` stands for, if it is the key of one.
pub open spec fn spec_key_to_rel_block(key: Key) -> Option<(RelTag, u32)> {
    if key.field1 == 0x00 {
        Some(
            (
                RelTag {
                    spcnode: key.field2,
                    dbnode: key.field3,
                    relnode: key.field4,
                    forknum: key.field5,
                },
                key.field6,
            ),
        )
    } else {
        None
    }
}

/// The SLRU kind, segment and block that `key` stands for, if it is the key of
/// an SLRU block.
pub open spec fn spec_key_to_slru_block(key: Key) -> Option<(SlruKind, u32, u32)> {
    if key.field1 == 0x01 {
        if key.field2 == 0x00 {
            Some((SlruKind::Clog, key.field4, key.field6))
        } else if key.field2 == 0x01 {
            Some((SlruKind::MultiXactMembers, key.field4, key.field6))
        } else if key.field2 == 0x02 {
            Some((SlruKind::MultiXactOffsets, key.field4, key.field6))
        } else {
            None
        }
    } else {
        None
    }
}

/// Decodes the key of a relation block into the relation and the block number.
#[verifier::when_used_as_spec(spec_key_to_rel_block)]
pub fn key_to_rel_block(key: Key) -> (r: Option<(RelTag, u32)>)
    ensures
        r == spec_key_to_rel_block(key),
{
    if key.field1 == 0x00 {
        Some(
            (
                RelTag {
                    spcnode: key.field2,
                    dbnode: key.field3,
                    relnode: key.field4,
                    forknum: key.field5,
                },
                key.field6,
            ),
        )
    } else {
        None
    }
}

/// Decodes the key of an SLRU block into the kind, the segment and the block
/// number.
#[verifier::when_used_as_spec(spec_key_to_slru_block)]
pub fn key_to_slru_block(key: Key) -> (r: Option<(SlruKind, u32, u32)>)
    ensures
        r == spec_key_to_slru_block(key),
{
    if key.field1 == 0x01 {
        if key.field2 == 0x00 {
            Some((SlruKind::Clog, key.field4, key.field6))
        } else if key.field2 == 0x01 {
            Some((SlruKind::MultiXactMembers, key.field4, key.field6))
        } else if key.field2 == 0x02 {
            Some((SlruKind::MultiXactOffsets, key.field4, key.field6))
        } else {
            None
        }
    } else {
        None
    }
}

} // verus!
