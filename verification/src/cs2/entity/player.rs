//! The local player and the entity list.
//!
//! The entity list is a table of buckets of 512 entries each. An entity is
//! found by its index: the bucket's pointer is read from the list, and the
//! entity's pointer from the bucket. Every lookup starts from the resolved
//! roots anew, since the target may move what they point to at any time.

use vstd::arithmetic::div_mod::lemma_mod_multiples_vanish;
use vstd::prelude::*;
use crate::cs2::offsets::Offsets;
use crate::cs2::CS2;
use crate::memory::{spec_read_i32, spec_read_u64};

verus! {

/// The number of entries of one bucket of the entity list.
pub const BUCKET_ENTRIES: u64 = 512;

/// The number of entities that a handle can refer to.
pub const HANDLE_ENTRIES: u32 = 32768;

/// The local player: its controller and the pawn that the controller
/// steers.
#[derive(Debug, Clone, Copy, PartialEq, Eq, Structural)]
pub struct Player {
    pub controller: u64,
    pub pawn: u64,
}

/// The entity at `index` of the entity list, if its bucket and the entity
/// itself are there. A list whose entries have a negative size holds no
/// entity.
pub open spec fn spec_entity_at(mem: Map<int, u8>, offsets: Offsets, index: int) -> Option<u64> {
    let bucket = spec_read_u64(mem, offsets.interface.entity + 8 * (index / 512));
    if offsets.entity_identity.size < 0 || bucket == 0 {
        None
    } else {
        let entity = spec_read_u64(
            mem,
            bucket + offsets.entity_identity.size * (index % 512),
        );
        if entity == 0 {
            None
        } else {
            Some(entity)
        }
    }
}

/// The entity that a handle refers to: the one at the index that the low 15
/// bits of the handle spell.
pub open spec fn spec_entity_of_handle(mem: Map<int, u8>, offsets: Offsets, handle: i32) -> Option<
    u64,
> {
    spec_entity_at(mem, offsets, handle as int % 32768)
}

/// The local player, if the target has one: its controller is set, the
/// controller holds a pawn handle, and the handle refers to an entity.
pub open spec fn spec_local_player(mem: Map<int, u8>, offsets: Offsets) -> Option<Player> {
    let controller = spec_read_u64(mem, offsets.direct.local_player as int);
    if controller == 0 {
        None
    } else {
        let handle = spec_read_i32(mem, controller + offsets.controller.pawn);
        if handle == -1 {
            None
        } else {
            match spec_entity_of_handle(mem, offsets, handle) {
                Some(pawn) => Some(Player { controller, pawn }),
                None => None,
            }
        }
    }
}

impl Player {
    /// Finds the local player.
    pub fn local_player(cs2: &CS2) -> (r: Option<Self>)
        ensures
            r == spec_local_player(cs2.process.memory@, cs2.offsets),
    {
        let controller: u64 = cs2.process.memory.read_u64(cs2.offsets.direct.local_player);
        if controller == 0 {
            return None;
        }
        let pawn_handle: i32 = cs2.process.memory.read_i32_at(
            controller as u128 + cs2.offsets.controller.pawn as u128,
        );
        if pawn_handle == -1 {
            return None;
        }
        match Self::get_entity(cs2, pawn_handle) {
            Some(pawn) => Some(Player { controller, pawn }),
            None => None,
        }
    }

    /// The entity at `index` of the entity list.
    pub fn get_client_entity(cs2: &CS2, index: u64) -> (r: Option<u64>)
        ensures
            r == spec_entity_at(cs2.process.memory@, cs2.offsets, index as int),
    {
        let size: i32 = cs2.offsets.entity_identity.size;
        if size < 0 {
            return None;
        }
        let bucket_index: u64 = index / BUCKET_ENTRIES;
        let index_in_bucket: u64 = index % BUCKET_ENTRIES;
        let bucket_ptr: u64 = cs2.process.memory.read_u64_at(
            cs2.offsets.interface.entity as u128 + 8 * (bucket_index as u128),
        );
        if bucket_ptr == 0 {
            return None;
        }
        let stride: u128 = size as u128;
        let within: u128 = index_in_bucket as u128;
        assert(stride * within <= 0x7FFF_FFFF * 511) by (nonlinear_arith)
            requires
                stride <= 0x7FFF_FFFF,
                within <= 511,
        ;
        let entity: u64 = cs2.process.memory.read_u64_at(bucket_ptr as u128 + stride * within);
        if entity == 0 {
            return None;
        }
        Some(entity)
    }

    /// The entity that `handle` refers to.
    pub fn get_entity(cs2: &CS2, handle: i32) -> (r: Option<u64>)
        ensures
            r == spec_entity_of_handle(cs2.process.memory@, cs2.offsets, handle),
    {
        let raw: u32 = if handle < 0 {
            (handle as i64 + 4294967296) as u32
        } else {
            handle as u32
        };
        let index: u32 = raw % HANDLE_ENTRIES;
        proof {
            lemma_mod_multiples_vanish(131072, handle as int, 32768);
        }
        Self::get_client_entity(cs2, index as u64)
    }
}

} // verus!
