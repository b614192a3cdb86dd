//! The offset table: every address and offset that one attachment to the
//! target resolves, grouped by what it belongs to.
//!
//! A table is built as a whole and never changed afterwards; a new
//! attachment builds a new one.

use vstd::prelude::*;

verus! {

/// The base addresses of the modules the resolution needs.
#[derive(Clone, Copy, Debug)]
pub struct LibraryOffsets {
    pub client: u64,
    pub engine: u64,
    pub tier0: u64,
    pub input: u64,
    pub sdl: u64,
    pub schema: u64,
}

impl Default for LibraryOffsets {
    /// Every value zero.
    fn default() -> (r: Self)
        ensures
            r.client == 0,
            r.engine == 0,
            r.tier0 == 0,
            r.input == 0,
            r.sdl == 0,
            r.schema == 0,
    {
        LibraryOffsets {
            client: 0,
            engine: 0,
            tier0: 0,
            input: 0,
            sdl: 0,
            schema: 0,
        }
    }
}

/// The addresses of the interfaces the resolution needs.
#[derive(Clone, Copy, Debug)]
pub struct InterfaceOffsets {
    pub resource: u64,
    pub entity: u64,
    pub cvar: u64,
    pub input: u64,
}

impl Default for InterfaceOffsets {
    /// Every value zero.
    fn default() -> (r: Self)
        ensures
            r.resource == 0,
            r.entity == 0,
            r.cvar == 0,
            r.input == 0,
    {
        InterfaceOffsets {
            resource: 0,
            entity: 0,
            cvar: 0,
            input: 0,
        }
    }
}

/// Global pointers found by signature scans.
#[derive(Clone, Copy, Debug)]
pub struct DirectOffsets {
    pub local_player: u64,
    pub network_client: u64,
}

impl Default for DirectOffsets {
    /// Every value zero.
    fn default() -> (r: Self)
        ensures
            r.local_player == 0,
            r.network_client == 0,
    {
        DirectOffsets {
            local_player: 0,
            network_client: 0,
        }
    }
}

/// Field offsets of the player controller.
#[derive(Clone, Copy, Debug)]
pub struct PlayerControllerOffsets {
    pub pawn: u64,
}

impl Default for PlayerControllerOffsets {
    /// Every value zero.
    fn default() -> (r: Self)
        ensures
            r.pawn == 0,
    {
        PlayerControllerOffsets {
            pawn: 0,
        }
    }
}

/// Field offsets of the player pawn.
#[derive(Clone, Copy, Debug)]
pub struct PawnOffsets {
    pub weapon: u64,
    pub weapon_services: u64,
}

impl Default for PawnOffsets {
    /// Every value zero.
    fn default() -> (r: Self)
        ensures
            r.weapon == 0,
            r.weapon_services == 0,
    {
        PawnOffsets {
            weapon: 0,
            weapon_services: 0,
        }
    }
}

/// Field offsets of the weapon services of a pawn.
#[derive(Clone, Copy, Debug)]
pub struct WeaponServicesOffsets {
    pub weapons: u64,
}

impl Default for WeaponServicesOffsets {
    /// Every value zero.
    fn default() -> (r: Self)
        ensures
            r.weapons == 0,
    {
        WeaponServicesOffsets {
            weapons: 0,
        }
    }
}

/// Field offsets that lead from a weapon to its item definition.
#[derive(Clone, Copy, Debug)]
pub struct WeaponOffsets {
    pub attribute_manager: u64,
    pub item: u64,
    pub item_definition_index: u64,
}

impl Default for WeaponOffsets {
    /// Every value zero.
    fn default() -> (r: Self)
        ensures
            r.attribute_manager == 0,
            r.item == 0,
            r.item_definition_index == 0,
    {
        WeaponOffsets {
            attribute_manager: 0,
            item: 0,
            item_definition_index: 0,
        }
    }
}

/// The size of one entry of the entity list.
#[derive(Clone, Copy, Debug)]
pub struct EntityIdentityOffsets {
    pub size: i32,
}

impl Default for EntityIdentityOffsets {
    /// Every value zero.
    fn default() -> (r: Self)
        ensures
            r.size == 0,
    {
        EntityIdentityOffsets {
            size: 0,
        }
    }
}

/// Field offsets that the patch loop reads and writes. An offset of zero
/// says that the field was not found, and the loop leaves it alone.
#[derive(Clone, Copy, Debug)]
pub struct SkinOffsets {
    pub item_id_high: u64,
    pub item_id_low: u64,
    pub account_id: u64,
    pub entity_quality: u64,
    pub initialized: u64,
    pub attribute_list: u64,
    pub networked_dynamic_attrs: u64,
    pub fallback_paint_kit: u64,
    pub fallback_seed: u64,
    pub fallback_wear: u64,
    pub fallback_stattrak: u64,
    pub custom_name: u64,
    pub original_owner_xuid_low: u64,
    pub original_owner_xuid_high: u64,
}

impl Default for SkinOffsets {
    /// Every value zero.
    fn default() -> (r: Self)
        ensures
            r.item_id_high == 0,
            r.item_id_low == 0,
            r.account_id == 0,
            r.entity_quality == 0,
            r.initialized == 0,
            r.attribute_list == 0,
            r.networked_dynamic_attrs == 0,
            r.fallback_paint_kit == 0,
            r.fallback_seed == 0,
            r.fallback_wear == 0,
            r.fallback_stattrak == 0,
            r.custom_name == 0,
            r.original_owner_xuid_low == 0,
            r.original_owner_xuid_high == 0,
    {
        SkinOffsets {
            item_id_high: 0,
            item_id_low: 0,
            account_id: 0,
            entity_quality: 0,
            initialized: 0,
            attribute_list: 0,
            networked_dynamic_attrs: 0,
            fallback_paint_kit: 0,
            fallback_seed: 0,
            fallback_wear: 0,
            fallback_stattrak: 0,
            custom_name: 0,
            original_owner_xuid_low: 0,
            original_owner_xuid_high: 0,
        }
    }
}

/// Field offsets of the network game client.
#[derive(Clone, Copy, Debug)]
pub struct NetworkGameClientOffsets {
    pub delta_tick: u64,
}

impl Default for NetworkGameClientOffsets {
    /// Every value zero.
    fn default() -> (r: Self)
        ensures
            r.delta_tick == 0,
    {
        NetworkGameClientOffsets {
            delta_tick: 0,
        }
    }
}

/// The whole offset table.
#[derive(Clone, Copy, Debug)]
pub struct Offsets {
    pub library: LibraryOffsets,
    pub interface: InterfaceOffsets,
    pub direct: DirectOffsets,
    pub controller: PlayerControllerOffsets,
    pub pawn: PawnOffsets,
    pub weapon_services: WeaponServicesOffsets,
    pub weapon: WeaponOffsets,
    pub entity_identity: EntityIdentityOffsets,
    pub skin: SkinOffsets,
    pub network_client: NetworkGameClientOffsets,
}

impl Offsets {
    /// The table in which every value is zero.
    pub open spec fn zero() -> Offsets {
        Offsets {
            library: LibraryOffsets { client: 0, engine: 0, tier0: 0, input: 0, sdl: 0, schema: 0 },
            interface: InterfaceOffsets { resource: 0, entity: 0, cvar: 0, input: 0 },
            direct: DirectOffsets { local_player: 0, network_client: 0 },
            controller: PlayerControllerOffsets { pawn: 0 },
            pawn: PawnOffsets { weapon: 0, weapon_services: 0 },
            weapon_services: WeaponServicesOffsets { weapons: 0 },
            weapon: WeaponOffsets { attribute_manager: 0, item: 0, item_definition_index: 0 },
            entity_identity: EntityIdentityOffsets { size: 0 },
            skin: SkinOffsets { item_id_high: 0, item_id_low: 0, account_id: 0, entity_quality: 0, initialized: 0, attribute_list: 0, networked_dynamic_attrs: 0, fallback_paint_kit: 0, fallback_seed: 0, fallback_wear: 0, fallback_stattrak: 0, custom_name: 0, original_owner_xuid_low: 0, original_owner_xuid_high: 0 },
            network_client: NetworkGameClientOffsets { delta_tick: 0 },
        }
    }
}

impl Default for Offsets {
    /// Every value zero.
    fn default() -> (r: Self)
        ensures
            r == Offsets::zero(),
    {
        Offsets {
            library: LibraryOffsets::default(),
            interface: InterfaceOffsets::default(),
            direct: DirectOffsets::default(),
            controller: PlayerControllerOffsets::default(),
            pawn: PawnOffsets::default(),
            weapon_services: WeaponServicesOffsets::default(),
            weapon: WeaponOffsets::default(),
            entity_identity: EntityIdentityOffsets::default(),
            skin: SkinOffsets::default(),
            network_client: NetworkGameClientOffsets::default(),
        }
    }
}

} // verus!
