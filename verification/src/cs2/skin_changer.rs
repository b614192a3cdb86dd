//! The patch loop: brings the target's memory to the desired state, one
//! tick at a time.
//!
//! A tick visits the local player's active item and then every item of the
//! player's inventory. For each item that the desired state has values
//! for, the tick compares what the item holds with what is wanted and
//! writes only where the two differ. A write invalidates the item's link to
//! the inventory first, then sets every desired value, then asserts the
//! invalidated link again, reads it back, and writes it once more if the
//! target has changed it in between. Nothing is retried beyond that: what
//! one tick misses, the next one mends. The write that asserts the link
//! again stands in the journal as one that is to be read back, so that the
//! same single retry is made against the running target by whoever carries
//! the journal out.

use vstd::arithmetic::div_mod::lemma_mod_multiples_vanish;
use vstd::prelude::*;
use crate::config::{SkinChangerConfig, WeaponSkinConfig};
use crate::cs2::entity::player::{spec_entity_at, spec_local_player, Player};
use crate::cs2::entity::weapon::Weapon;
use crate::cs2::offsets::Offsets;
use crate::cs2::CS2;
use crate::memory::{spec_read_i32, spec_read_u64, unsigned32};
use crate::process::{
    issue, issue_checked, issue_i32, issue_u32, issue_u8, spec_load_u32, spec_retry, MemWrite,
    Target, WriteValue,
};

verus! {

/// The value of an inventory link that refers to no inventory item. While
/// an item holds it, the target shows the item by its fallback values.
pub const NO_INVENTORY: i32 = -1;

/// The largest number of items that an inventory is believed to hold.
pub const MAX_WEAPONS: i32 = 64;

/// The quality of an item that shows a counter.
pub const COUNTER_QUALITY: i32 = 9;

/// The quality of an item that shows none.
pub const PLAIN_QUALITY: i32 = 0;

/// The number of inventory slots that a handle can refer to.
pub const SLOT_ENTRIES: u32 = 4096;

/// Where the item view of the instance at `entity` lies.
pub open spec fn item_view(offsets: Offsets, entity: u64) -> int {
    entity + offsets.weapon.attribute_manager + offsets.weapon.item
}

/// Where the instance at `entity` holds the high half of its inventory
/// link, the field that says whether the fallback values are in force.
pub open spec fn sentinel_address(offsets: Offsets, entity: u64) -> int {
    item_view(offsets, entity) + offsets.skin.item_id_high
}

/// The values that the desired state holds for the instance at `entity`,
/// if it asks for a patch of it: the instance is there, its category is
/// known and configured.
pub open spec fn spec_wanted_skin(
    mem: Map<int, u8>,
    offsets: Offsets,
    config: Map<Weapon, WeaponSkinConfig>,
    entity: u64,
) -> Option<WeaponSkinConfig> {
    if entity == 0 {
        None
    } else {
        let weapon = Weapon::spec_from_handle(mem, offsets, entity);
        if weapon != Weapon::Unknown && config.dom().contains(weapon)
            && config[weapon].spec_is_configured() {
            Some(config[weapon])
        } else {
            None
        }
    }
}

/// Whether the instance at `entity` already holds what `skin` asks for:
/// its inventory link is invalidated, and its primary identifier is the
/// desired one.
pub open spec fn is_converged(
    mem: Map<int, u8>,
    offsets: Offsets,
    entity: u64,
    skin: WeaponSkinConfig,
) -> bool {
    &&& spec_read_i32(mem, sentinel_address(offsets, entity)) == NO_INVENTORY
    &&& spec_read_i32(mem, entity + offsets.skin.fallback_paint_kit) == skin.paint_kit
}

/// The values that are still to be written to the instance at `entity`:
/// those that the desired state holds for it, unless it holds them already.
pub open spec fn spec_pending_skin(
    mem: Map<int, u8>,
    offsets: Offsets,
    config: Map<Weapon, WeaponSkinConfig>,
    entity: u64,
) -> Option<WeaponSkinConfig> {
    match spec_wanted_skin(mem, offsets, config, entity) {
        Some(skin) => if is_converged(mem, offsets, entity, skin) {
            None
        } else {
            Some(skin)
        },
        None => None,
    }
}

/// The target after the inventory link of the instance at `entity` is
/// invalidated: the low half where its offset is known, then the high half.
pub open spec fn spec_invalidate(target: Target, offsets: Offsets, entity: u64) -> Target {
    let low = if offsets.skin.item_id_low != 0 {
        issue_i32(target, item_view(offsets, entity) + offsets.skin.item_id_low, NO_INVENTORY)
    } else {
        target
    };
    issue_i32(low, sentinel_address(offsets, entity), NO_INVENTORY)
}

/// The quality that goes with a counter value.
pub open spec fn spec_quality(stattrak: i32) -> i32 {
    if stattrak >= 0 {
        COUNTER_QUALITY
    } else {
        PLAIN_QUALITY
    }
}

/// The target after the desired values are written to the instance at
/// `entity`: the primary identifier always, every other value where the
/// offset of its field is known.
pub open spec fn spec_write_cosmetics(
    target: Target,
    offsets: Offsets,
    entity: u64,
    skin: WeaponSkinConfig,
) -> Target {
    let view = item_view(offsets, entity);
    let paint_kit = issue_i32(target, entity + offsets.skin.fallback_paint_kit, skin.paint_kit);
    let seed = if offsets.skin.fallback_seed != 0 {
        issue_i32(paint_kit, entity + offsets.skin.fallback_seed, skin.seed)
    } else {
        paint_kit
    };
    let wear = if offsets.skin.fallback_wear != 0 {
        issue_u32(seed, entity + offsets.skin.fallback_wear, skin.wear)
    } else {
        seed
    };
    let stattrak = if offsets.skin.fallback_stattrak != 0 {
        issue_i32(wear, entity + offsets.skin.fallback_stattrak, skin.stattrak)
    } else {
        wear
    };
    let account = if offsets.skin.account_id != 0 {
        issue_u32(stattrak, view + offsets.skin.account_id, 1)
    } else {
        stattrak
    };
    let quality = if offsets.skin.entity_quality != 0 {
        issue_i32(account, view + offsets.skin.entity_quality, spec_quality(skin.stattrak))
    } else {
        account
    };
    let owner_low = if offsets.skin.original_owner_xuid_low != 0 {
        issue_u32(quality, entity + offsets.skin.original_owner_xuid_low, 1)
    } else {
        quality
    };
    if offsets.skin.original_owner_xuid_high != 0 {
        issue_u32(owner_low, entity + offsets.skin.original_owner_xuid_high, 0)
    } else {
        owner_low
    }
}

/// The write that asserts the invalidated link of the instance at a place
/// again: one that is to be read back.
pub open spec fn link_write(address: u64) -> MemWrite {
    MemWrite {
        address,
        value: WriteValue::Checked(unsigned32(NO_INVENTORY as int) as u32),
    }
}

/// The target after the invalidated link is asserted again: it is written,
/// read back, and written once more if it does not read as invalidated. The
/// write goes to the journal as one that is to be read back, so that whoever
/// carries it out against the running target reads the target back as well.
pub open spec fn spec_reassert(target: Target, offsets: Offsets, entity: u64) -> Target {
    let addr = sentinel_address(offsets, entity);
    let written = issue_checked(target, addr, NO_INVENTORY);
    if addr <= u64::MAX {
        match spec_retry(link_write(addr as u64), spec_load_u32(written.mem, addr)) {
            Some(again) => issue(written, again.address as int, again.value),
            None => written,
        }
    } else {
        written
    }
}

/// The target after the instance at `entity` is told to initialise itself
/// anew: its flag is cleared and set, where the flag's offset is known.
pub open spec fn spec_reinitialize(target: Target, offsets: Offsets, entity: u64) -> Target {
    if offsets.skin.initialized != 0 {
        let flag = item_view(offsets, entity) + offsets.skin.initialized;
        issue_u8(issue_u8(target, flag, 0), flag, 1)
    } else {
        target
    }
}

/// The target after `skin` is written to the instance at `entity`.
pub open spec fn spec_write_skin(
    target: Target,
    offsets: Offsets,
    entity: u64,
    skin: WeaponSkinConfig,
) -> Target {
    spec_reinitialize(
        spec_reassert(
            spec_write_cosmetics(spec_invalidate(target, offsets, entity), offsets, entity, skin),
            offsets,
            entity,
        ),
        offsets,
        entity,
    )
}

/// The target after the desired state is applied to the instance at
/// `entity`: unchanged where nothing is pending.
pub open spec fn spec_apply_skin(
    target: Target,
    offsets: Offsets,
    config: Map<Weapon, WeaponSkinConfig>,
    entity: u64,
) -> Target {
    match spec_pending_skin(target.mem, offsets, config, entity) {
        Some(skin) => spec_write_skin(target, offsets, entity, skin),
        None => target,
    }
}

/// The instance in slot `slot` of the inventory at `data`, if the slot's
/// handle refers to one.
pub open spec fn spec_inventory_entity(
    mem: Map<int, u8>,
    offsets: Offsets,
    data: u64,
    slot: int,
) -> Option<u64> {
    spec_entity_at(mem, offsets, spec_read_i32(mem, data + 4 * slot) as int % 4096)
}

/// The target after the desired state is applied to the first `count`
/// slots of the inventory at `data`, in their order. The instance `active`
/// is passed over.
pub open spec fn spec_inventory(
    target: Target,
    offsets: Offsets,
    config: Map<Weapon, WeaponSkinConfig>,
    data: u64,
    active: u64,
    count: nat,
) -> Target
    decreases count,
{
    if count == 0 {
        target
    } else {
        let before = spec_inventory(target, offsets, config, data, active, (count - 1) as nat);
        match spec_inventory_entity(before.mem, offsets, data, count - 1) {
            Some(entity) => if entity != active {
                spec_apply_skin(before, offsets, config, entity)
            } else {
                before
            },
            None => before,
        }
    }
}

/// Whether a stored item count is believed.
pub open spec fn inventory_count_plausible(count: i32) -> bool {
    0 < count <= MAX_WEAPONS
}

/// The target after the inventory of the pawn at `pawn` is visited. An
/// inventory without services or data, or with a count that is not
/// plausible, is taken for empty.
pub open spec fn spec_visit_inventory(
    target: Target,
    offsets: Offsets,
    config: Map<Weapon, WeaponSkinConfig>,
    pawn: u64,
    active: u64,
) -> Target {
    let services = spec_read_u64(target.mem, pawn + offsets.pawn.weapon_services);
    let count = spec_read_i32(target.mem, services + offsets.weapon_services.weapons);
    let data = spec_read_u64(target.mem, services + offsets.weapon_services.weapons + 8);
    if services == 0 || data == 0 || !inventory_count_plausible(count) {
        target
    } else {
        spec_inventory(target, offsets, config, data, active, count as nat)
    }
}

/// The target after one tick of the patch loop.
pub open spec fn spec_skin_changer(
    target: Target,
    offsets: Offsets,
    enabled: bool,
    config: Map<Weapon, WeaponSkinConfig>,
) -> Target {
    if !enabled || offsets.skin.item_id_high == 0 || offsets.skin.fallback_paint_kit == 0 {
        target
    } else {
        match spec_local_player(target.mem, offsets) {
            None => target,
            Some(player) => {
                let active = spec_read_u64(target.mem, player.pawn + offsets.pawn.weapon);
                let first = if active != 0 {
                    spec_apply_skin(target, offsets, config, active)
                } else {
                    target
                };
                spec_visit_inventory(first, offsets, config, player.pawn, active)
            },
        }
    }
}

/// The target after a full update is forced: the delta tick of the network
/// game client is set to -1, if there is a client.
pub open spec fn spec_force_full_update(target: Target, offsets: Offsets) -> Target {
    let client = spec_read_u64(target.mem, offsets.direct.network_client as int);
    if client != 0 {
        issue_i32(target, client + offsets.network_client.delta_tick, NO_INVENTORY)
    } else {
        target
    }
}

impl CS2 {
    /// Whether `after` is this attachment with its target brought to
    /// `target` and nothing else changed.
    pub open spec fn patched_to(&self, after: &CS2, target: Target) -> bool {
        &&& after.process.target() == target
        &&& self.process.same_layout(&after.process)
        &&& after.offsets == self.offsets
        &&& after.is_valid == self.is_valid
    }

    /// Invalidates the inventory link of the instance at `entity`.
    pub fn invalidate_inventory_link(&mut self, entity: u64)
        ensures
            old(self).patched_to(
                final(self),
                spec_invalidate(old(self).process.target(), old(self).offsets, entity),
            ),
    {
        let view: u128 = entity as u128 + self.offsets.weapon.attribute_manager as u128
            + self.offsets.weapon.item as u128;
        if self.offsets.skin.item_id_low != 0 {
            self.process.write_i32(view + self.offsets.skin.item_id_low as u128, NO_INVENTORY);
        }
        self.process.write_i32(view + self.offsets.skin.item_id_high as u128, NO_INVENTORY);
    }

    /// Writes the desired values to the instance at `entity`.
    pub fn write_cosmetics(&mut self, entity: u64, skin: &WeaponSkinConfig)
        ensures
            old(self).patched_to(
                final(self),
                spec_write_cosmetics(
                    old(self).process.target(),
                    old(self).offsets,
                    entity,
                    *skin,
                ),
            ),
    {
        let base: u128 = entity as u128;
        let view: u128 = base + self.offsets.weapon.attribute_manager as u128
            + self.offsets.weapon.item as u128;
        self.process.write_i32(base + self.offsets.skin.fallback_paint_kit as u128, skin.paint_kit);
        if self.offsets.skin.fallback_seed != 0 {
            self.process.write_i32(base + self.offsets.skin.fallback_seed as u128, skin.seed);
        }
        if self.offsets.skin.fallback_wear != 0 {
            self.process.write_u32(base + self.offsets.skin.fallback_wear as u128, skin.wear);
        }
        if self.offsets.skin.fallback_stattrak != 0 {
            self.process.write_i32(
                base + self.offsets.skin.fallback_stattrak as u128,
                skin.stattrak,
            );
        }
        if self.offsets.skin.account_id != 0 {
            self.process.write_u32(view + self.offsets.skin.account_id as u128, 1);
        }
        if self.offsets.skin.entity_quality != 0 {
            let quality: i32 = if skin.stattrak >= 0 {
                COUNTER_QUALITY
            } else {
                PLAIN_QUALITY
            };
            self.process.write_i32(view + self.offsets.skin.entity_quality as u128, quality);
        }
        if self.offsets.skin.original_owner_xuid_low != 0 {
            self.process.write_u32(base + self.offsets.skin.original_owner_xuid_low as u128, 1);
        }
        if self.offsets.skin.original_owner_xuid_high != 0 {
            self.process.write_u32(base + self.offsets.skin.original_owner_xuid_high as u128, 0);
        }
    }

    /// Asserts the invalidated link of the instance at `entity` again,
    /// reads it back and writes it once more if the target has changed it.
    pub fn reassert_inventory_link(&mut self, entity: u64)
        ensures
            old(self).patched_to(
                final(self),
                spec_reassert(old(self).process.target(), old(self).offsets, entity),
            ),
    {
        let sentinel: u128 = entity as u128 + self.offsets.weapon.attribute_manager as u128
            + self.offsets.weapon.item as u128 + self.offsets.skin.item_id_high as u128;
        self.process.write_checked(sentinel, NO_INVENTORY);
        if sentinel > u64::MAX as u128 {
            return ;
        }
        let write = MemWrite { address: sentinel as u64, value: WriteValue::Checked(0xFFFF_FFFF) };
        let verify: Option<u32> = self.process.memory.load_u32(sentinel as u64);
        match write.retry(verify) {
            Some(again) => {
                self.process.issue_write(&again);
            },
            None => {},
        }
    }

    /// Tells the instance at `entity` to initialise itself anew.
    pub fn reinitialize(&mut self, entity: u64)
        ensures
            old(self).patched_to(
                final(self),
                spec_reinitialize(old(self).process.target(), old(self).offsets, entity),
            ),
    {
        if self.offsets.skin.initialized != 0 {
            let flag: u128 = entity as u128 + self.offsets.weapon.attribute_manager as u128
                + self.offsets.weapon.item as u128 + self.offsets.skin.initialized as u128;
            self.process.write_u8(flag, 0);
            self.process.write_u8(flag, 1);
        }
    }

    /// The values that are still to be written to the instance at
    /// `weapon_entity`.
    pub fn pending_skin(&self, weapon_entity: u64, config: &SkinChangerConfig) -> (r: Option<
        WeaponSkinConfig,
    >)
        ensures
            r == spec_pending_skin(
                self.process.memory@,
                self.offsets,
                config.skins_view(),
                weapon_entity,
            ),
    {
        if weapon_entity == 0 {
            return None;
        }
        let weapon = Weapon::from_handle(weapon_entity, self);
        if weapon == Weapon::Unknown {
            return None;
        }
        let skin = match config.get(weapon) {
            Some(skin) => skin,
            None => {
                return None;
            },
        };
        if !skin.is_configured() {
            return None;
        }
        let current_paint_kit: i32 = self.process.memory.read_i32_at(
            weapon_entity as u128 + self.offsets.skin.fallback_paint_kit as u128,
        );
        let current_item_id_high: i32 = self.process.memory.read_i32_at(
            weapon_entity as u128 + self.offsets.weapon.attribute_manager as u128
                + self.offsets.weapon.item as u128 + self.offsets.skin.item_id_high as u128,
        );
        if current_item_id_high == NO_INVENTORY && current_paint_kit == skin.paint_kit {
            return None;
        }
        Some(skin)
    }

    /// Applies the desired state to the instance at `weapon_entity` and
    /// says whether anything was written.
    pub fn apply_skin_to_weapon(&mut self, weapon_entity: u64, config: &SkinChangerConfig) -> (r:
        bool)
        ensures
            old(self).patched_to(
                final(self),
                spec_apply_skin(
                    old(self).process.target(),
                    old(self).offsets,
                    config.skins_view(),
                    weapon_entity,
                ),
            ),
            r == spec_pending_skin(
                old(self).process.memory@,
                old(self).offsets,
                config.skins_view(),
                weapon_entity,
            ) is Some,
    {
        let skin = match self.pending_skin(weapon_entity, config) {
            Some(skin) => skin,
            None => {
                return false;
            },
        };
        self.invalidate_inventory_link(weapon_entity);
        self.write_cosmetics(weapon_entity, &skin);
        self.reassert_inventory_link(weapon_entity);
        self.reinitialize(weapon_entity);
        true
    }

    /// Visits the inventory of the pawn at `pawn`.
    pub fn visit_inventory(&mut self, pawn: u64, active: u64, config: &SkinChangerConfig)
        ensures
            old(self).patched_to(
                final(self),
                spec_visit_inventory(
                    old(self).process.target(),
                    old(self).offsets,
                    config.skins_view(),
                    pawn,
                    active,
                ),
            ),
    {
        let ghost start = self.process.target();
        let weapon_services: u64 = self.process.memory.read_u64_at(
            pawn as u128 + self.offsets.pawn.weapon_services as u128,
        );
        if weapon_services == 0 {
            return ;
        }
        let weapons_count: i32 = self.process.memory.read_i32_at(
            weapon_services as u128 + self.offsets.weapon_services.weapons as u128,
        );
        let weapons_data: u64 = self.process.memory.read_u64_at(
            weapon_services as u128 + self.offsets.weapon_services.weapons as u128 + 8,
        );
        if weapons_data == 0 || weapons_count <= 0 || weapons_count > MAX_WEAPONS {
            return ;
        }
        let count: u64 = weapons_count as u64;
        let mut i: u64 = 0;
        while i < count
            invariant
                i <= count <= 64,
                old(self).patched_to(
                    self,
                    spec_inventory(
                        start,
                        old(self).offsets,
                        config.skins_view(),
                        weapons_data,
                        active,
                        i as nat,
                    ),
                ),
            decreases count - i,
        {
            let weapon_handle: i32 = self.process.memory.read_i32_at(
                weapons_data as u128 + 4 * (i as u128),
            );
            let raw: u32 = if weapon_handle < 0 {
                (weapon_handle as i64 + 4294967296) as u32
            } else {
                weapon_handle as u32
            };
            let weapon_index: u32 = raw % SLOT_ENTRIES;
            proof {
                lemma_mod_multiples_vanish(1048576, weapon_handle as int, 4096);
            }
            match Player::get_client_entity(self, weapon_index as u64) {
                Some(weapon_entity) => {
                    if weapon_entity != active {
                        self.apply_skin_to_weapon(weapon_entity, config);
                    }
                },
                None => {},
            }
            i += 1;
        }
    }

    /// Runs one tick of the patch loop: applies the desired state to the
    /// local player's active item and to every other item of the player's
    /// inventory. Nothing is done while the desired state is disabled, the
    /// offsets of the link or of the primary identifier are unknown, or
    /// the target has no local player.
    pub fn skin_changer(&mut self, config: &SkinChangerConfig)
        ensures
            old(self).patched_to(
                final(self),
                spec_skin_changer(
                    old(self).process.target(),
                    old(self).offsets,
                    config.enabled,
                    config.skins_view(),
                ),
            ),
    {
        if !config.enabled {
            return ;
        }
        if self.offsets.skin.item_id_high == 0 || self.offsets.skin.fallback_paint_kit == 0 {
            return ;
        }
        let local_player = match Player::local_player(self) {
            Some(player) => player,
            None => {
                return ;
            },
        };
        let active_weapon: u64 = self.process.memory.read_u64_at(
            local_player.pawn as u128 + self.offsets.pawn.weapon as u128,
        );
        if active_weapon != 0 {
            self.apply_skin_to_weapon(active_weapon, config);
        }
        self.visit_inventory(local_player.pawn, active_weapon, config);
    }

    /// Forces the target to take a full update from its server.
    pub fn force_full_update(&mut self)
        ensures
            old(self).patched_to(
                final(self),
                spec_force_full_update(old(self).process.target(), old(self).offsets),
            ),
    {
        let network_client: u64 = self.process.memory.read_u64(self.offsets.direct.network_client);
        if network_client != 0 {
            self.process.write_i32(
                network_client as u128 + self.offsets.network_client.delta_tick as u128,
                NO_INVENTORY,
            );
        }
    }
}

} // verus!
