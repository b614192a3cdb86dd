//! What holds of a whole tick: the instance that a tick writes is restored
//! when the tick ends, and a tick that has restored it leaves a target on
//! which the next tick writes nothing.

use vstd::prelude::*;
use crate::config::WeaponSkinConfig;
use crate::cs2::convergence::{
    extends_by, inventory_settled, lemma_apply_bounded, lemma_extends_self,
    lemma_inventory_bounded, lemma_settled_inventory_untouched,
    lemma_settled_tick_writes_nothing, replay, tick_settled,
};
use crate::cs2::entity::player::{spec_entity_at, spec_local_player};
use crate::cs2::entity::weapon::Weapon;
use crate::cs2::offsets::Offsets;
use crate::cs2::protocol::{
    fields_disjoint, fields_mapped, holds, is_restored, lemma_write_keeps,
    lemma_protocol_is_write, lemma_restored_is_steps, lemma_write_skin_restores, perform,
    protocol, protocol_len, step_at, step_holds, width, Step,
};
use crate::cs2::skin_changer::{
    inventory_count_plausible, sentinel_address, spec_apply_skin, spec_inventory_entity,
    spec_pending_skin, spec_skin_changer, spec_visit_inventory, spec_wanted_skin,
    spec_write_skin,
};
use crate::memory::{spec_read_i32, spec_read_u16, spec_read_u64};
use crate::process::{issue, MemWrite, Target, WriteValue};

verus! {

/// Whether a write lies clear of `count` bytes from `addr`.
pub open spec fn write_clear_of(write: MemWrite, addr: int, count: int) -> bool {
    write.address + width(write.value) <= addr || addr + count <= write.address
}

/// Writes that lie clear of a value leave it as it was.
pub proof fn lemma_replay_keeps(
    mem: Map<int, u8>,
    writes: Seq<MemWrite>,
    addr: int,
    value: WriteValue,
)
    requires
        holds(mem, addr, value),
        forall|i: int|
            0 <= i < writes.len() ==> write_clear_of(#[trigger] writes[i], addr, width(value)),
    ensures
        holds(replay(mem, writes), addr, value),
    decreases writes.len(),
{
    if writes.len() > 0 {
        let earlier = writes.drop_last();
        assert forall|i: int| 0 <= i < earlier.len() implies write_clear_of(
            #[trigger] earlier[i],
            addr,
            width(value),
        ) by {
            assert(earlier[i] == writes[i]);
        }
        lemma_replay_keeps(mem, earlier, addr, value);
        let last = writes.last();
        assert(write_clear_of(writes[writes.len() - 1], addr, width(value)));
        lemma_write_keeps(replay(mem, earlier), last.address as int, last.value, addr, value);
    }
}

/// Whether every write of a journal from entry `from` on lies clear of the
/// fields of the instance at `entity`.
pub open spec fn journal_clear_of(
    log: Seq<MemWrite>,
    from: int,
    offsets: Offsets,
    entity: u64,
    skin: WeaponSkinConfig,
) -> bool {
    forall|i: int, k: int|
        from <= i < log.len() && 0 <= k < protocol_len() && (#[trigger] step_at(
            offsets,
            entity,
            skin,
            k,
        )).wanted ==> write_clear_of(
            #[trigger] log[i],
            step_at(offsets, entity, skin, k).addr,
            width(step_at(offsets, entity, skin, k).value),
        )
}

/// The local player's active instance as a tick finds it.
pub open spec fn spec_active(mem: Map<int, u8>, offsets: Offsets) -> Option<u64> {
    match spec_local_player(mem, offsets) {
        Some(player) => Some(spec_read_u64(mem, player.pawn + offsets.pawn.weapon)),
        None => None,
    }
}

/// Whether a tick on this target writes to the local player's active
/// instance, and `skin` is what it writes: the desired state is switched on,
/// the offsets that a tick needs are known, there is a local player, and
/// `skin` is pending for the player's active instance.
pub open spec fn tick_writes_active(
    target: Target,
    offsets: Offsets,
    enabled: bool,
    config: Map<Weapon, WeaponSkinConfig>,
    skin: WeaponSkinConfig,
) -> bool {
    &&& enabled
    &&& offsets.skin.item_id_high != 0
    &&& offsets.skin.fallback_paint_kit != 0
    &&& spec_active(target.mem, offsets) is Some
    &&& spec_pending_skin(target.mem, offsets, config, spec_active(target.mem, offsets).unwrap())
        == Some(skin)
}

/// A tick restores the active instance within the tick: where values are
/// pending for the local player's active instance, the fields of the
/// instance are mapped and no two of them overlap, and the writes that the
/// tick issues for the inventory lie clear of these fields, the instance
/// holds the invalidated link and every desired value when the tick ends,
/// whatever it held before.
pub proof fn lemma_tick_restores_active(
    target: Target,
    offsets: Offsets,
    enabled: bool,
    config: Map<Weapon, WeaponSkinConfig>,
    skin: WeaponSkinConfig,
)
    requires
        tick_writes_active(target, offsets, enabled, config, skin),
        fields_mapped(target.mem, offsets, spec_active(target.mem, offsets).unwrap(), skin),
        fields_disjoint(offsets, spec_active(target.mem, offsets).unwrap(), skin),
        journal_clear_of(
            spec_skin_changer(target, offsets, enabled, config).log,
            spec_write_skin(
                target,
                offsets,
                spec_active(target.mem, offsets).unwrap(),
                skin,
            ).log.len() as int,
            offsets,
            spec_active(target.mem, offsets).unwrap(),
            skin,
        ),
    ensures
        is_restored(
            spec_skin_changer(target, offsets, enabled, config).mem,
            offsets,
            spec_active(target.mem, offsets).unwrap(),
            skin,
        ),
{
    let player = spec_local_player(target.mem, offsets).unwrap();
    let active = spec_active(target.mem, offsets).unwrap();
    let first = spec_write_skin(target, offsets, active, skin);
    assert(first == spec_apply_skin(target, offsets, config, active));
    let last = spec_skin_changer(target, offsets, enabled, config);
    assert(last == spec_visit_inventory(first, offsets, config, player.pawn, active));
    lemma_visit_bounded(first, offsets, config, player.pawn, active);
    lemma_write_skin_restores(target, offsets, active, skin);
    lemma_restored_kept(first, last, 896, offsets, active, skin);
}

/// Writes that lie clear of the fields of an instance leave a restored
/// instance restored.
pub proof fn lemma_restored_kept(
    first: Target,
    last: Target,
    more: int,
    offsets: Offsets,
    entity: u64,
    skin: WeaponSkinConfig,
)
    requires
        is_restored(first.mem, offsets, entity, skin),
        extends_by(first, last, more),
        journal_clear_of(last.log, first.log.len() as int, offsets, entity, skin),
    ensures
        is_restored(last.mem, offsets, entity, skin),
{
    lemma_restored_is_steps(first.mem, offsets, entity, skin);
    lemma_restored_is_steps(last.mem, offsets, entity, skin);
    let fresh = last.log.skip(first.log.len() as int);
    assert forall|k: int|
        0 <= k < protocol_len() && step_holds(first.mem, offsets, entity, skin, k) implies step_holds(
        last.mem,
        offsets,
        entity,
        skin,
        k,
    ) by {
        let step = step_at(offsets, entity, skin, k);
        if step.wanted {
            assert forall|i: int| 0 <= i < fresh.len() implies write_clear_of(
                #[trigger] fresh[i],
                step.addr,
                width(step.value),
            ) by {
                assert(fresh[i] == last.log[first.log.len() + i]);
            }
            lemma_replay_keeps(first.mem, fresh, step.addr, step.value);
        }
    }
}

/// Visiting an inventory issues at most 14 writes for each of the 64 slots
/// that it can have, and changes the memory as the journal says.
pub proof fn lemma_visit_bounded(
    target: Target,
    offsets: Offsets,
    config: Map<Weapon, WeaponSkinConfig>,
    pawn: u64,
    active: u64,
)
    ensures
        extends_by(target, spec_visit_inventory(target, offsets, config, pawn, active), 896),
{
    let services = spec_read_u64(target.mem, pawn + offsets.pawn.weapon_services);
    let count = spec_read_i32(target.mem, services + offsets.weapon_services.weapons);
    let data = spec_read_u64(target.mem, services + offsets.weapon_services.weapons + 8);
    lemma_extends_self(target);
    if services != 0 && data != 0 && inventory_count_plausible(count) {
        lemma_inventory_bounded(target, offsets, config, data, active, count as nat);
    }
}

/// Whether the inventory that a tick finds in this memory holds nothing
/// pending: it is taken for empty, or each of its slots is empty, holds the
/// active instance, or holds an instance to which nothing is to be written.
pub open spec fn inventory_rests(
    mem: Map<int, u8>,
    offsets: Offsets,
    config: Map<Weapon, WeaponSkinConfig>,
    pawn: u64,
    active: u64,
) -> bool {
    let services = spec_read_u64(mem, pawn + offsets.pawn.weapon_services);
    let count = spec_read_i32(mem, services + offsets.weapon_services.weapons);
    let data = spec_read_u64(mem, services + offsets.weapon_services.weapons + 8);
    services != 0 && data != 0 && inventory_count_plausible(count) ==> inventory_settled(
        mem,
        offsets,
        config,
        data,
        active,
        count as nat,
    )
}

/// Whether the write of `skin` to the local player's active instance leaves
/// what a tick finds its way by as it was: the local player, the active
/// instance and the values that the desired state holds for it are found
/// after the write as before.
pub open spec fn write_keeps_the_way(
    target: Target,
    offsets: Offsets,
    config: Map<Weapon, WeaponSkinConfig>,
    skin: WeaponSkinConfig,
) -> bool {
    let active = spec_active(target.mem, offsets).unwrap();
    let written = spec_write_skin(target, offsets, active, skin).mem;
    &&& spec_local_player(written, offsets) == spec_local_player(target.mem, offsets)
    &&& spec_active(written, offsets) == Some(active)
    &&& spec_wanted_skin(written, offsets, config, active) == Some(skin)
}

/// A tick that writes the active instance, and nothing else, brings the
/// target to rest: where values are pending for the local player's active
/// instance, the fields of the instance are mapped and no two of them
/// overlap, the write leaves what a tick finds its way by as it was, and
/// the inventory holds nothing pending once the instance is written, the
/// tick is the write to that instance, the instance holds the invalidated
/// link and every desired value when the tick ends, and a second tick with
/// nothing changed in between issues no write.
pub proof fn lemma_tick_then_rest(
    target: Target,
    offsets: Offsets,
    enabled: bool,
    config: Map<Weapon, WeaponSkinConfig>,
    skin: WeaponSkinConfig,
)
    requires
        tick_writes_active(target, offsets, enabled, config, skin),
        fields_mapped(target.mem, offsets, spec_active(target.mem, offsets).unwrap(), skin),
        fields_disjoint(offsets, spec_active(target.mem, offsets).unwrap(), skin),
        write_keeps_the_way(target, offsets, config, skin),
        inventory_rests(
            spec_write_skin(target, offsets, spec_active(target.mem, offsets).unwrap(), skin).mem,
            offsets,
            config,
            spec_local_player(target.mem, offsets).unwrap().pawn,
            spec_active(target.mem, offsets).unwrap(),
        ),
    ensures
        spec_skin_changer(target, offsets, enabled, config) == spec_write_skin(
            target,
            offsets,
            spec_active(target.mem, offsets).unwrap(),
            skin,
        ),
        is_restored(
            spec_skin_changer(target, offsets, enabled, config).mem,
            offsets,
            spec_active(target.mem, offsets).unwrap(),
            skin,
        ),
        spec_skin_changer(
            spec_skin_changer(target, offsets, enabled, config),
            offsets,
            enabled,
            config,
        ) == spec_skin_changer(target, offsets, enabled, config),
{
    let player = spec_local_player(target.mem, offsets).unwrap();
    let active = spec_active(target.mem, offsets).unwrap();
    let first = spec_write_skin(target, offsets, active, skin);
    assert(first == spec_apply_skin(target, offsets, config, active));
    let services = spec_read_u64(first.mem, player.pawn + offsets.pawn.weapon_services);
    let count = spec_read_i32(first.mem, services + offsets.weapon_services.weapons);
    let data = spec_read_u64(first.mem, services + offsets.weapon_services.weapons + 8);
    if services != 0 && data != 0 && inventory_count_plausible(count) {
        lemma_settled_inventory_untouched(first, offsets, config, data, active, count as nat);
    }
    assert(spec_visit_inventory(first, offsets, config, player.pawn, active) == first);
    lemma_write_skin_restores(target, offsets, active, skin);
    assert(spec_pending_skin(first.mem, offsets, config, active) is None);
    assert(tick_settled(first.mem, offsets, config));
    lemma_settled_tick_writes_nothing(first, offsets, enabled, config);
}

/// Whether two images agree on `count` bytes from `addr`: the same bytes
/// are mapped, and they hold the same.
pub open spec fn same_bytes(mem: Map<int, u8>, other: Map<int, u8>, addr: int, count: int) -> bool {
    forall|a: int|
        #![trigger mem.dom().contains(a)]
        #![trigger other.dom().contains(a)]
        addr <= a < addr + count ==> mem.dom().contains(a) == other.dom().contains(a) && mem[a]
            == other[a]
}

/// Whether no step of a list goes to any of `count` bytes from `addr`.
pub open spec fn steps_clear_of(
    steps: spec_fn(int) -> Step,
    upto: nat,
    addr: int,
    count: int,
) -> bool {
    forall|k: int|
        0 <= k < upto && (#[trigger] steps(k)).wanted ==> steps(k).addr + width(steps(k).value)
            <= addr || addr + count <= steps(k).addr
}

/// Steps change no byte that none of them goes to.
pub proof fn lemma_perform_frame(
    target: Target,
    steps: spec_fn(int) -> Step,
    upto: nat,
    addr: int,
    count: int,
)
    requires
        steps_clear_of(steps, upto, addr, count),
    ensures
        same_bytes(perform(target, steps, upto).mem, target.mem, addr, count),
    decreases upto,
{
    if upto > 0 {
        lemma_perform_frame(target, steps, (upto - 1) as nat, addr, count);
        let step = steps(upto - 1);
        let before = perform(target, steps, (upto - 1) as nat);
        let after = perform(target, steps, upto);
        assert(step.wanted ==> step.addr + width(step.value) <= addr || addr + count <= step.addr);
        assert forall|a: int| addr <= a < addr + count implies after.mem.dom().contains(a)
            == before.mem.dom().contains(a) && after.mem[a] == before.mem[a] by {
            if step.wanted {
                lemma_issue_frame(before, step.addr, step.value, a);
            }
        }
    }
}

/// A write changes no byte that it does not go to.
pub proof fn lemma_issue_frame(target: Target, addr: int, value: WriteValue, other: int)
    requires
        other < addr || addr + width(value) <= other,
    ensures
        issue(target, addr, value).mem.dom().contains(other) == target.mem.dom().contains(other),
        issue(target, addr, value).mem[other] == target.mem[other],
{
}

/// Whether no field that a write of `skin` to the instance at `entity`
/// touches has any of `count` bytes from `addr`.
pub open spec fn clear_of_instance(
    offsets: Offsets,
    entity: u64,
    skin: WeaponSkinConfig,
    addr: int,
    count: int,
) -> bool {
    steps_clear_of(protocol(offsets, entity, skin), protocol_len(), addr, count)
}

/// A write to an instance changes no byte outside the fields of the
/// instance.
pub proof fn lemma_write_frame(
    target: Target,
    offsets: Offsets,
    entity: u64,
    skin: WeaponSkinConfig,
    addr: int,
    count: int,
)
    requires
        fields_mapped(target.mem, offsets, entity, skin),
        clear_of_instance(offsets, entity, skin, addr, count),
    ensures
        same_bytes(spec_write_skin(target, offsets, entity, skin).mem, target.mem, addr, count),
{
    let steps = protocol(offsets, entity, skin);
    assert(steps(1).wanted);
    lemma_protocol_is_write(target, offsets, entity, skin);
    lemma_perform_frame(target, steps, protocol_len(), addr, count);
}

/// Images that agree on the bytes of a value read the same value.
pub proof fn lemma_same_reads(mem: Map<int, u8>, other: Map<int, u8>, addr: int)
    ensures
        same_bytes(mem, other, addr, 2) ==> spec_read_u16(mem, addr) == spec_read_u16(other, addr),
        same_bytes(mem, other, addr, 4) ==> spec_read_i32(mem, addr) == spec_read_i32(other, addr),
        same_bytes(mem, other, addr, 8) ==> spec_read_u64(mem, addr) == spec_read_u64(other, addr),
{
}

/// An image that agrees with another on the two places that the lookup of
/// an entity reads finds the same entity.
pub proof fn lemma_entity_kept(mem: Map<int, u8>, other: Map<int, u8>, offsets: Offsets, index: int)
    requires
        same_bytes(other, mem, offsets.interface.entity + 8 * (index / 512), 8),
        same_bytes(
            other,
            mem,
            spec_read_u64(mem, offsets.interface.entity + 8 * (index / 512))
                + offsets.entity_identity.size * (index % 512),
            8,
        ),
    ensures
        spec_entity_at(other, offsets, index) == spec_entity_at(mem, offsets, index),
{
    lemma_same_reads(other, mem, offsets.interface.entity + 8 * (index / 512));
    lemma_same_reads(
        other,
        mem,
        spec_read_u64(mem, offsets.interface.entity + 8 * (index / 512))
            + offsets.entity_identity.size * (index % 512),
    );
}

/// Whether the lookup of the entity at `index` reads no byte of the fields
/// of the instance at `entity`.
pub open spec fn lookup_clear_of_instance(
    mem: Map<int, u8>,
    offsets: Offsets,
    entity: u64,
    skin: WeaponSkinConfig,
    index: int,
) -> bool {
    &&& clear_of_instance(offsets, entity, skin, offsets.interface.entity + 8 * (index / 512), 8)
    &&& clear_of_instance(
        offsets,
        entity,
        skin,
        spec_read_u64(mem, offsets.interface.entity + 8 * (index / 512))
            + offsets.entity_identity.size * (index % 512),
        8,
    )
}

/// Whether what a tick reads of an instance to tell its category and
/// whether anything is pending for it lies clear of the fields of the
/// instance at `entity`.
pub open spec fn instance_clear_of_instance(
    offsets: Offsets,
    entity: u64,
    skin: WeaponSkinConfig,
    other: u64,
) -> bool {
    &&& clear_of_instance(
        offsets,
        entity,
        skin,
        other + offsets.weapon.attribute_manager + offsets.weapon.item
            + offsets.weapon.item_definition_index,
        2,
    )
    &&& clear_of_instance(offsets, entity, skin, sentinel_address(offsets, other), 4)
    &&& clear_of_instance(offsets, entity, skin, other + offsets.skin.fallback_paint_kit, 4)
}

/// Whether what a tick reads to find the local player and the player's
/// active instance, and to tell the category of that instance, lies clear
/// of the fields that a write to the active instance touches.
pub open spec fn way_clear_of_active(
    mem: Map<int, u8>,
    offsets: Offsets,
    skin: WeaponSkinConfig,
) -> bool {
    let active = spec_active(mem, offsets).unwrap();
    let controller = spec_read_u64(mem, offsets.direct.local_player as int);
    let handle = spec_read_i32(mem, controller + offsets.controller.pawn);
    let pawn = spec_local_player(mem, offsets).unwrap().pawn;
    &&& clear_of_instance(offsets, active, skin, offsets.direct.local_player as int, 8)
    &&& clear_of_instance(offsets, active, skin, controller + offsets.controller.pawn, 4)
    &&& lookup_clear_of_instance(mem, offsets, active, skin, handle as int % 32768)
    &&& clear_of_instance(offsets, active, skin, pawn + offsets.pawn.weapon, 8)
    &&& clear_of_instance(
        offsets,
        active,
        skin,
        active + offsets.weapon.attribute_manager + offsets.weapon.item
            + offsets.weapon.item_definition_index,
        2,
    )
}

/// A write to the active instance whose fields lie clear of what a tick
/// finds its way by leaves the way as it was.
pub proof fn lemma_way_kept(
    target: Target,
    offsets: Offsets,
    enabled: bool,
    config: Map<Weapon, WeaponSkinConfig>,
    skin: WeaponSkinConfig,
)
    requires
        tick_writes_active(target, offsets, enabled, config, skin),
        fields_mapped(target.mem, offsets, spec_active(target.mem, offsets).unwrap(), skin),
        way_clear_of_active(target.mem, offsets, skin),
    ensures
        write_keeps_the_way(target, offsets, config, skin),
{
    let mem = target.mem;
    let active = spec_active(mem, offsets).unwrap();
    let written = spec_write_skin(target, offsets, active, skin).mem;
    let controller = spec_read_u64(mem, offsets.direct.local_player as int);
    let handle = spec_read_i32(mem, controller + offsets.controller.pawn);
    let index = handle as int % 32768;
    let pawn = spec_local_player(mem, offsets).unwrap().pawn;
    let bucket_at = offsets.interface.entity + 8 * (index / 512);
    let entry_at = spec_read_u64(mem, bucket_at) + offsets.entity_identity.size * (index % 512);
    let index_at = active + offsets.weapon.attribute_manager + offsets.weapon.item
        + offsets.weapon.item_definition_index;
    lemma_write_frame(target, offsets, active, skin, offsets.direct.local_player as int, 8);
    lemma_same_reads(written, mem, offsets.direct.local_player as int);
    lemma_write_frame(target, offsets, active, skin, controller + offsets.controller.pawn, 4);
    lemma_same_reads(written, mem, controller + offsets.controller.pawn);
    lemma_write_frame(target, offsets, active, skin, bucket_at, 8);
    lemma_write_frame(target, offsets, active, skin, entry_at, 8);
    lemma_entity_kept(mem, written, offsets, index);
    assert(spec_local_player(written, offsets) == spec_local_player(mem, offsets));
    lemma_write_frame(target, offsets, active, skin, pawn + offsets.pawn.weapon, 8);
    lemma_same_reads(written, mem, pawn + offsets.pawn.weapon);
    lemma_write_frame(target, offsets, active, skin, index_at, 2);
    lemma_same_reads(written, mem, index_at);
}

/// Whether what a tick reads of slot `slot` of the inventory at `data`
/// lies clear of the fields of the instance at `entity`.
pub open spec fn slot_clear_of_instance(
    mem: Map<int, u8>,
    offsets: Offsets,
    entity: u64,
    skin: WeaponSkinConfig,
    data: u64,
    slot: int,
) -> bool {
    &&& clear_of_instance(offsets, entity, skin, data + 4 * slot, 4)
    &&& lookup_clear_of_instance(
        mem,
        offsets,
        entity,
        skin,
        spec_read_i32(mem, data + 4 * slot) as int % 4096,
    )
    &&& match spec_inventory_entity(mem, offsets, data, slot) {
        Some(other) => other != entity ==> instance_clear_of_instance(offsets, entity, skin, other),
        None => true,
    }
}

/// Whether what a tick reads of the inventory of the pawn at `pawn` lies
/// clear of the fields of the instance at `entity`.
pub open spec fn inventory_clear_of_instance(
    mem: Map<int, u8>,
    offsets: Offsets,
    entity: u64,
    skin: WeaponSkinConfig,
    pawn: u64,
) -> bool {
    let services = spec_read_u64(mem, pawn + offsets.pawn.weapon_services);
    let count = spec_read_i32(mem, services + offsets.weapon_services.weapons);
    let data = spec_read_u64(mem, services + offsets.weapon_services.weapons + 8);
    &&& clear_of_instance(offsets, entity, skin, pawn + offsets.pawn.weapon_services, 8)
    &&& clear_of_instance(offsets, entity, skin, services + offsets.weapon_services.weapons, 4)
    &&& clear_of_instance(offsets, entity, skin, services + offsets.weapon_services.weapons + 8, 8)
    &&& inventory_count_plausible(count) ==> forall|slot: int|
        0 <= slot < count ==> #[trigger] slot_clear_of_instance(
            mem,
            offsets,
            entity,
            skin,
            data,
            slot,
        )
}

/// A write to an instance whose fields lie clear of what a tick reads of
/// another instance leaves what is pending for the other as it was.
pub proof fn lemma_pending_kept(
    target: Target,
    offsets: Offsets,
    config: Map<Weapon, WeaponSkinConfig>,
    entity: u64,
    skin: WeaponSkinConfig,
    other: u64,
)
    requires
        fields_mapped(target.mem, offsets, entity, skin),
        instance_clear_of_instance(offsets, entity, skin, other),
    ensures
        spec_pending_skin(
            spec_write_skin(target, offsets, entity, skin).mem,
            offsets,
            config,
            other,
        ) == spec_pending_skin(target.mem, offsets, config, other),
{
    let written = spec_write_skin(target, offsets, entity, skin).mem;
    let index_at = other + offsets.weapon.attribute_manager + offsets.weapon.item
        + offsets.weapon.item_definition_index;
    lemma_write_frame(target, offsets, entity, skin, index_at, 2);
    lemma_same_reads(written, target.mem, index_at);
    lemma_write_frame(target, offsets, entity, skin, sentinel_address(offsets, other), 4);
    lemma_same_reads(written, target.mem, sentinel_address(offsets, other));
    lemma_write_frame(target, offsets, entity, skin, other + offsets.skin.fallback_paint_kit, 4);
    lemma_same_reads(written, target.mem, other + offsets.skin.fallback_paint_kit);
}

/// A write to an instance whose fields lie clear of what a tick reads of
/// the inventory leaves an inventory in which nothing is pending as it was.
pub proof fn lemma_inventory_kept(
    target: Target,
    offsets: Offsets,
    config: Map<Weapon, WeaponSkinConfig>,
    entity: u64,
    skin: WeaponSkinConfig,
    pawn: u64,
)
    requires
        fields_mapped(target.mem, offsets, entity, skin),
        inventory_clear_of_instance(target.mem, offsets, entity, skin, pawn),
        inventory_rests(target.mem, offsets, config, pawn, entity),
    ensures
        inventory_rests(
            spec_write_skin(target, offsets, entity, skin).mem,
            offsets,
            config,
            pawn,
            entity,
        ),
{
    let mem = target.mem;
    let written = spec_write_skin(target, offsets, entity, skin).mem;
    let services = spec_read_u64(mem, pawn + offsets.pawn.weapon_services);
    let count = spec_read_i32(mem, services + offsets.weapon_services.weapons);
    let data = spec_read_u64(mem, services + offsets.weapon_services.weapons + 8);
    lemma_write_frame(target, offsets, entity, skin, pawn + offsets.pawn.weapon_services, 8);
    lemma_same_reads(written, mem, pawn + offsets.pawn.weapon_services);
    lemma_write_frame(target, offsets, entity, skin, services + offsets.weapon_services.weapons, 4);
    lemma_same_reads(written, mem, services + offsets.weapon_services.weapons);
    lemma_write_frame(
        target,
        offsets,
        entity,
        skin,
        services + offsets.weapon_services.weapons + 8,
        8,
    );
    lemma_same_reads(written, mem, services + offsets.weapon_services.weapons + 8);
    if services != 0 && data != 0 && inventory_count_plausible(count) {
        assert forall|slot: int| 0 <= slot < count implies match #[trigger] spec_inventory_entity(
            written,
            offsets,
            data,
            slot,
        ) {
            Some(other) => other == entity || spec_pending_skin(written, offsets, config, other)
                is None,
            None => true,
        } by {
            lemma_slot_kept(target, offsets, config, entity, skin, data, slot);
            assert(slot_clear_of_instance(mem, offsets, entity, skin, data, slot));
            let found = spec_inventory_entity(mem, offsets, data, slot);
            assert(match found {
                Some(other) => other == entity || spec_pending_skin(mem, offsets, config, other)
                    is None,
                None => true,
            });
        }
    }
}

/// A write to an instance whose fields lie clear of what a tick reads of a
/// slot of the inventory leaves the slot, and what is pending for the
/// instance in it, as they were.
pub proof fn lemma_slot_kept(
    target: Target,
    offsets: Offsets,
    config: Map<Weapon, WeaponSkinConfig>,
    entity: u64,
    skin: WeaponSkinConfig,
    data: u64,
    slot: int,
)
    requires
        fields_mapped(target.mem, offsets, entity, skin),
        slot_clear_of_instance(target.mem, offsets, entity, skin, data, slot),
    ensures
        spec_inventory_entity(
            spec_write_skin(target, offsets, entity, skin).mem,
            offsets,
            data,
            slot,
        ) == spec_inventory_entity(target.mem, offsets, data, slot),
        match spec_inventory_entity(target.mem, offsets, data, slot) {
            Some(other) => other != entity ==> spec_pending_skin(
                spec_write_skin(target, offsets, entity, skin).mem,
                offsets,
                config,
                other,
            ) == spec_pending_skin(target.mem, offsets, config, other),
            None => true,
        },
{
    let mem = target.mem;
    let written = spec_write_skin(target, offsets, entity, skin).mem;
    lemma_write_frame(target, offsets, entity, skin, data + 4 * slot, 4);
    lemma_same_reads(written, mem, data + 4 * slot);
    let index = spec_read_i32(mem, data + 4 * slot) as int % 4096;
    let bucket_at = offsets.interface.entity + 8 * (index / 512);
    let entry_at = spec_read_u64(mem, bucket_at) + offsets.entity_identity.size * (index % 512);
    lemma_write_frame(target, offsets, entity, skin, bucket_at, 8);
    lemma_write_frame(target, offsets, entity, skin, entry_at, 8);
    lemma_entity_kept(mem, written, offsets, index);
    match spec_inventory_entity(mem, offsets, data, slot) {
        Some(other) => {
            if other != entity {
                lemma_pending_kept(target, offsets, config, entity, skin, other);
            }
        },
        None => {},
    }
}

/// A tick that has the active instance to write, and nothing else, brings
/// the target to rest, whatever the instance held before. Where values are
/// pending for the local player's active instance, the fields of the
/// instance are mapped and no two of them overlap, nothing is pending in
/// the inventory, and what a tick reads to find its way lies clear of the
/// fields of the instance: the tick writes that instance and no other, the
/// instance holds the invalidated link and every desired value when the
/// tick ends, and a second tick with nothing changed in between issues no
/// write.
pub proof fn lemma_tick_converges(
    target: Target,
    offsets: Offsets,
    enabled: bool,
    config: Map<Weapon, WeaponSkinConfig>,
    skin: WeaponSkinConfig,
)
    requires
        tick_writes_active(target, offsets, enabled, config, skin),
        fields_mapped(target.mem, offsets, spec_active(target.mem, offsets).unwrap(), skin),
        fields_disjoint(offsets, spec_active(target.mem, offsets).unwrap(), skin),
        way_clear_of_active(target.mem, offsets, skin),
        inventory_clear_of_instance(
            target.mem,
            offsets,
            spec_active(target.mem, offsets).unwrap(),
            skin,
            spec_local_player(target.mem, offsets).unwrap().pawn,
        ),
        inventory_rests(
            target.mem,
            offsets,
            config,
            spec_local_player(target.mem, offsets).unwrap().pawn,
            spec_active(target.mem, offsets).unwrap(),
        ),
    ensures
        spec_skin_changer(target, offsets, enabled, config) == spec_write_skin(
            target,
            offsets,
            spec_active(target.mem, offsets).unwrap(),
            skin,
        ),
        is_restored(
            spec_skin_changer(target, offsets, enabled, config).mem,
            offsets,
            spec_active(target.mem, offsets).unwrap(),
            skin,
        ),
        spec_skin_changer(
            spec_skin_changer(target, offsets, enabled, config),
            offsets,
            enabled,
            config,
        ) == spec_skin_changer(target, offsets, enabled, config),
{
    let active = spec_active(target.mem, offsets).unwrap();
    let pawn = spec_local_player(target.mem, offsets).unwrap().pawn;
    lemma_way_kept(target, offsets, enabled, config, skin);
    lemma_inventory_kept(target, offsets, config, active, skin, pawn);
    lemma_tick_then_rest(target, offsets, enabled, config, skin);
}

} // verus!
