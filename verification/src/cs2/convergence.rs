//! What holds of the patch loop: a target that is at the desired state is
//! left alone, a write brings an instance to the desired state within the
//! tick, and the number of writes of a tick is bounded.

use vstd::prelude::*;
use crate::config::WeaponSkinConfig;
use crate::cs2::entity::player::spec_local_player;
use crate::cs2::entity::weapon::Weapon;
use crate::cs2::offsets::Offsets;
use crate::cs2::skin_changer::{
    inventory_count_plausible, is_converged, item_view, link_write, sentinel_address, spec_apply_skin,
    spec_inventory, spec_inventory_entity, spec_invalidate, spec_pending_skin, spec_reassert,
    spec_reinitialize, spec_skin_changer, spec_visit_inventory, spec_write_cosmetics,
    spec_write_skin, MAX_WEAPONS, NO_INVENTORY,
};
use crate::memory::{
    le_byte, lemma_le_bytes_compose, readable4, spec_read_i32, spec_read_u64, unsigned32,
};
use crate::process::{
    apply_write, issue, issue_i32, spec_load_u32, MemWrite, Target, WriteValue,
};

verus! {

/// The four bytes at `addr` are mapped and read as the signed value
/// `value`.
pub open spec fn holds_i32(mem: Map<int, u8>, addr: int, value: i32) -> bool {
    readable4(mem, addr) && spec_read_i32(mem, addr) == value
}

/// The `width` bytes from `addr` lie clear of the four bytes from `field`.
pub open spec fn clear_of(addr: int, width: int, field: int) -> bool {
    addr + width <= field || field + 4 <= addr
}

/// A write of a signed 32-bit value to mapped memory is read back as
/// written.
pub proof fn lemma_issue_sets(target: Target, addr: int, value: i32)
    requires
        readable4(target.mem, addr),
        0 <= addr <= u64::MAX,
    ensures
        holds_i32(issue_i32(target, addr, value).mem, addr, value),
{
    let raw = unsigned32(value as int) as u32;
    lemma_le_bytes_compose(raw);
}

/// A write leaves a value that lies clear of it as it was.
pub proof fn lemma_issue_keeps(
    target: Target,
    addr: int,
    written: WriteValue,
    field: int,
    value: i32,
)
    requires
        holds_i32(target.mem, field, value),
        match written {
            WriteValue::Byte(_) => clear_of(addr, 1, field),
            WriteValue::Word(_) => clear_of(addr, 4, field),
            WriteValue::Checked(_) => clear_of(addr, 4, field),
        },
    ensures
        holds_i32(issue(target, addr, written).mem, field, value),
{
}

/// A write unmaps nothing.
pub proof fn lemma_issue_keeps_readable(target: Target, addr: int, written: WriteValue, field: int)
    requires
        readable4(target.mem, field),
    ensures
        readable4(issue(target, addr, written).mem, field),
{
}

/// A write adds at most one entry to the journal, leaves the entries
/// before it as they were, and changes the memory as the entry says.
pub proof fn lemma_issue_extends(target: Target, addr: int, written: WriteValue)
    ensures
        extends_by(target, issue(target, addr, written), 1),
{
    let after = issue(target, addr, written);
    let fresh = after.log.skip(target.log.len() as int);
    assert(after.log.take(target.log.len() as int) =~= target.log);
    if 0 <= addr <= u64::MAX {
        assert(fresh.drop_last() =~= Seq::<MemWrite>::empty());
        assert(replay(target.mem, fresh.drop_last()) == target.mem);
    } else {
        assert(fresh =~= Seq::<MemWrite>::empty());
    }
}

/// The image after the writes of a journal are carried out in their order.
pub open spec fn replay(mem: Map<int, u8>, writes: Seq<MemWrite>) -> Map<int, u8>
    decreases writes.len(),
{
    if writes.len() == 0 {
        mem
    } else {
        apply_write(replay(mem, writes.drop_last()), writes.last())
    }
}

/// Carrying out two journals in turn is carrying out the joined journal.
pub proof fn lemma_replay_concat(mem: Map<int, u8>, first: Seq<MemWrite>, second: Seq<MemWrite>)
    ensures
        replay(replay(mem, first), second) == replay(mem, first + second),
    decreases second.len(),
{
    if second.len() == 0 {
        assert(first + second =~= first);
    } else {
        assert((first + second).drop_last() =~= first + second.drop_last());
        assert((first + second).last() == second.last());
        lemma_replay_concat(mem, first, second.drop_last());
    }
}

/// Whether `after` comes of `before` by at most `more` writes that the
/// journal tells of: the journal of `after` holds that of `before` and at
/// most `more` entries behind it, and the memory of `after` is that of
/// `before` with those entries carried out in their order.
pub open spec fn extends_by(before: Target, after: Target, more: int) -> bool {
    &&& before.log.len() <= after.log.len() <= before.log.len() + more
    &&& after.log.take(before.log.len() as int) == before.log
    &&& after.mem == replay(before.mem, after.log.skip(before.log.len() as int))
}

/// Extending a journal twice extends it by the sum.
pub proof fn lemma_extends_chain(first: Target, second: Target, third: Target, a: int, b: int)
    requires
        extends_by(first, second, a),
        extends_by(second, third, b),
    ensures
        extends_by(first, third, a + b),
{
    assert(third.log.take(first.log.len() as int) =~= third.log.take(
        second.log.len() as int,
    ).take(first.log.len() as int));
    let early = second.log.skip(first.log.len() as int);
    let late = third.log.skip(second.log.len() as int);
    assert(third.log.skip(first.log.len() as int) =~= early + late) by {
        assert(third.log.take(second.log.len() as int) == second.log);
        assert forall|i: int| 0 <= i < early.len() implies early[i] == third.log[first.log.len()
            + i] by {
            assert(third.log.take(second.log.len() as int)[first.log.len() + i] == third.log[first.log.len()
                + i]);
        }
    }
    lemma_replay_concat(first.mem, early, late);
}

/// Asserting the invalidated link again issues one write, or two where the
/// first is not read back as written. The first goes to the link, carries
/// the invalid value and asks to be read back; the second is what the
/// reading back asks for, the same value once more.
pub proof fn lemma_reassert_bounded(target: Target, offsets: Offsets, entity: u64)
    ensures
        extends_by(target, spec_reassert(target, offsets, entity), 2),
        forall|i: int|
            target.log.len() <= i < spec_reassert(target, offsets, entity).log.len()
                ==> #[trigger] spec_reassert(target, offsets, entity).log[i] == (if i
                == target.log.len() {
                link_write(sentinel_address(offsets, entity) as u64)
            } else {
                MemWrite {
                    address: sentinel_address(offsets, entity) as u64,
                    value: WriteValue::Word(unsigned32(NO_INVENTORY as int) as u32),
                }
            }),
{
    let addr = sentinel_address(offsets, entity);
    let first = WriteValue::Checked(unsigned32(NO_INVENTORY as int) as u32);
    let second = WriteValue::Word(unsigned32(NO_INVENTORY as int) as u32);
    let written = issue(target, addr, first);
    lemma_issue_extends(target, addr, first);
    lemma_issue_extends(written, addr, second);
    lemma_extends_chain(target, written, issue(written, addr, second), 1, 1);
    lemma_extends_self(written);
    lemma_extends_chain(target, written, written, 1, 1);
}

/// Where the link is mapped, asserting it again is one write: the link is
/// read back as written, and nothing is written once more.
pub proof fn lemma_reassert_unchallenged(target: Target, offsets: Offsets, entity: u64)
    requires
        readable4(target.mem, sentinel_address(offsets, entity)),
        sentinel_address(offsets, entity) <= u64::MAX,
    ensures
        spec_reassert(target, offsets, entity) == issue(
            target,
            sentinel_address(offsets, entity),
            WriteValue::Checked(unsigned32(NO_INVENTORY as int) as u32),
        ),
        holds_i32(
            spec_reassert(target, offsets, entity).mem,
            sentinel_address(offsets, entity),
            NO_INVENTORY,
        ),
{
    lemma_le_bytes_compose(unsigned32(NO_INVENTORY as int) as u32);
}

/// Writing the desired values to one instance issues at most 14 writes.
pub proof fn lemma_write_skin_bounded(
    target: Target,
    offsets: Offsets,
    entity: u64,
    skin: WeaponSkinConfig,
)
    ensures
        extends_by(target, spec_write_skin(target, offsets, entity, skin), 14),
{
    let invalidated = spec_invalidate(target, offsets, entity);
    let written = spec_write_cosmetics(invalidated, offsets, entity, skin);
    let asserted = spec_reassert(written, offsets, entity);
    let done = spec_reinitialize(asserted, offsets, entity);
    lemma_invalidate_bounded(target, offsets, entity);
    lemma_cosmetics_bounded(invalidated, offsets, entity, skin);
    lemma_reassert_bounded(written, offsets, entity);
    lemma_reinitialize_bounded(asserted, offsets, entity);
    lemma_extends_chain(target, invalidated, written, 2, 8);
    lemma_extends_chain(target, written, asserted, 10, 2);
    lemma_extends_chain(target, asserted, done, 12, 2);
}

/// Invalidating the link issues at most two writes.
pub proof fn lemma_invalidate_bounded(target: Target, offsets: Offsets, entity: u64)
    ensures
        extends_by(target, spec_invalidate(target, offsets, entity), 2),
{
    let value = WriteValue::Word(unsigned32(NO_INVENTORY as int) as u32);
    let low_addr = item_view(offsets, entity) + offsets.skin.item_id_low;
    let low = if offsets.skin.item_id_low != 0 {
        issue(target, low_addr, value)
    } else {
        target
    };
    lemma_issue_extends(target, low_addr, value);
    lemma_issue_extends(low, sentinel_address(offsets, entity), value);
    assert(extends_by(target, low, 1)) by {
        lemma_extends_self(target);
    }
    lemma_extends_chain(target, low, spec_invalidate(target, offsets, entity), 1, 1);
}

/// The target after a write that is issued only where `wanted` holds.
pub open spec fn issue_if(target: Target, wanted: bool, addr: int, written: WriteValue) -> Target {
    if wanted {
        issue(target, addr, written)
    } else {
        target
    }
}

/// An optional write extends the journal by at most one entry.
pub proof fn lemma_issue_if_extends(
    first: Target,
    target: Target,
    wanted: bool,
    addr: int,
    written: WriteValue,
    so_far: int,
)
    requires
        extends_by(first, target, so_far),
    ensures
        extends_by(first, issue_if(target, wanted, addr, written), so_far + 1),
{
    lemma_issue_extends(target, addr, written);
    if wanted {
        lemma_extends_chain(first, target, issue(target, addr, written), so_far, 1);
    }
}

/// Writing the desired values issues at most eight writes.
pub proof fn lemma_cosmetics_bounded(
    target: Target,
    offsets: Offsets,
    entity: u64,
    skin: WeaponSkinConfig,
)
    ensures
        extends_by(target, spec_write_cosmetics(target, offsets, entity, skin), 8),
{
    let view = item_view(offsets, entity);
    let s = offsets.skin;
    let w = |v: int| WriteValue::Word(unsigned32(v) as u32);
    lemma_extends_self(target);
    let t1 = issue_if(target, true, entity + s.fallback_paint_kit, w(skin.paint_kit as int));
    lemma_issue_if_extends(
        target,
        target,
        true,
        entity + s.fallback_paint_kit,
        w(skin.paint_kit as int),
        0,
    );
    let t2 = issue_if(t1, s.fallback_seed != 0, entity + s.fallback_seed, w(skin.seed as int));
    lemma_issue_if_extends(
        target,
        t1,
        s.fallback_seed != 0,
        entity + s.fallback_seed,
        w(skin.seed as int),
        1,
    );
    let t3 = issue_if(
        t2,
        s.fallback_wear != 0,
        entity + s.fallback_wear,
        WriteValue::Word(skin.wear),
    );
    lemma_issue_if_extends(
        target,
        t2,
        s.fallback_wear != 0,
        entity + s.fallback_wear,
        WriteValue::Word(skin.wear),
        2,
    );
    let t4 = issue_if(
        t3,
        s.fallback_stattrak != 0,
        entity + s.fallback_stattrak,
        w(skin.stattrak as int),
    );
    lemma_issue_if_extends(
        target,
        t3,
        s.fallback_stattrak != 0,
        entity + s.fallback_stattrak,
        w(skin.stattrak as int),
        3,
    );
    let t5 = issue_if(t4, s.account_id != 0, view + s.account_id, WriteValue::Word(1));
    lemma_issue_if_extends(target, t4, s.account_id != 0, view + s.account_id, WriteValue::Word(1), 4);
    let quality = w(crate::cs2::skin_changer::spec_quality(skin.stattrak) as int);
    let t6 = issue_if(t5, s.entity_quality != 0, view + s.entity_quality, quality);
    lemma_issue_if_extends(target, t5, s.entity_quality != 0, view + s.entity_quality, quality, 5);
    let t7 = issue_if(
        t6,
        s.original_owner_xuid_low != 0,
        entity + s.original_owner_xuid_low,
        WriteValue::Word(1),
    );
    lemma_issue_if_extends(
        target,
        t6,
        s.original_owner_xuid_low != 0,
        entity + s.original_owner_xuid_low,
        WriteValue::Word(1),
        6,
    );
    let t8 = issue_if(
        t7,
        s.original_owner_xuid_high != 0,
        entity + s.original_owner_xuid_high,
        WriteValue::Word(0),
    );
    lemma_issue_if_extends(
        target,
        t7,
        s.original_owner_xuid_high != 0,
        entity + s.original_owner_xuid_high,
        WriteValue::Word(0),
        7,
    );
    assert(t8 == spec_write_cosmetics(target, offsets, entity, skin));
}

/// Telling an instance to initialise itself anew issues at most two
/// writes.
pub proof fn lemma_reinitialize_bounded(target: Target, offsets: Offsets, entity: u64)
    ensures
        extends_by(target, spec_reinitialize(target, offsets, entity), 2),
{
    let flag = item_view(offsets, entity) + offsets.skin.initialized;
    let cleared = issue(target, flag, WriteValue::Byte(0));
    lemma_issue_extends(target, flag, WriteValue::Byte(0));
    lemma_issue_extends(cleared, flag, WriteValue::Byte(1));
    lemma_extends_chain(target, cleared, issue(cleared, flag, WriteValue::Byte(1)), 1, 1);
    lemma_extends_self(target);
}

/// An instance at the desired state is left alone: nothing is written to
/// it and the journal stays as it is.
pub proof fn lemma_converged_instance_untouched(
    target: Target,
    offsets: Offsets,
    config: Map<Weapon, WeaponSkinConfig>,
    entity: u64,
)
    requires
        config.dom().contains(Weapon::spec_from_handle(target.mem, offsets, entity)),
        is_converged(
            target.mem,
            offsets,
            entity,
            config[Weapon::spec_from_handle(target.mem, offsets, entity)],
        ),
    ensures
        spec_apply_skin(target, offsets, config, entity) == target,
{
}

/// Whether nothing is pending in the first `count` slots of the inventory
/// at `data`: each slot is empty, holds the active instance, or holds an
/// instance to which nothing is to be written.
pub open spec fn inventory_settled(
    mem: Map<int, u8>,
    offsets: Offsets,
    config: Map<Weapon, WeaponSkinConfig>,
    data: u64,
    active: u64,
    count: nat,
) -> bool {
    forall|slot: int|
        0 <= slot < count ==> match #[trigger] spec_inventory_entity(mem, offsets, data, slot) {
            Some(entity) => entity == active || spec_pending_skin(mem, offsets, config, entity)
                is None,
            None => true,
        }
}

/// An inventory in which nothing is pending is left alone.
pub proof fn lemma_settled_inventory_untouched(
    target: Target,
    offsets: Offsets,
    config: Map<Weapon, WeaponSkinConfig>,
    data: u64,
    active: u64,
    count: nat,
)
    requires
        inventory_settled(target.mem, offsets, config, data, active, count),
    ensures
        spec_inventory(target, offsets, config, data, active, count) == target,
    decreases count,
{
    if count > 0 {
        lemma_settled_inventory_untouched(
            target,
            offsets,
            config,
            data,
            active,
            (count - 1) as nat,
        );
        let slot = count - 1;
        assert(spec_inventory_entity(target.mem, offsets, data, slot) is Some ==> {
            let entity = spec_inventory_entity(target.mem, offsets, data, slot).unwrap();
            entity == active || spec_pending_skin(target.mem, offsets, config, entity) is None
        });
    }
}

/// Whether the target is at the desired state as far as a tick looks:
/// nothing is pending for the local player's active instance, nor in the
/// player's inventory.
pub open spec fn tick_settled(
    mem: Map<int, u8>,
    offsets: Offsets,
    config: Map<Weapon, WeaponSkinConfig>,
) -> bool {
    match spec_local_player(mem, offsets) {
        None => true,
        Some(player) => {
            let active = spec_read_u64(mem, player.pawn + offsets.pawn.weapon);
            let services = spec_read_u64(mem, player.pawn + offsets.pawn.weapon_services);
            let count = spec_read_i32(mem, services + offsets.weapon_services.weapons);
            let data = spec_read_u64(mem, services + offsets.weapon_services.weapons + 8);
            &&& spec_pending_skin(mem, offsets, config, active) is None
            &&& services != 0 && data != 0 && inventory_count_plausible(count)
                ==> inventory_settled(mem, offsets, config, data, active, count as nat)
        },
    }
}

/// A tick on a target that is at the desired state issues no write and
/// changes nothing.
pub proof fn lemma_settled_tick_writes_nothing(
    target: Target,
    offsets: Offsets,
    enabled: bool,
    config: Map<Weapon, WeaponSkinConfig>,
)
    requires
        tick_settled(target.mem, offsets, config),
    ensures
        spec_skin_changer(target, offsets, enabled, config) == target,
{
    match spec_local_player(target.mem, offsets) {
        None => {},
        Some(player) => {
            let active = spec_read_u64(target.mem, player.pawn + offsets.pawn.weapon);
            let services = spec_read_u64(target.mem, player.pawn + offsets.pawn.weapon_services);
            let count = spec_read_i32(target.mem, services + offsets.weapon_services.weapons);
            let data = spec_read_u64(target.mem, services + offsets.weapon_services.weapons + 8);
            if services != 0 && data != 0 && inventory_count_plausible(count) {
                lemma_settled_inventory_untouched(
                    target,
                    offsets,
                    config,
                    data,
                    active,
                    count as nat,
                );
            }
        },
    }
}

/// An inventory whose stored count is zero, negative or beyond the bound is
/// taken for empty: none of its slots is visited.
pub proof fn lemma_implausible_inventory_is_empty(
    target: Target,
    offsets: Offsets,
    config: Map<Weapon, WeaponSkinConfig>,
    pawn: u64,
    active: u64,
)
    requires
        ({
            let services = spec_read_u64(target.mem, pawn + offsets.pawn.weapon_services);
            let count = spec_read_i32(target.mem, services + offsets.weapon_services.weapons);
            count <= 0 || count > MAX_WEAPONS
        }),
    ensures
        spec_visit_inventory(target, offsets, config, pawn, active) == target,
{
}

/// Visiting the first `count` slots of an inventory issues at most 14
/// writes for each slot.
pub proof fn lemma_inventory_bounded(
    target: Target,
    offsets: Offsets,
    config: Map<Weapon, WeaponSkinConfig>,
    data: u64,
    active: u64,
    count: nat,
)
    ensures
        extends_by(
            target,
            spec_inventory(target, offsets, config, data, active, count),
            14 * (count as int),
        ),
    decreases count,
{
    if count == 0 {
        lemma_extends_self(target);
    } else {
        let before = spec_inventory(target, offsets, config, data, active, (count - 1) as nat);
        lemma_inventory_bounded(target, offsets, config, data, active, (count - 1) as nat);
        let after = spec_inventory(target, offsets, config, data, active, count);
        lemma_extends_self(before);
        assert(extends_by(before, after, 14)) by {
            lemma_extends_self(before);
            match spec_inventory_entity(before.mem, offsets, data, count - 1) {
                Some(entity) => {
                    lemma_apply_bounded(before, offsets, config, entity);
                },
                None => {},
            }
        }
        lemma_extends_chain(target, before, after, 14 * (count - 1), 14);
    }
}

/// Applying the desired state to one instance issues at most 14 writes.
pub proof fn lemma_apply_bounded(
    target: Target,
    offsets: Offsets,
    config: Map<Weapon, WeaponSkinConfig>,
    entity: u64,
)
    ensures
        extends_by(target, spec_apply_skin(target, offsets, config, entity), 14),
{
    lemma_extends_self(target);
    match spec_pending_skin(target.mem, offsets, config, entity) {
        Some(skin) => {
            lemma_write_skin_bounded(target, offsets, entity, skin);
        },
        None => {},
    }
}

/// A journal extends itself by nothing.
pub proof fn lemma_extends_self(target: Target)
    ensures
        extends_by(target, target, 0),
{
    assert(target.log.take(target.log.len() as int) =~= target.log);
    assert(target.log.skip(target.log.len() as int) =~= Seq::<MemWrite>::empty());
}

/// One tick issues at most 910 writes, 14 for the active instance and for
/// each of the 64 slots that an inventory can have, and leaves the
/// journal's earlier entries as they were.
pub proof fn lemma_tick_bounded(
    target: Target,
    offsets: Offsets,
    enabled: bool,
    config: Map<Weapon, WeaponSkinConfig>,
)
    ensures
        extends_by(target, spec_skin_changer(target, offsets, enabled, config), 910),
{
    lemma_extends_self(target);
    if enabled && offsets.skin.item_id_high != 0 && offsets.skin.fallback_paint_kit != 0 {
        match spec_local_player(target.mem, offsets) {
            None => {},
            Some(player) => {
                let active = spec_read_u64(target.mem, player.pawn + offsets.pawn.weapon);
                let first = if active != 0 {
                    spec_apply_skin(target, offsets, config, active)
                } else {
                    target
                };
                lemma_apply_bounded(target, offsets, config, active);
                let services = spec_read_u64(
                    first.mem,
                    player.pawn + offsets.pawn.weapon_services,
                );
                let count = spec_read_i32(first.mem, services + offsets.weapon_services.weapons);
                let data = spec_read_u64(
                    first.mem,
                    services + offsets.weapon_services.weapons + 8,
                );
                let last = spec_visit_inventory(first, offsets, config, player.pawn, active);
                lemma_extends_self(first);
                if services != 0 && data != 0 && inventory_count_plausible(count) {
                    lemma_inventory_bounded(first, offsets, config, data, active, count as nat);
                }
                assert(extends_by(first, last, 896));
                lemma_extends_chain(target, first, last, 14, 896);
            },
        }
    }
}

/// Whether the fields that a write touches lie apart in the instance at
/// `entity`: the link's high half and the primary identifier do not
/// overlap, and no other field whose offset is known overlaps either.
pub open spec fn fields_apart(offsets: Offsets, entity: u64) -> bool {
    let view = item_view(offsets, entity);
    let link = sentinel_address(offsets, entity);
    let kit = entity + offsets.skin.fallback_paint_kit;
    let s = offsets.skin;
    &&& clear_of(kit, 4, link)
    &&& clear_of(link, 4, kit)
    &&& s.item_id_low != 0 ==> clear_of(view + s.item_id_low, 4, link) && clear_of(
        view + s.item_id_low,
        4,
        kit,
    )
    &&& s.fallback_seed != 0 ==> clear_of(entity + s.fallback_seed, 4, link) && clear_of(
        entity + s.fallback_seed,
        4,
        kit,
    )
    &&& s.fallback_wear != 0 ==> clear_of(entity + s.fallback_wear, 4, link) && clear_of(
        entity + s.fallback_wear,
        4,
        kit,
    )
    &&& s.fallback_stattrak != 0 ==> clear_of(entity + s.fallback_stattrak, 4, link) && clear_of(
        entity + s.fallback_stattrak,
        4,
        kit,
    )
    &&& s.account_id != 0 ==> clear_of(view + s.account_id, 4, link) && clear_of(
        view + s.account_id,
        4,
        kit,
    )
    &&& s.entity_quality != 0 ==> clear_of(view + s.entity_quality, 4, link) && clear_of(
        view + s.entity_quality,
        4,
        kit,
    )
    &&& s.original_owner_xuid_low != 0 ==> clear_of(entity + s.original_owner_xuid_low, 4, link)
        && clear_of(entity + s.original_owner_xuid_low, 4, kit)
    &&& s.original_owner_xuid_high != 0 ==> clear_of(entity + s.original_owner_xuid_high, 4, link)
        && clear_of(entity + s.original_owner_xuid_high, 4, kit)
    &&& s.initialized != 0 ==> clear_of(view + s.initialized, 1, link) && clear_of(
        view + s.initialized,
        1,
        kit,
    )
}

/// An optional write leaves a value that lies clear of it as it was.
pub proof fn lemma_issue_if_keeps(
    target: Target,
    wanted: bool,
    addr: int,
    written: WriteValue,
    field: int,
    value: i32,
)
    requires
        holds_i32(target.mem, field, value),
        wanted ==> match written {
            WriteValue::Byte(_) => clear_of(addr, 1, field),
            WriteValue::Word(_) => clear_of(addr, 4, field),
            WriteValue::Checked(_) => clear_of(addr, 4, field),
        },
    ensures
        holds_i32(issue_if(target, wanted, addr, written).mem, field, value),
{
    if wanted {
        lemma_issue_keeps(target, addr, written, field, value);
    }
}

/// A write restores an instance within the tick: where the link and the
/// primary identifier are mapped and the fields lie apart, the instance
/// holds the invalidated link and the desired identifier once the desired
/// values are written, whatever it held before.
pub proof fn lemma_write_skin_converges(
    target: Target,
    offsets: Offsets,
    entity: u64,
    skin: WeaponSkinConfig,
)
    requires
        readable4(target.mem, sentinel_address(offsets, entity)),
        readable4(target.mem, entity + offsets.skin.fallback_paint_kit),
        sentinel_address(offsets, entity) <= u64::MAX,
        entity + offsets.skin.fallback_paint_kit <= u64::MAX,
        fields_apart(offsets, entity),
    ensures
        is_converged(spec_write_skin(target, offsets, entity, skin).mem, offsets, entity, skin),
{
    let view = item_view(offsets, entity);
    let link = sentinel_address(offsets, entity);
    let kit = entity + offsets.skin.fallback_paint_kit;
    let s = offsets.skin;
    let w = |v: int| WriteValue::Word(unsigned32(v) as u32);
    let no = w(NO_INVENTORY as int);
    // The link is invalidated.
    let a1 = issue_if(target, s.item_id_low != 0, view + s.item_id_low, no);
    lemma_issue_keeps_readable(target, view + s.item_id_low, no, link);
    lemma_issue_keeps_readable(target, view + s.item_id_low, no, kit);
    let a2 = issue(a1, link, no);
    lemma_issue_sets(a1, link, NO_INVENTORY);
    lemma_issue_keeps_readable(a1, link, no, kit);
    assert(a2 == spec_invalidate(target, offsets, entity));
    // The desired values are written.
    let b1 = issue(a2, kit, w(skin.paint_kit as int));
    lemma_issue_sets(a2, kit, skin.paint_kit);
    lemma_issue_keeps(a2, kit, w(skin.paint_kit as int), link, NO_INVENTORY);
    let b2 = issue_if(b1, s.fallback_seed != 0, entity + s.fallback_seed, w(skin.seed as int));
    lemma_both_kept(
        b1,
        s.fallback_seed != 0,
        entity + s.fallback_seed,
        w(skin.seed as int),
        link,
        kit,
        skin.paint_kit,
    );
    let b3 = issue_if(
        b2,
        s.fallback_wear != 0,
        entity + s.fallback_wear,
        WriteValue::Word(skin.wear),
    );
    lemma_both_kept(
        b2,
        s.fallback_wear != 0,
        entity + s.fallback_wear,
        WriteValue::Word(skin.wear),
        link,
        kit,
        skin.paint_kit,
    );
    let b4 = issue_if(
        b3,
        s.fallback_stattrak != 0,
        entity + s.fallback_stattrak,
        w(skin.stattrak as int),
    );
    lemma_both_kept(
        b3,
        s.fallback_stattrak != 0,
        entity + s.fallback_stattrak,
        w(skin.stattrak as int),
        link,
        kit,
        skin.paint_kit,
    );
    let b5 = issue_if(b4, s.account_id != 0, view + s.account_id, WriteValue::Word(1));
    lemma_both_kept(
        b4,
        s.account_id != 0,
        view + s.account_id,
        WriteValue::Word(1),
        link,
        kit,
        skin.paint_kit,
    );
    let quality = w(crate::cs2::skin_changer::spec_quality(skin.stattrak) as int);
    let b6 = issue_if(b5, s.entity_quality != 0, view + s.entity_quality, quality);
    lemma_both_kept(
        b5,
        s.entity_quality != 0,
        view + s.entity_quality,
        quality,
        link,
        kit,
        skin.paint_kit,
    );
    let b7 = issue_if(
        b6,
        s.original_owner_xuid_low != 0,
        entity + s.original_owner_xuid_low,
        WriteValue::Word(1),
    );
    lemma_both_kept(
        b6,
        s.original_owner_xuid_low != 0,
        entity + s.original_owner_xuid_low,
        WriteValue::Word(1),
        link,
        kit,
        skin.paint_kit,
    );
    let b8 = issue_if(
        b7,
        s.original_owner_xuid_high != 0,
        entity + s.original_owner_xuid_high,
        WriteValue::Word(0),
    );
    lemma_both_kept(
        b7,
        s.original_owner_xuid_high != 0,
        entity + s.original_owner_xuid_high,
        WriteValue::Word(0),
        link,
        kit,
        skin.paint_kit,
    );
    assert(b8 == spec_write_cosmetics(a2, offsets, entity, skin));
    // The link is asserted again, and read back as written.
    let again = WriteValue::Checked(unsigned32(NO_INVENTORY as int) as u32);
    let c1 = issue(b8, link, again);
    lemma_reassert_unchallenged(b8, offsets, entity);
    lemma_issue_keeps(b8, link, again, kit, skin.paint_kit);
    // The flag is cleared and set.
    let d1 = issue_if(c1, s.initialized != 0, view + s.initialized, WriteValue::Byte(0));
    lemma_both_kept(
        c1,
        s.initialized != 0,
        view + s.initialized,
        WriteValue::Byte(0),
        link,
        kit,
        skin.paint_kit,
    );
    let d2 = issue_if(d1, s.initialized != 0, view + s.initialized, WriteValue::Byte(1));
    lemma_both_kept(
        d1,
        s.initialized != 0,
        view + s.initialized,
        WriteValue::Byte(1),
        link,
        kit,
        skin.paint_kit,
    );
    assert(d2 == spec_reinitialize(c1, offsets, entity));
}

/// After a write nothing is left to do: where the instance still asks for
/// the values that were written, applying the desired state to it once
/// more issues no write.
pub proof fn lemma_second_apply_is_idle(
    target: Target,
    offsets: Offsets,
    config: Map<Weapon, WeaponSkinConfig>,
    entity: u64,
    skin: WeaponSkinConfig,
)
    requires
        readable4(target.mem, sentinel_address(offsets, entity)),
        readable4(target.mem, entity + offsets.skin.fallback_paint_kit),
        sentinel_address(offsets, entity) <= u64::MAX,
        entity + offsets.skin.fallback_paint_kit <= u64::MAX,
        fields_apart(offsets, entity),
        crate::cs2::skin_changer::spec_wanted_skin(
            spec_write_skin(target, offsets, entity, skin).mem,
            offsets,
            config,
            entity,
        ) == Some(skin),
    ensures
        spec_apply_skin(spec_write_skin(target, offsets, entity, skin), offsets, config, entity)
            == spec_write_skin(target, offsets, entity, skin),
{
    lemma_write_skin_converges(target, offsets, entity, skin);
}

/// An optional write that lies clear of the link and of the primary
/// identifier leaves both as they were.
pub proof fn lemma_both_kept(
    target: Target,
    wanted: bool,
    addr: int,
    written: WriteValue,
    link: int,
    kit: int,
    paint_kit: i32,
)
    requires
        holds_i32(target.mem, link, NO_INVENTORY),
        holds_i32(target.mem, kit, paint_kit),
        wanted ==> match written {
            WriteValue::Byte(_) => clear_of(addr, 1, link) && clear_of(addr, 1, kit),
            WriteValue::Word(_) => clear_of(addr, 4, link) && clear_of(addr, 4, kit),
            WriteValue::Checked(_) => clear_of(addr, 4, link) && clear_of(addr, 4, kit),
        },
    ensures
        holds_i32(issue_if(target, wanted, addr, written).mem, link, NO_INVENTORY),
        holds_i32(issue_if(target, wanted, addr, written).mem, kit, paint_kit),
{
    lemma_issue_if_keeps(target, wanted, addr, written, link, NO_INVENTORY);
    lemma_issue_if_keeps(target, wanted, addr, written, kit, paint_kit);
}

} // verus!
