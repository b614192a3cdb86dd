//! The write to one instance, seen as a list of steps.
//!
//! A step is a write to one field, or nothing where the offset of the field
//! is unknown. Seen so, the question of what an instance holds after a write
//! has a general answer: every field holds what the last step that went to
//! it has put there, provided that the fields are mapped and that no two of
//! them overlap.

use vstd::prelude::*;
use crate::config::WeaponSkinConfig;
use crate::cs2::convergence::{holds_i32, issue_if};
use crate::cs2::offsets::Offsets;
use crate::cs2::entity::weapon::Weapon;
use crate::cs2::skin_changer::{
    item_view, sentinel_address, spec_apply_skin, spec_invalidate, spec_pending_skin,
    spec_quality, spec_reassert, spec_reinitialize, spec_write_cosmetics, spec_write_skin,
    NO_INVENTORY,
};
use crate::memory::{
    lemma_le_bytes_compose, readable4, spec_read_i32, spec_read_u32, spec_read_u8, unsigned32,
};
use crate::process::{apply_write, issue, spec_load_u32, MemWrite, Target, WriteValue};

verus! {

/// One step of a write: where it goes, what it puts there, and whether it
/// is taken at all.
pub struct Step {
    pub wanted: bool,
    pub addr: int,
    pub value: WriteValue,
}

/// The number of bytes that a value covers.
pub open spec fn width(value: WriteValue) -> int {
    match value {
        WriteValue::Byte(_) => 1,
        WriteValue::Word(_) => 4,
        WriteValue::Checked(_) => 4,
    }
}

/// Whether the bytes that `value` covers at `addr` are mapped.
pub open spec fn covered(mem: Map<int, u8>, addr: int, value: WriteValue) -> bool {
    &&& 0 <= addr <= u64::MAX
    &&& match value {
        WriteValue::Byte(_) => mem.dom().contains(addr),
        WriteValue::Word(_) => readable4(mem, addr),
        WriteValue::Checked(_) => readable4(mem, addr),
    }
}

/// Whether the memory holds `value` at `addr`.
pub open spec fn holds(mem: Map<int, u8>, addr: int, value: WriteValue) -> bool {
    match value {
        WriteValue::Byte(b) => mem.dom().contains(addr) && spec_read_u8(mem, addr) == b,
        WriteValue::Word(w) => readable4(mem, addr) && spec_read_u32(mem, addr) == w,
        WriteValue::Checked(w) => readable4(mem, addr) && spec_read_u32(mem, addr) == w,
    }
}

/// Whether two steps go to the same bytes.
pub open spec fn same_place(a: Step, b: Step) -> bool {
    a.addr == b.addr && width(a.value) == width(b.value)
}

/// Whether two steps go to bytes that do not overlap.
pub open spec fn disjoint(a: Step, b: Step) -> bool {
    a.addr + width(a.value) <= b.addr || b.addr + width(b.value) <= a.addr
}

/// The target after the first `count` steps are taken.
pub open spec fn perform(target: Target, steps: spec_fn(int) -> Step, count: nat) -> Target
    decreases count,
{
    if count == 0 {
        target
    } else {
        let step = steps(count - 1);
        issue_if(perform(target, steps, (count - 1) as nat), step.wanted, step.addr, step.value)
    }
}

/// Whether any two of the first `count` steps that are taken go to the same
/// bytes or to bytes that do not overlap.
pub open spec fn orderly(steps: spec_fn(int) -> Step, count: nat) -> bool {
    forall|i: int, j: int|
        0 <= i < count && 0 <= j < count && (#[trigger] steps(i)).wanted && (#[trigger] steps(
            j,
        )).wanted ==> same_place(steps(i), steps(j)) || disjoint(steps(i), steps(j))
}

/// Whether the bytes of every one of the first `count` steps that is taken
/// are mapped.
pub open spec fn all_covered(mem: Map<int, u8>, steps: spec_fn(int) -> Step, count: nat) -> bool {
    forall|i: int|
        0 <= i < count && (#[trigger] steps(i)).wanted ==> covered(
            mem,
            steps(i).addr,
            steps(i).value,
        )
}

/// Whether no step behind step `index` goes to the bytes of that step.
pub open spec fn last_at_its_place(steps: spec_fn(int) -> Step, count: nat, index: int) -> bool {
    forall|j: int|
        index < j < count && (#[trigger] steps(j)).wanted ==> !same_place(steps(j), steps(index))
}

/// A write to mapped bytes is read back as written.
pub proof fn lemma_write_sets(mem: Map<int, u8>, addr: int, value: WriteValue)
    requires
        covered(mem, addr, value),
    ensures
        holds(apply_write(mem, (MemWrite { address: addr as u64, value })), addr, value),
{
    match value {
        WriteValue::Byte(_) => {},
        WriteValue::Word(w) => {
            lemma_le_bytes_compose(w);
        },
        WriteValue::Checked(w) => {
            lemma_le_bytes_compose(w);
        },
    }
}

/// A write leaves what lies clear of it as it was.
pub proof fn lemma_write_keeps(
    mem: Map<int, u8>,
    addr: int,
    value: WriteValue,
    kept_at: int,
    kept: WriteValue,
)
    requires
        0 <= addr <= u64::MAX,
        holds(mem, kept_at, kept),
        addr + width(value) <= kept_at || kept_at + width(kept) <= addr,
    ensures
        holds(apply_write(mem, (MemWrite { address: addr as u64, value })), kept_at, kept),
{
}

/// A write maps and unmaps nothing.
pub proof fn lemma_write_keeps_domain(mem: Map<int, u8>, write: MemWrite)
    ensures
        apply_write(mem, write).dom() == mem.dom(),
{
    assert(apply_write(mem, write).dom() =~= mem.dom());
}

/// Steps map and unmap nothing.
pub proof fn lemma_perform_keeps_domain(target: Target, steps: spec_fn(int) -> Step, count: nat)
    ensures
        perform(target, steps, count).mem.dom() == target.mem.dom(),
    decreases count,
{
    if count > 0 {
        lemma_perform_keeps_domain(target, steps, (count - 1) as nat);
        let before = perform(target, steps, (count - 1) as nat);
        let step = steps(count - 1);
        if step.wanted && 0 <= step.addr <= u64::MAX {
            lemma_write_keeps_domain(
                before.mem,
                MemWrite { address: step.addr as u64, value: step.value },
            );
        }
    }
}

/// After a list of steps, the bytes of a step hold what the step has put
/// there, where no later step goes to the same bytes: the last write to a
/// place decides what the place holds.
pub proof fn lemma_perform_holds(
    target: Target,
    steps: spec_fn(int) -> Step,
    count: nat,
    index: int,
)
    requires
        0 <= index < count,
        steps(index).wanted,
        orderly(steps, count),
        all_covered(target.mem, steps, count),
        last_at_its_place(steps, count, index),
    ensures
        holds(perform(target, steps, count).mem, steps(index).addr, steps(index).value),
    decreases count,
{
    let shorter = (count - 1) as nat;
    let before = perform(target, steps, shorter);
    let last = steps(count - 1);
    let own = steps(index);
    lemma_perform_keeps_domain(target, steps, shorter);
    if index == count - 1 {
        lemma_write_sets(before.mem, own.addr, own.value);
    } else {
        lemma_perform_holds(target, steps, shorter, index);
        if last.wanted {
            assert(!same_place(last, own));
            assert(disjoint(last, own));
            assert(covered(target.mem, last.addr, last.value));
            lemma_write_keeps(before.mem, last.addr, last.value, own.addr, own.value);
        }
    }
}

/// The value that a write of a signed 32-bit value puts.
pub open spec fn word_of(value: i32) -> WriteValue {
    WriteValue::Word(unsigned32(value as int) as u32)
}

/// The number of steps of a write to one instance.
pub open spec fn protocol_len() -> nat {
    13
}

/// Step `index` of the write of `skin` to the instance at `entity`. The
/// steps are: the low and the high half of the inventory link, the primary
/// identifier, the seed, the wear, the counter, the account, the quality,
/// the two halves of the owner, the high half of the link once more, as a
/// write that is to be read back, and the flag cleared and set.
pub open spec fn step_at(offsets: Offsets, entity: u64, skin: WeaponSkinConfig, index: int) -> Step {
    let view = item_view(offsets, entity);
    let s = offsets.skin;
    if index == 0 {
        Step {
            wanted: s.item_id_low != 0,
            addr: view + s.item_id_low,
            value: word_of(NO_INVENTORY),
        }
    } else if index == 1 {
        Step { wanted: true, addr: sentinel_address(offsets, entity), value: word_of(NO_INVENTORY) }
    } else if index == 10 {
        Step {
            wanted: true,
            addr: sentinel_address(offsets, entity),
            value: WriteValue::Checked(unsigned32(NO_INVENTORY as int) as u32),
        }
    } else if index == 2 {
        Step { wanted: true, addr: entity + s.fallback_paint_kit, value: word_of(skin.paint_kit) }
    } else if index == 3 {
        Step {
            wanted: s.fallback_seed != 0,
            addr: entity + s.fallback_seed,
            value: word_of(skin.seed),
        }
    } else if index == 4 {
        Step {
            wanted: s.fallback_wear != 0,
            addr: entity + s.fallback_wear,
            value: WriteValue::Word(skin.wear),
        }
    } else if index == 5 {
        Step {
            wanted: s.fallback_stattrak != 0,
            addr: entity + s.fallback_stattrak,
            value: word_of(skin.stattrak),
        }
    } else if index == 6 {
        Step { wanted: s.account_id != 0, addr: view + s.account_id, value: WriteValue::Word(1) }
    } else if index == 7 {
        Step {
            wanted: s.entity_quality != 0,
            addr: view + s.entity_quality,
            value: word_of(spec_quality(skin.stattrak)),
        }
    } else if index == 8 {
        Step {
            wanted: s.original_owner_xuid_low != 0,
            addr: entity + s.original_owner_xuid_low,
            value: WriteValue::Word(1),
        }
    } else if index == 9 {
        Step {
            wanted: s.original_owner_xuid_high != 0,
            addr: entity + s.original_owner_xuid_high,
            value: WriteValue::Word(0),
        }
    } else if index == 11 {
        Step { wanted: s.initialized != 0, addr: view + s.initialized, value: WriteValue::Byte(0) }
    } else {
        Step { wanted: s.initialized != 0, addr: view + s.initialized, value: WriteValue::Byte(1) }
    }
}

/// The steps of the write of `skin` to the instance at `entity`.
pub open spec fn protocol(offsets: Offsets, entity: u64, skin: WeaponSkinConfig) -> spec_fn(
    int,
) -> Step {
    |index: int| step_at(offsets, entity, skin, index)
}

/// The field that step `index` goes to: the high half of the link is
/// written twice, and so is the flag.
pub open spec fn field_of(index: int) -> int {
    if index == 10 {
        1
    } else if index == 11 {
        12
    } else {
        index
    }
}

/// Whether the fields that a write touches are mapped in the instance at
/// `entity`.
pub open spec fn fields_mapped(
    mem: Map<int, u8>,
    offsets: Offsets,
    entity: u64,
    skin: WeaponSkinConfig,
) -> bool {
    all_covered(mem, protocol(offsets, entity, skin), protocol_len())
}

/// Whether no two fields that a write touches overlap in the instance at
/// `entity`.
pub open spec fn fields_disjoint(offsets: Offsets, entity: u64, skin: WeaponSkinConfig) -> bool {
    forall|i: int, j: int|
        0 <= i < protocol_len() && 0 <= j < protocol_len() && field_of(i) != field_of(j) && (
        #[trigger] step_at(offsets, entity, skin, i)).wanted && (#[trigger] step_at(
            offsets,
            entity,
            skin,
            j,
        )).wanted ==> disjoint(
            step_at(offsets, entity, skin, i),
            step_at(offsets, entity, skin, j),
        )
}

/// Whether the instance at `entity` holds every value that a write of
/// `skin` sets: the invalidated link, the desired values, and the flag.
pub open spec fn is_restored(
    mem: Map<int, u8>,
    offsets: Offsets,
    entity: u64,
    skin: WeaponSkinConfig,
) -> bool {
    let view = item_view(offsets, entity);
    let s = offsets.skin;
    &&& holds_i32(mem, sentinel_address(offsets, entity), NO_INVENTORY)
    &&& holds_i32(mem, entity + s.fallback_paint_kit, skin.paint_kit)
    &&& s.item_id_low != 0 ==> holds_i32(mem, view + s.item_id_low, NO_INVENTORY)
    &&& s.fallback_seed != 0 ==> holds_i32(mem, entity + s.fallback_seed, skin.seed)
    &&& s.fallback_wear != 0 ==> holds(mem, entity + s.fallback_wear, WriteValue::Word(skin.wear))
    &&& s.fallback_stattrak != 0 ==> holds_i32(mem, entity + s.fallback_stattrak, skin.stattrak)
    &&& s.account_id != 0 ==> holds(mem, view + s.account_id, WriteValue::Word(1))
    &&& s.entity_quality != 0 ==> holds_i32(
        mem,
        view + s.entity_quality,
        spec_quality(skin.stattrak),
    )
    &&& s.original_owner_xuid_low != 0 ==> holds(
        mem,
        entity + s.original_owner_xuid_low,
        WriteValue::Word(1),
    )
    &&& s.original_owner_xuid_high != 0 ==> holds(
        mem,
        entity + s.original_owner_xuid_high,
        WriteValue::Word(0),
    )
    &&& s.initialized != 0 ==> holds(mem, view + s.initialized, WriteValue::Byte(1))
}

/// Whether the memory holds what step `index` puts, where the step is
/// taken.
pub open spec fn step_holds(
    mem: Map<int, u8>,
    offsets: Offsets,
    entity: u64,
    skin: WeaponSkinConfig,
    index: int,
) -> bool {
    step_at(offsets, entity, skin, index).wanted ==> holds(
        mem,
        step_at(offsets, entity, skin, index).addr,
        step_at(offsets, entity, skin, index).value,
    )
}

/// Whether the memory holds what the last step to each field puts.
pub open spec fn steps_hold(
    mem: Map<int, u8>,
    offsets: Offsets,
    entity: u64,
    skin: WeaponSkinConfig,
) -> bool {
    &&& step_holds(mem, offsets, entity, skin, 0)
    &&& step_holds(mem, offsets, entity, skin, 2)
    &&& step_holds(mem, offsets, entity, skin, 3)
    &&& step_holds(mem, offsets, entity, skin, 4)
    &&& step_holds(mem, offsets, entity, skin, 5)
    &&& step_holds(mem, offsets, entity, skin, 6)
    &&& step_holds(mem, offsets, entity, skin, 7)
    &&& step_holds(mem, offsets, entity, skin, 8)
    &&& step_holds(mem, offsets, entity, skin, 9)
    &&& step_holds(mem, offsets, entity, skin, 10)
    &&& step_holds(mem, offsets, entity, skin, 12)
}

/// An instance is restored exactly where it holds what the last step to
/// each of its fields puts.
pub proof fn lemma_restored_is_steps(
    mem: Map<int, u8>,
    offsets: Offsets,
    entity: u64,
    skin: WeaponSkinConfig,
)
    ensures
        is_restored(mem, offsets, entity, skin) == steps_hold(mem, offsets, entity, skin),
{
}

/// Where the link is mapped, a write is its thirteen steps taken in their
/// order: the link is read back as written, and nothing is written once
/// more.
pub proof fn lemma_protocol_is_write(
    target: Target,
    offsets: Offsets,
    entity: u64,
    skin: WeaponSkinConfig,
)
    requires
        covered(target.mem, sentinel_address(offsets, entity), word_of(NO_INVENTORY)),
    ensures
        spec_write_skin(target, offsets, entity, skin) == perform(
            target,
            protocol(offsets, entity, skin),
            protocol_len(),
        ),
{
    let steps = protocol(offsets, entity, skin);
    let link = sentinel_address(offsets, entity);
    let after_0 = perform(target, steps, 0);
    let after_1 = perform(target, steps, 1);
    let after_2 = perform(target, steps, 2);
    assert(after_2 == spec_invalidate(target, offsets, entity));
    let after_3 = perform(target, steps, 3);
    let after_4 = perform(target, steps, 4);
    let after_5 = perform(target, steps, 5);
    let after_6 = perform(target, steps, 6);
    let after_7 = perform(target, steps, 7);
    let after_8 = perform(target, steps, 8);
    let after_9 = perform(target, steps, 9);
    let after_10 = perform(target, steps, 10);
    assert(after_10 == spec_write_cosmetics(after_2, offsets, entity, skin));
    let after_11 = perform(target, steps, 11);
    let again = WriteValue::Checked(unsigned32(NO_INVENTORY as int) as u32);
    assert(after_11 == issue(after_10, link, again));
    lemma_perform_keeps_domain(target, steps, 10);
    lemma_write_sets(after_10.mem, link, again);
    assert(spec_load_u32(after_11.mem, link) == Some(unsigned32(NO_INVENTORY as int) as u32));
    assert(after_11 == spec_reassert(after_10, offsets, entity));
    let after_12 = perform(target, steps, 12);
    let after_13 = perform(target, steps, 13);
    assert(after_13 == spec_reinitialize(after_11, offsets, entity));
}

/// A write restores an instance within the tick: where the fields that the
/// write touches are mapped and no two of them overlap, the instance holds
/// the invalidated link and every desired value once the write is done,
/// whatever it held before.
pub proof fn lemma_write_skin_restores(
    target: Target,
    offsets: Offsets,
    entity: u64,
    skin: WeaponSkinConfig,
)
    requires
        fields_mapped(target.mem, offsets, entity, skin),
        fields_disjoint(offsets, entity, skin),
    ensures
        is_restored(spec_write_skin(target, offsets, entity, skin).mem, offsets, entity, skin),
{
    let steps = protocol(offsets, entity, skin);
    let count = protocol_len();
    assert(steps(1).wanted);
    lemma_protocol_is_write(target, offsets, entity, skin);
    let done = perform(target, steps, count).mem;
    assert(orderly(steps, count)) by {
        assert forall|i: int, j: int|
            0 <= i < count && 0 <= j < count && (#[trigger] steps(i)).wanted && (#[trigger] steps(
                j,
            )).wanted implies same_place(steps(i), steps(j)) || disjoint(steps(i), steps(j)) by {
            if field_of(i) != field_of(j) {
                assert(step_at(offsets, entity, skin, i).wanted);
                assert(step_at(offsets, entity, skin, j).wanted);
            }
        }
    }
    assert forall|index: int|
        0 <= index < count && index != 1 && index != 11 && (#[trigger] steps(
            index,
        )).wanted implies holds(done, steps(index).addr, steps(index).value) by {
        assert(last_at_its_place(steps, count, index)) by {
            assert forall|j: int| index < j < count && (#[trigger] steps(j)).wanted implies !same_place(
                steps(j),
                steps(index),
            ) by {
                assert(field_of(j) != field_of(index));
                assert(step_at(offsets, entity, skin, index).wanted);
                assert(step_at(offsets, entity, skin, j).wanted);
                assert(disjoint(steps(j), steps(index)));
            }
        }
        lemma_perform_holds(target, steps, count, index);
    }
    assert(steps(0).wanted ==> holds(done, steps(0).addr, steps(0).value));
    assert(steps(2).wanted ==> holds(done, steps(2).addr, steps(2).value));
    assert(steps(3).wanted ==> holds(done, steps(3).addr, steps(3).value));
    assert(steps(4).wanted ==> holds(done, steps(4).addr, steps(4).value));
    assert(steps(5).wanted ==> holds(done, steps(5).addr, steps(5).value));
    assert(steps(6).wanted ==> holds(done, steps(6).addr, steps(6).value));
    assert(steps(7).wanted ==> holds(done, steps(7).addr, steps(7).value));
    assert(steps(8).wanted ==> holds(done, steps(8).addr, steps(8).value));
    assert(steps(9).wanted ==> holds(done, steps(9).addr, steps(9).value));
    assert(steps(10).wanted ==> holds(done, steps(10).addr, steps(10).value));
    assert(steps(12).wanted ==> holds(done, steps(12).addr, steps(12).value));
}

/// Applying the desired state restores an instance within the tick: where
/// values are pending for the instance, its fields are mapped and no two
/// of them overlap, the instance holds the invalidated link and every
/// desired value once the desired state is applied.
pub proof fn lemma_apply_restores(
    target: Target,
    offsets: Offsets,
    config: Map<Weapon, WeaponSkinConfig>,
    entity: u64,
    skin: WeaponSkinConfig,
)
    requires
        spec_pending_skin(target.mem, offsets, config, entity) == Some(skin),
        fields_mapped(target.mem, offsets, entity, skin),
        fields_disjoint(offsets, entity, skin),
    ensures
        is_restored(
            spec_apply_skin(target, offsets, config, entity).mem,
            offsets,
            entity,
            skin,
        ),
{
    lemma_write_skin_restores(target, offsets, entity, skin);
}

} // verus!
