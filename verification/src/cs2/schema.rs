//! The reflection walker: reads the target's own type registry and builds,
//! for each named scope, a map from class names to class sizes and field
//! offsets.
//!
//! The registry is a pointer graph in the target's memory. A scope holds its
//! classes in two places that are merged: a fixed table of hash buckets,
//! each a forward-chained list, and a second list of entries added later.
//! What is found later replaces what was found earlier under the same name.
//! A null pointer, or a class pointer outside the target's valid address
//! range, is passed over; it never ends the walk.

use vstd::prelude::*;
use vstd::string::*;
use crate::cs2::name_table::NameTable;
use crate::memory::{
    spec_cstring, spec_read_i16, spec_read_i32, spec_read_u64, MAX_STRING_LEN,
};
use crate::pattern::spec_relative_address;
use crate::process::{spec_scan, Module, Process};

verus! {

/// The signature of the instruction that loads the registry's root.
pub const SCHEMA_SYSTEM_PATTERN: &'static str =
    "48 8D 3D ? ? ? ? E8 ? ? ? ? 48 8B BD ? ? ? ? 31 F6 E8 ? ? ? ? E9";

/// The number of hash buckets of a scope.
pub const SCOPE_BUCKETS: u64 = 1024;

/// The largest number of fields that a class is believed to have.
pub const MAX_FIELDS: i16 = 20000;

/// The largest number of entries that are followed along one chain. It
/// bounds the walk where the target's memory holds a cycle.
pub const CHAIN_LIMIT: usize = 65536;

/// A class as the registry describes it.
pub struct ClassView {
    pub name: Seq<u8>,
    pub size: i32,
    pub fields: Map<Seq<u8>, u64>,
}

/// A scope as the registry describes it.
pub struct ScopeView {
    pub name: Seq<u8>,
    pub classes: Map<Seq<u8>, ClassView>,
}

/// The largest offset that a field can have: the largest value of the
/// 32 bits in which the registry stores it.
pub const MAX_FIELD_OFFSET: u64 = 0x7FFF_FFFF;

/// The offset that a stored 32-bit value stands for. An offset is counted
/// from the base of an instance and is never negative: a stored value below
/// zero stands for no offset.
pub open spec fn spec_field_offset(raw: i32) -> Option<u64> {
    if raw < 0 {
        None
    } else {
        Some(raw as u64)
    }
}

/// The string that the pointer stored at `addr` refers to.
pub open spec fn spec_indirect_string(mem: Map<int, u8>, addr: int) -> Seq<u8> {
    spec_cstring(mem, spec_read_u64(mem, addr) as int, MAX_STRING_LEN as nat)
}

/// The first `count` entries of the field array at `fields_vec`, as a map
/// from names to offsets. An entry that lies beyond the address space, or
/// whose stored offset is negative, is passed over.
pub open spec fn spec_fields(mem: Map<int, u8>, fields_vec: u64, count: nat) -> Map<Seq<u8>, u64>
    decreases count,
{
    if count == 0 {
        Map::empty()
    } else {
        let rest = spec_fields(mem, fields_vec, (count - 1) as nat);
        let addr = fields_vec + 0x20 * (count - 1);
        if addr <= u64::MAX && spec_read_i32(mem, addr + 0x10) >= 0 {
            rest.insert(
                spec_indirect_string(mem, addr),
                spec_read_i32(mem, addr + 0x10) as u64,
            )
        } else {
            rest
        }
    }
}

/// Whether a stored field count is believed.
pub open spec fn field_count_plausible(count: i16) -> bool {
    0 <= count <= MAX_FIELDS
}

/// The class that the registry describes at `addr`.
pub open spec fn spec_class(mem: Map<int, u8>, addr: u64) -> ClassView {
    let count = spec_read_i16(mem, addr + 0x1C);
    ClassView {
        name: spec_indirect_string(mem, addr + 0x08),
        size: spec_read_i32(mem, addr + 0x18),
        fields: if field_count_plausible(count) {
            spec_fields(mem, spec_read_u64(mem, addr + 0x28), count as nat)
        } else {
            Map::empty()
        },
    }
}

/// Whether an entry's data pointer is taken for a class: it is not null and
/// lies inside the target's valid address range.
pub open spec fn class_pointer_valid(pointer: u64, min: u64, max: u64) -> bool {
    pointer != 0 && min < pointer < max
}

/// The data pointers of the entries of one chain, in the order in which the
/// chain holds them. An entry stores its data pointer 16 bytes in and the
/// pointer to the next entry `next_offset` bytes in; the chain ends at a
/// null pointer, and after `fuel` entries at the latest.
pub open spec fn chain_pointers(mem: Map<int, u8>, element: u64, next_offset: int, fuel: nat) -> Seq<
    u64,
>
    decreases fuel,
{
    if element == 0 || fuel == 0 {
        Seq::empty()
    } else {
        seq![spec_read_u64(mem, element + 0x10)] + chain_pointers(
            mem,
            spec_read_u64(mem, element + next_offset),
            next_offset,
            (fuel - 1) as nat,
        )
    }
}

/// The head of bucket `index` of the scope at `scope`.
pub open spec fn bucket_head(mem: Map<int, u8>, scope: u64, index: int) -> u64 {
    spec_read_u64(mem, scope + 0x5F0 + 24 * index + 0x28)
}

/// The data pointers found in the first `buckets` hash buckets of the scope
/// at `scope`, bucket by bucket.
pub open spec fn bucket_pointers(mem: Map<int, u8>, scope: u64, buckets: nat) -> Seq<u64>
    decreases buckets,
{
    if buckets == 0 {
        Seq::empty()
    } else {
        bucket_pointers(mem, scope, (buckets - 1) as nat) + chain_pointers(
            mem,
            bucket_head(mem, scope, buckets - 1),
            0x08,
            CHAIN_LIMIT as nat,
        )
    }
}

/// The data pointers found in the second list of the scope at `scope`.
pub open spec fn overflow_pointers(mem: Map<int, u8>, scope: u64) -> Seq<u64> {
    chain_pointers(mem, spec_read_u64(mem, scope + 0x580), 0, CHAIN_LIMIT as nat)
}

/// The classes known after the classes behind `pointers` are added to
/// `known`, one after the other. A pointer that is not valid adds nothing;
/// a class replaces what was known under its name.
pub open spec fn collect_classes(
    known: Map<Seq<u8>, ClassView>,
    mem: Map<int, u8>,
    min: u64,
    max: u64,
    pointers: Seq<u64>,
) -> Map<Seq<u8>, ClassView>
    decreases pointers.len(),
{
    if pointers.len() == 0 {
        known
    } else {
        let rest = collect_classes(known, mem, min, max, pointers.drop_last());
        let pointer = pointers.last();
        if class_pointer_valid(pointer, min, max) {
            rest.insert(spec_class(mem, pointer).name, spec_class(mem, pointer))
        } else {
            rest
        }
    }
}

/// The scope that the registry describes at `addr`: its name, and the
/// classes of its buckets and of its second list, the second list last.
pub open spec fn spec_scope(mem: Map<int, u8>, min: u64, max: u64, addr: u64) -> ScopeView {
    ScopeView {
        name: spec_cstring(mem, addr + 0x08, MAX_STRING_LEN as nat),
        classes: collect_classes(
            Map::empty(),
            mem,
            min,
            max,
            bucket_pointers(mem, addr, SCOPE_BUCKETS as nat) + overflow_pointers(mem, addr),
        ),
    }
}

/// The scopes behind the first `count` pointers of the array at
/// `scopes_vec`, by name. A null pointer adds nothing.
pub open spec fn spec_scopes(
    mem: Map<int, u8>,
    min: u64,
    max: u64,
    scopes_vec: u64,
    count: nat,
) -> Map<Seq<u8>, ScopeView>
    decreases count,
{
    if count == 0 {
        Map::empty()
    } else {
        let rest = spec_scopes(mem, min, max, scopes_vec, (count - 1) as nat);
        let pointer = spec_read_u64(mem, scopes_vec + 8 * (count - 1));
        if pointer != 0 {
            rest.insert(spec_scope(mem, min, max, pointer).name, spec_scope(mem, min, max, pointer))
        } else {
            rest
        }
    }
}

/// The number of scopes that a stored length stands for.
pub open spec fn scope_count(length: i32) -> nat {
    if length > 0 {
        length as nat
    } else {
        0
    }
}

/// The registry whose root lies at `root`.
pub open spec fn spec_registry(mem: Map<int, u8>, min: u64, max: u64, root: u64) -> Map<
    Seq<u8>,
    ScopeView,
> {
    spec_scopes(
        mem,
        min,
        max,
        spec_read_u64(mem, root + 0x1F8),
        scope_count(spec_read_i32(mem, root + 0x1F0)),
    )
}

/// The registry of the target, if the instruction that loads its root is
/// found in the module at `schema_module`.
pub open spec fn spec_schema(
    mem: Map<int, u8>,
    modules: Seq<Module>,
    min: u64,
    max: u64,
    schema_module: u64,
) -> Option<Map<Seq<u8>, ScopeView>> {
    match spec_scan(mem, modules, SCHEMA_SYSTEM_PATTERN.spec_bytes(), schema_module) {
        Some(found) => Some(
            spec_registry(mem, min, max, spec_relative_address(mem, found as int, 3, 7)),
        ),
        None => None,
    }
}

/// The offset of `field` in `class`, as `scope` knows it.
pub open spec fn spec_field_lookup(scope: ScopeView, class: Seq<u8>, field: Seq<u8>) -> Option<u64> {
    if scope.classes.dom().contains(class) && scope.classes[class].fields.dom().contains(field) {
        Some(scope.classes[class].fields[field])
    } else {
        None
    }
}

/// Adding the classes of two lists in turn is adding those of the joined
/// list.
pub proof fn lemma_collect_concat(
    known: Map<Seq<u8>, ClassView>,
    mem: Map<int, u8>,
    min: u64,
    max: u64,
    first: Seq<u64>,
    second: Seq<u64>,
)
    ensures
        collect_classes(collect_classes(known, mem, min, max, first), mem, min, max, second)
            == collect_classes(known, mem, min, max, first + second),
    decreases second.len(),
{
    if second.len() == 0 {
        assert(first + second =~= first);
    } else {
        assert((first + second).drop_last() =~= first + second.drop_last());
        assert((first + second).last() == second.last());
        lemma_collect_concat(known, mem, min, max, first, second.drop_last());
    }
}

/// The classes of a list of pointers are those that some valid pointer of
/// the list describes, each as its last such pointer describes it.
pub proof fn lemma_collect_last_wins(
    mem: Map<int, u8>,
    min: u64,
    max: u64,
    pointers: Seq<u64>,
    name: Seq<u8>,
)
    ensures
        collect_classes(Map::empty(), mem, min, max, pointers).dom().contains(name) <==> exists|
            i: int,
        |
            0 <= i < pointers.len() && class_pointer_valid(#[trigger] pointers[i], min, max)
                && spec_class(mem, pointers[i]).name == name,
        forall|i: int|
            0 <= i < pointers.len() && class_pointer_valid(#[trigger] pointers[i], min, max)
                && spec_class(mem, pointers[i]).name == name && (forall|j: int|
                i < j < pointers.len() && class_pointer_valid(#[trigger] pointers[j], min, max)
                    ==> spec_class(mem, pointers[j]).name != name) ==> collect_classes(
                Map::empty(),
                mem,
                min,
                max,
                pointers,
            )[name] == spec_class(mem, pointers[i]),
    decreases pointers.len(),
{
    if pointers.len() > 0 {
        let shorter = pointers.drop_last();
        lemma_collect_last_wins(mem, min, max, shorter, name);
        let last = pointers.len() - 1;
        let whole = collect_classes(Map::empty(), mem, min, max, pointers);
        let rest = collect_classes(Map::empty(), mem, min, max, shorter);
        assert forall|i: int| 0 <= i < shorter.len() implies shorter[i] == pointers[i] by {}
        if whole.dom().contains(name) {
            if class_pointer_valid(pointers[last], min, max) && spec_class(
                mem,
                pointers[last],
            ).name == name {
            } else {
                assert(rest.dom().contains(name));
                let i = choose|i: int|
                    0 <= i < shorter.len() && class_pointer_valid(#[trigger] shorter[i], min, max)
                        && spec_class(mem, shorter[i]).name == name;
                assert(pointers[i] == shorter[i]);
            }
        }
        if exists|i: int|
            0 <= i < pointers.len() && class_pointer_valid(#[trigger] pointers[i], min, max)
                && spec_class(mem, pointers[i]).name == name {
            let i = choose|i: int|
                0 <= i < pointers.len() && class_pointer_valid(#[trigger] pointers[i], min, max)
                    && spec_class(mem, pointers[i]).name == name;
            if i < last {
                assert(shorter[i] == pointers[i]);
            }
        }
        assert forall|i: int|
            0 <= i < pointers.len() && class_pointer_valid(#[trigger] pointers[i], min, max)
                && spec_class(mem, pointers[i]).name == name && (forall|j: int|
                i < j < pointers.len() && class_pointer_valid(#[trigger] pointers[j], min, max)
                    ==> spec_class(mem, pointers[j]).name != name) implies whole[name]
            == spec_class(mem, pointers[i]) by {
            if i < last {
                assert(shorter[i] == pointers[i]);
                assert forall|j: int|
                    i < j < shorter.len() && class_pointer_valid(
                        #[trigger] shorter[j],
                        min,
                        max,
                    ) implies spec_class(mem, shorter[j]).name != name by {
                    assert(shorter[j] == pointers[j]);
                }
                assert(rest[name] == spec_class(mem, shorter[i]));
                if class_pointer_valid(pointers[last], min, max) {
                    assert(spec_class(mem, pointers[last]).name != name);
                }
            }
        }
    }
}

/// A class found in a scope's second list replaces one of the same name
/// found in its buckets: where the second list holds a valid pointer to a
/// class of that name, the scope knows the class as the second list alone
/// would give it.
pub proof fn lemma_overflow_replaces_buckets(
    mem: Map<int, u8>,
    min: u64,
    max: u64,
    scope: u64,
    name: Seq<u8>,
)
    requires
        collect_classes(Map::empty(), mem, min, max, overflow_pointers(mem, scope)).dom().contains(
            name,
        ),
    ensures
        spec_scope(mem, min, max, scope).classes.dom().contains(name),
        spec_scope(mem, min, max, scope).classes[name] == collect_classes(
            Map::empty(),
            mem,
            min,
            max,
            overflow_pointers(mem, scope),
        )[name],
{
    let buckets = bucket_pointers(mem, scope, SCOPE_BUCKETS as nat);
    let overflow = overflow_pointers(mem, scope);
    let from_buckets = collect_classes(Map::empty(), mem, min, max, buckets);
    lemma_collect_concat(Map::empty(), mem, min, max, buckets, overflow);
    lemma_collect_over(from_buckets, mem, min, max, overflow, name);
}

/// What a list of pointers puts under a name does not depend on what was
/// known before.
pub proof fn lemma_collect_over(
    known: Map<Seq<u8>, ClassView>,
    mem: Map<int, u8>,
    min: u64,
    max: u64,
    pointers: Seq<u64>,
    name: Seq<u8>,
)
    ensures
        collect_classes(Map::empty(), mem, min, max, pointers).dom().contains(name)
            ==> collect_classes(known, mem, min, max, pointers).dom().contains(name)
            && collect_classes(known, mem, min, max, pointers)[name] == collect_classes(
            Map::empty(),
            mem,
            min,
            max,
            pointers,
        )[name],
        !collect_classes(Map::empty(), mem, min, max, pointers).dom().contains(name) ==> (
        collect_classes(known, mem, min, max, pointers).dom().contains(name) == known.dom().contains(
            name,
        )) && (known.dom().contains(name) ==> collect_classes(known, mem, min, max, pointers)[name]
            == known[name]),
    decreases pointers.len(),
{
    if pointers.len() > 0 {
        lemma_collect_over(known, mem, min, max, pointers.drop_last(), name);
    }
}

/// The scope holds exactly the classes that its buckets or its second list
/// hold under a valid pointer.
pub proof fn lemma_scope_is_union(mem: Map<int, u8>, min: u64, max: u64, scope: u64, name: Seq<u8>)
    ensures
        spec_scope(mem, min, max, scope).classes.dom().contains(name) <==> (collect_classes(
            Map::empty(),
            mem,
            min,
            max,
            bucket_pointers(mem, scope, SCOPE_BUCKETS as nat),
        ).dom().contains(name) || collect_classes(
            Map::empty(),
            mem,
            min,
            max,
            overflow_pointers(mem, scope),
        ).dom().contains(name)),
        !collect_classes(Map::empty(), mem, min, max, overflow_pointers(mem, scope)).dom().contains(
            name,
        ) && spec_scope(mem, min, max, scope).classes.dom().contains(name) ==> spec_scope(
            mem,
            min,
            max,
            scope,
        ).classes[name] == collect_classes(
            Map::empty(),
            mem,
            min,
            max,
            bucket_pointers(mem, scope, SCOPE_BUCKETS as nat),
        )[name],
{
    let buckets = bucket_pointers(mem, scope, SCOPE_BUCKETS as nat);
    let overflow = overflow_pointers(mem, scope);
    let from_buckets = collect_classes(Map::empty(), mem, min, max, buckets);
    lemma_collect_concat(Map::empty(), mem, min, max, buckets, overflow);
    lemma_collect_over(from_buckets, mem, min, max, overflow, name);
}

/// Whether no offset of a map of fields is beyond the largest that a field
/// can have.
pub open spec fn offsets_bounded(fields: Map<Seq<u8>, u64>) -> bool {
    forall|name: Seq<u8>| fields.dom().contains(name) ==> #[trigger] fields[name] <= MAX_FIELD_OFFSET
}

/// Whether no class of a map has a field offset beyond the largest.
pub open spec fn classes_bounded(classes: Map<Seq<u8>, ClassView>) -> bool {
    forall|name: Seq<u8>|
        classes.dom().contains(name) ==> offsets_bounded(#[trigger] classes[name].fields)
}

/// No field that is read from the registry has an offset that is negative or
/// beyond the largest that 32 bits can store.
pub proof fn lemma_fields_bounded(mem: Map<int, u8>, fields_vec: u64, count: nat)
    ensures
        offsets_bounded(spec_fields(mem, fields_vec, count)),
    decreases count,
{
    if count > 0 {
        lemma_fields_bounded(mem, fields_vec, (count - 1) as nat);
    }
}

/// No class that is read from the registry has a field offset beyond the
/// largest.
pub proof fn lemma_class_bounded(mem: Map<int, u8>, addr: u64)
    ensures
        offsets_bounded(spec_class(mem, addr).fields),
{
    let count = spec_read_i16(mem, addr + 0x1C);
    if field_count_plausible(count) {
        lemma_fields_bounded(mem, spec_read_u64(mem, addr + 0x28), count as nat);
    }
}

/// Classes read from the registry keep a map of classes within the bound.
pub proof fn lemma_collect_bounded(
    known: Map<Seq<u8>, ClassView>,
    mem: Map<int, u8>,
    min: u64,
    max: u64,
    pointers: Seq<u64>,
)
    requires
        classes_bounded(known),
    ensures
        classes_bounded(collect_classes(known, mem, min, max, pointers)),
    decreases pointers.len(),
{
    if pointers.len() > 0 {
        lemma_collect_bounded(known, mem, min, max, pointers.drop_last());
        lemma_class_bounded(mem, pointers.last());
    }
}

/// Every offset that a scope of the registry knows is at most the largest
/// that a field can have.
pub proof fn lemma_scope_bounded(
    mem: Map<int, u8>,
    min: u64,
    max: u64,
    scope: u64,
    class: Seq<u8>,
    field: Seq<u8>,
)
    ensures
        match spec_field_lookup(spec_scope(mem, min, max, scope), class, field) {
            Some(offset) => offset <= MAX_FIELD_OFFSET,
            None => true,
        },
{
    lemma_collect_bounded(
        Map::empty(),
        mem,
        min,
        max,
        bucket_pointers(mem, scope, SCOPE_BUCKETS as nat) + overflow_pointers(mem, scope),
    );
    let classes = spec_scope(mem, min, max, scope).classes;
    if classes.dom().contains(class) {
        assert(offsets_bounded(classes[class].fields));
    }
}

/// Every offset that a scope of a registry knows is at most the largest
/// that a field can have.
pub proof fn lemma_registry_bounded(
    mem: Map<int, u8>,
    min: u64,
    max: u64,
    scopes_vec: u64,
    count: nat,
    scope: Seq<u8>,
    class: Seq<u8>,
    field: Seq<u8>,
)
    requires
        spec_scopes(mem, min, max, scopes_vec, count).dom().contains(scope),
    ensures
        match spec_field_lookup(
            spec_scopes(mem, min, max, scopes_vec, count)[scope],
            class,
            field,
        ) {
            Some(offset) => offset <= MAX_FIELD_OFFSET,
            None => true,
        },
    decreases count,
{
    if count > 0 {
        let rest = spec_scopes(mem, min, max, scopes_vec, (count - 1) as nat);
        let pointer = spec_read_u64(mem, scopes_vec + 8 * (count - 1));
        if pointer != 0 && spec_scope(mem, min, max, pointer).name == scope {
            lemma_scope_bounded(mem, min, max, pointer, class, field);
        } else {
            lemma_registry_bounded(
                mem,
                min,
                max,
                scopes_vec,
                (count - 1) as nat,
                scope,
                class,
                field,
            );
        }
    }
}

/// A class whose stored field count is negative or beyond the bound keeps
/// its size and has no fields.
pub proof fn lemma_implausible_field_count(mem: Map<int, u8>, addr: u64)
    requires
        spec_read_i16(mem, addr + 0x1C) < 0 || spec_read_i16(mem, addr + 0x1C) > MAX_FIELDS,
    ensures
        spec_class(mem, addr).fields == Map::<Seq<u8>, u64>::empty(),
        spec_class(mem, addr).size == spec_read_i32(mem, addr + 0x18),
{
}

/// One entry of a class's field array. The offset is missing where the
/// entry stores a negative one.
pub struct Field {
    pub name: Vec<u8>,
    pub offset: Option<u64>,
}

/// A class of the registry: its name, its size in bytes and the offsets of
/// its fields.
pub struct Class {
    pub name: Vec<u8>,
    pub fields: NameTable<u64>,
    pub size: i32,
}

/// A scope of the registry: its name and its classes.
pub struct ModuleScope {
    pub name: Vec<u8>,
    pub classes: NameTable<Class>,
}

/// The registry: its scopes by name.
pub struct Schema {
    pub scopes: NameTable<ModuleScope>,
}

impl View for Class {
    type V = ClassView;

    open spec fn view(&self) -> ClassView {
        ClassView { name: self.name@, size: self.size, fields: self.fields@ }
    }
}

/// The descriptions of the classes of a table.
pub open spec fn class_views(classes: Map<Seq<u8>, Class>) -> Map<Seq<u8>, ClassView> {
    Map::new(|name: Seq<u8>| classes.dom().contains(name), |name: Seq<u8>| classes[name]@)
}

impl View for ModuleScope {
    type V = ScopeView;

    open spec fn view(&self) -> ScopeView {
        ScopeView { name: self.name@, classes: class_views(self.classes@) }
    }
}

/// The descriptions of the scopes of a table.
pub open spec fn scope_views(scopes: Map<Seq<u8>, ModuleScope>) -> Map<Seq<u8>, ScopeView> {
    Map::new(|name: Seq<u8>| scopes.dom().contains(name), |name: Seq<u8>| scopes[name]@)
}

impl View for Schema {
    type V = Map<Seq<u8>, ScopeView>;

    open spec fn view(&self) -> Map<Seq<u8>, ScopeView> {
        scope_views(self.scopes@)
    }
}

impl Field {
    /// Reads the field entry at `address`: the string its first pointer
    /// refers to, and the offset stored 16 bytes in. A stored offset below
    /// zero is no offset.
    pub fn new(process: &Process, address: u64) -> (r: Self)
        ensures
            r.name@ == spec_indirect_string(process.memory@, address as int),
            r.offset == spec_field_offset(spec_read_i32(process.memory@, address + 0x10)),
            r.offset is Some ==> r.offset.unwrap() <= MAX_FIELD_OFFSET,
    {
        let name = process.read_string_uncached(process.memory.read_u64(address));
        let raw: i32 = process.memory.read_i32_at(address as u128 + 0x10);
        let offset: Option<u64> = if raw < 0 {
            None
        } else {
            Some(raw as u64)
        };
        Field { name, offset }
    }
}

impl Class {
    /// Reads the class at `address`. A field count that is not plausible
    /// leaves the class without fields.
    pub fn new(process: &Process, address: u64) -> (r: Self)
        ensures
            r@ == spec_class(process.memory@, address),
    {
        let name = process.read_string_uncached(
            process.memory.read_u64_at(address as u128 + 0x08),
        );
        let mut fields: NameTable<u64> = NameTable::new();
        let field_count: i16 = process.memory.read_i16_at(address as u128 + 0x1C);
        let size: i32 = process.memory.read_i32_at(address as u128 + 0x18);
        if field_count < 0 || field_count > MAX_FIELDS {
            return Class { name, fields, size };
        }
        let fields_vec: u64 = process.memory.read_u64_at(address as u128 + 0x28);
        let count: u64 = field_count as u64;
        let mut i: u64 = 0;
        while i < count
            invariant
                i <= count <= 20000,
                fields@ == spec_fields(process.memory@, fields_vec, i as nat),
            decreases count - i,
        {
            match fields_vec.checked_add(0x20 * i) {
                Some(at) => {
                    let field = Field::new(process, at);
                    match field.offset {
                        Some(offset) => {
                            fields.insert(field.name, offset);
                        },
                        None => {},
                    }
                },
                None => {},
            }
            i += 1;
        }
        Class { name, fields, size }
    }

    /// The offset of `field`, if the class has a field of that name.
    pub fn get(&self, field: &str) -> (r: Option<u64>)
        ensures
            r == if self@.fields.dom().contains(field.spec_bytes()) {
                Some(self@.fields[field.spec_bytes()])
            } else {
                None
            },
    {
        match self.fields.get(field.as_bytes()) {
            Some(offset) => Some(*offset),
            None => None,
        }
    }

    /// The size of an instance in bytes.
    pub fn size(&self) -> (r: i32)
        ensures
            r == self@.size,
    {
        self.size
    }
}

/// Follows one chain of entries from `head` and adds the class behind each
/// valid data pointer to `classes`.
fn walk_chain(process: &Process, head: u64, next_offset: u64, classes: &mut NameTable<Class>)
    requires
        next_offset <= 0x10,
    ensures
        class_views(final(classes)@) == collect_classes(
            class_views(old(classes)@),
            process.memory@,
            process.min,
            process.max,
            chain_pointers(process.memory@, head, next_offset as int, CHAIN_LIMIT as nat),
        ),
{
    let ghost mem = process.memory@;
    let ghost known = class_views(classes@);
    let ghost seen: Seq<u64> = Seq::empty();
    let mut current: u64 = head;
    let mut fuel: usize = CHAIN_LIMIT;
    assert(seen + chain_pointers(mem, current, next_offset as int, fuel as nat) =~= chain_pointers(
        mem,
        head,
        next_offset as int,
        CHAIN_LIMIT as nat,
    ));
    while current != 0 && fuel > 0
        invariant
            next_offset <= 0x10,
            mem == process.memory@,
            known == class_views(old(classes)@),
            chain_pointers(mem, head, next_offset as int, CHAIN_LIMIT as nat) == seen
                + chain_pointers(mem, current, next_offset as int, fuel as nat),
            class_views(classes@) == collect_classes(known, mem, process.min, process.max, seen),
        decreases fuel,
    {
        let data: u64 = process.memory.read_u64_at(current as u128 + 0x10);
        let next: u64 = process.memory.read_u64_at(current as u128 + next_offset as u128);
        proof {
            let tail = chain_pointers(mem, next, next_offset as int, (fuel - 1) as nat);
            assert(seen + (seq![data] + tail) =~= seen.push(data) + tail);
            assert(seen.push(data).drop_last() =~= seen);
        }
        if data != 0 && process.min < data && data < process.max {
            let class = Class::new(process, data);
            let ghost before = classes@;
            let ghost view = class@;
            let name = class.name.clone();
            classes.insert(name, class);
            assert(class_views(classes@) =~= class_views(before).insert(view.name, view));
        }
        proof {
            seen = seen.push(data);
        }
        current = next;
        fuel -= 1;
    }
    assert(chain_pointers(mem, current, next_offset as int, fuel as nat) =~= Seq::<u64>::empty());
    assert(seen + Seq::<u64>::empty() =~= seen);
}

impl ModuleScope {
    /// Reads the scope at `address`: its name, the classes of its hash
    /// buckets and then those of its second list.
    pub fn new(process: &Process, address: u64) -> (r: Self)
        ensures
            r@ == spec_scope(process.memory@, process.min, process.max, address),
    {
        let ghost mem = process.memory@;
        let name = process.memory.read_cstring_at(address as u128 + 0x08);
        let mut classes: NameTable<Class> = NameTable::new();
        assert(class_views(classes@) =~= Map::<Seq<u8>, ClassView>::empty());
        let mut i: u64 = 0;
        while i < SCOPE_BUCKETS
            invariant
                i <= SCOPE_BUCKETS,
                mem == process.memory@,
                class_views(classes@) == collect_classes(
                    Map::empty(),
                    mem,
                    process.min,
                    process.max,
                    bucket_pointers(mem, address, i as nat),
                ),
            decreases SCOPE_BUCKETS - i,
        {
            let head: u64 = process.memory.read_u64_at(
                address as u128 + 0x5F0 + 24 * (i as u128) + 0x28,
            );
            proof {
                lemma_collect_concat(
                    Map::empty(),
                    mem,
                    process.min,
                    process.max,
                    bucket_pointers(mem, address, i as nat),
                    chain_pointers(mem, head, 0x08, CHAIN_LIMIT as nat),
                );
            }
            walk_chain(process, head, 0x08, &mut classes);
            i += 1;
        }
        let overflow: u64 = process.memory.read_u64_at(address as u128 + 0x580);
        proof {
            lemma_collect_concat(
                Map::empty(),
                mem,
                process.min,
                process.max,
                bucket_pointers(mem, address, SCOPE_BUCKETS as nat),
                overflow_pointers(mem, address),
            );
        }
        walk_chain(process, overflow, 0, &mut classes);
        ModuleScope { name, classes }
    }

    /// The offset of `field` in `class`, if the scope knows both.
    pub fn get(&self, class: &str, field: &str) -> (r: Option<u64>)
        ensures
            r == spec_field_lookup(self@, class.spec_bytes(), field.spec_bytes()),
    {
        match self.classes.get(class.as_bytes()) {
            Some(found) => found.get(field),
            None => None,
        }
    }

    /// The class of the given name, if the scope knows it.
    pub fn get_class(&self, class: &str) -> (r: Option<&Class>)
        ensures
            match r {
                Some(found) => self@.classes.dom().contains(class.spec_bytes()) && found@
                    == self@.classes[class.spec_bytes()],
                None => !self@.classes.dom().contains(class.spec_bytes()),
            },
    {
        self.classes.get(class.as_bytes())
    }
}

impl Schema {
    /// Walks the registry of the target. The root is located by a signature
    /// scan of the module at `schema_module`; where the scan finds nothing
    /// there is no registry.
    pub fn new(process: &Process, schema_module: u64) -> (r: Option<Self>)
        ensures
            match r {
                Some(schema) => Some(schema@) == spec_schema(
                    process.memory@,
                    process.modules@,
                    process.min,
                    process.max,
                    schema_module,
                ),
                None => spec_schema(
                    process.memory@,
                    process.modules@,
                    process.min,
                    process.max,
                    schema_module,
                ) is None,
            },
    {
        let ghost mem = process.memory@;
        let found = match process.scan(SCHEMA_SYSTEM_PATTERN, schema_module) {
            Some(found) => found,
            None => {
                return None;
            },
        };
        let root: u64 = process.get_relative_address(found, 3, 7);
        let length: i32 = process.memory.read_i32_at(root as u128 + 0x1F0);
        let scopes_vec: u64 = process.memory.read_u64_at(root as u128 + 0x1F8);
        let count: u64 = if length > 0 {
            length as u64
        } else {
            0
        };
        let mut scopes: NameTable<ModuleScope> = NameTable::new();
        assert(scope_views(scopes@) =~= Map::<Seq<u8>, ScopeView>::empty());
        let mut i: u64 = 0;
        while i < count
            invariant
                i <= count <= i32::MAX,
                mem == process.memory@,
                scope_views(scopes@) == spec_scopes(
                    mem,
                    process.min,
                    process.max,
                    scopes_vec,
                    i as nat,
                ),
            decreases count - i,
        {
            let pointer: u64 = process.memory.read_u64_at(scopes_vec as u128 + 8 * (i as u128));
            if pointer != 0 {
                let scope = ModuleScope::new(process, pointer);
                let ghost before = scopes@;
                let ghost view = scope@;
                let name = scope.name.clone();
                scopes.insert(name, scope);
                assert(scope_views(scopes@) =~= scope_views(before).insert(view.name, view));
            }
            i += 1;
        }
        Some(Schema { scopes })
    }

    /// The scope of the given name, if the registry holds it.
    pub fn get_library(&self, library: &str) -> (r: Option<&ModuleScope>)
        ensures
            match r {
                Some(scope) => self@.dom().contains(library.spec_bytes()) && scope@
                    == self@[library.spec_bytes()],
                None => !self@.dom().contains(library.spec_bytes()),
            },
    {
        self.scopes.get(library.as_bytes())
    }
}

} // verus!
