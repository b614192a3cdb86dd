//! The offset resolution pipeline.
//!
//! The pipeline resolves, in this order: the base addresses of the modules,
//! the addresses of the interfaces, the global pointers that signature scans
//! find, and the field offsets that the type registry knows. A step is
//! either mandatory, and then its failure fails the pipeline, or optional,
//! and then a default takes the place of what was not found. No step writes
//! to the target.

use vstd::prelude::*;
use vstd::string::*;
use crate::constants::{CLIENT_LIB, ENGINE_LIB, INPUT_LIB, SCHEMA_LIB, SDL_LIB, TIER0_LIB};
use crate::cs2::dumper::{
    engine_symbol, first_decoded, spec_update_from_dumper, update_offsets_from_dumper,
    DumperOutput, NETWORK_CLIENT_SYMBOL,
};
use crate::cs2::offsets::{
    DirectOffsets, EntityIdentityOffsets, InterfaceOffsets, LibraryOffsets,
    NetworkGameClientOffsets, Offsets, PawnOffsets, PlayerControllerOffsets, SkinOffsets,
    WeaponOffsets, WeaponServicesOffsets,
};
use crate::cs2::schema::{
    lemma_registry_bounded, scope_count, spec_field_lookup, spec_schema, spec_scopes, ModuleScope,
    Schema, ScopeView, MAX_FIELD_OFFSET, SCHEMA_SYSTEM_PATTERN,
};
use crate::cs2::CS2;
use crate::memory::{address_add, spec_read_i32, spec_read_u64, wrap_address};
use crate::pattern::spec_relative_address;
use crate::process::{spec_interface, spec_module_base, spec_scan, Interface, Module, Process};

verus! {

/// The interface that serves the entity list.
pub const RESOURCE_INTERFACE: &'static str = "GameResourceServiceClientV0";

/// The interface that serves console variables.
pub const CVAR_INTERFACE: &'static str = "VEngineCvar0";

/// The interface of the input system.
pub const INPUT_INTERFACE: &'static str = "InputSystemVersion0";

/// The signature of the instruction that tests the local player pointer.
pub const LOCAL_PLAYER_PATTERN: &'static str = "48 83 3D ? ? ? ? 00 0F 95 C0 C3";

/// The signatures of the instruction that stores the network game client,
/// as builds of the target differ, in the order in which they are tried.
pub const NETWORK_CLIENT_PATTERN_1: &'static str =
    "48 89 3D ? ? ? ? 48 8D 15 ? ? ? ? 48 8B 05";

pub const NETWORK_CLIENT_PATTERN_2: &'static str = "48 89 3D ? ? ? ? 48 8D 15";

pub const NETWORK_CLIENT_PATTERN_3: &'static str = "48 89 1D ? ? ? ? 49 8B 04 24";

pub const NETWORK_CLIENT_PATTERN_4: &'static str = "4C 8B 0D ? ? ? ? 4C 8B D2";

/// Where the network game client is taken to lie, from the engine's base,
/// if neither a scan nor a fallback source says otherwise.
pub const NETWORK_CLIENT_FALLBACK: u64 = 0x8EB538;

/// The offset of the delta tick if no fallback source gives one.
pub const DELTA_TICK_DEFAULT: u64 = 0x158;

/// The module bases, if every module is loaded.
pub open spec fn spec_libraries(modules: Seq<Module>) -> Option<LibraryOffsets> {
    let client = spec_module_base(modules, CLIENT_LIB.spec_bytes(), 0);
    let engine = spec_module_base(modules, ENGINE_LIB.spec_bytes(), 0);
    let tier0 = spec_module_base(modules, TIER0_LIB.spec_bytes(), 0);
    let input = spec_module_base(modules, INPUT_LIB.spec_bytes(), 0);
    let sdl = spec_module_base(modules, SDL_LIB.spec_bytes(), 0);
    let schema = spec_module_base(modules, SCHEMA_LIB.spec_bytes(), 0);
    if client is Some && engine is Some && tier0 is Some && input is Some && sdl is Some
        && schema is Some {
        Some(
            LibraryOffsets {
                client: client.unwrap(),
                engine: engine.unwrap(),
                tier0: tier0.unwrap(),
                input: input.unwrap(),
                sdl: sdl.unwrap(),
                schema: schema.unwrap(),
            },
        )
    } else {
        None
    }
}

/// The interface addresses, if every interface is exported. The entity
/// list lies 16 bytes behind what the resource interface points to at
/// offset 0x50.
pub open spec fn spec_interfaces(
    mem: Map<int, u8>,
    interfaces: Seq<Interface>,
    library: LibraryOffsets,
) -> Option<InterfaceOffsets> {
    let resource = spec_interface(interfaces, library.engine, RESOURCE_INTERFACE.spec_bytes(), 0);
    let cvar = spec_interface(interfaces, library.tier0, CVAR_INTERFACE.spec_bytes(), 0);
    let input = spec_interface(interfaces, library.input, INPUT_INTERFACE.spec_bytes(), 0);
    if resource is Some && cvar is Some && input is Some {
        Some(
            InterfaceOffsets {
                resource: resource.unwrap(),
                entity: wrap_address(spec_read_u64(mem, resource.unwrap() + 0x50) + 0x10),
                cvar: cvar.unwrap(),
                input: input.unwrap(),
            },
        )
    } else {
        None
    }
}

/// The address of the local player pointer, if its signature is found in
/// the client module.
pub open spec fn spec_local_player_pointer(
    mem: Map<int, u8>,
    modules: Seq<Module>,
    client: u64,
) -> Option<u64> {
    match spec_scan(mem, modules, LOCAL_PLAYER_PATTERN.spec_bytes(), client) {
        Some(found) => Some(spec_relative_address(mem, found as int, 3, 8)),
        None => None,
    }
}

/// Where the first of the network game client's signatures that occurs in
/// the engine module is found.
pub open spec fn spec_scan_network_client(
    mem: Map<int, u8>,
    modules: Seq<Module>,
    engine: u64,
) -> Option<u64> {
    let first = spec_scan(mem, modules, NETWORK_CLIENT_PATTERN_1.spec_bytes(), engine);
    let second = spec_scan(mem, modules, NETWORK_CLIENT_PATTERN_2.spec_bytes(), engine);
    let third = spec_scan(mem, modules, NETWORK_CLIENT_PATTERN_3.spec_bytes(), engine);
    let fourth = spec_scan(mem, modules, NETWORK_CLIENT_PATTERN_4.spec_bytes(), engine);
    if first is Some {
        first
    } else if second is Some {
        second
    } else if third is Some {
        third
    } else {
        fourth
    }
}

/// The offsets after the network game client is resolved: by a signature
/// scan, else from the fallback sources, else, where the sources give no
/// value for it, by the built-in constant. The delta tick's offset, where
/// nothing has set it, is the default.
pub open spec fn spec_resolve_network_client(
    offsets: Offsets,
    mem: Map<int, u8>,
    modules: Seq<Module>,
    sources: Seq<Option<DumperOutput>>,
) -> Offsets {
    let located = match spec_scan_network_client(mem, modules, offsets.library.engine) {
        Some(found) => Offsets {
            direct: DirectOffsets {
                network_client: spec_relative_address(mem, found as int, 3, 7),
                ..offsets.direct
            },
            ..offsets
        },
        None => {
            let (updated, given) = spec_update_from_dumper(offsets, sources);
            if given {
                updated
            } else {
                Offsets {
                    direct: DirectOffsets {
                        network_client: wrap_address(
                            offsets.library.engine + NETWORK_CLIENT_FALLBACK,
                        ),
                        ..updated.direct
                    },
                    ..updated
                }
            }
        },
    };
    if located.network_client.delta_tick == 0 {
        Offsets {
            network_client: NetworkGameClientOffsets { delta_tick: DELTA_TICK_DEFAULT },
            ..located
        }
    } else {
        located
    }
}

/// The field offsets without which nothing can be patched, if the scope
/// knows them all, and the size of an entry of the entity list, if the scope
/// knows it and it is not negative.
pub open spec fn spec_required_fields(scope: ScopeView) -> Option<
    (
        PlayerControllerOffsets,
        PawnOffsets,
        WeaponServicesOffsets,
        WeaponOffsets,
        EntityIdentityOffsets,
    ),
> {
    let pawn = spec_field_lookup(
        scope,
        "CBasePlayerController".spec_bytes(),
        "m_hPawn".spec_bytes(),
    );
    let weapon = spec_field_lookup(
        scope,
        "C_CSPlayerPawn".spec_bytes(),
        "m_pClippingWeapon".spec_bytes(),
    );
    let weapon_services = spec_field_lookup(
        scope,
        "C_BasePlayerPawn".spec_bytes(),
        "m_pWeaponServices".spec_bytes(),
    );
    let weapons = spec_field_lookup(
        scope,
        "CPlayer_WeaponServices".spec_bytes(),
        "m_hMyWeapons".spec_bytes(),
    );
    let attribute_manager = spec_field_lookup(
        scope,
        "C_EconEntity".spec_bytes(),
        "m_AttributeManager".spec_bytes(),
    );
    let item = spec_field_lookup(
        scope,
        "C_AttributeContainer".spec_bytes(),
        "m_Item".spec_bytes(),
    );
    let item_definition_index = spec_field_lookup(
        scope,
        "C_EconItemView".spec_bytes(),
        "m_iItemDefinitionIndex".spec_bytes(),
    );
    if pawn is Some && weapon is Some && weapon_services is Some && weapons is Some
        && attribute_manager is Some && item is Some && item_definition_index is Some
        && scope.classes.dom().contains("CEntityIdentity".spec_bytes())
        && scope.classes["CEntityIdentity".spec_bytes()].size >= 0 {
        Some(
            (
                PlayerControllerOffsets { pawn: pawn.unwrap() },
                PawnOffsets { weapon: weapon.unwrap(), weapon_services: weapon_services.unwrap() },
                WeaponServicesOffsets { weapons: weapons.unwrap() },
                WeaponOffsets {
                    attribute_manager: attribute_manager.unwrap(),
                    item: item.unwrap(),
                    item_definition_index: item_definition_index.unwrap(),
                },
                EntityIdentityOffsets {
                    size: scope.classes["CEntityIdentity".spec_bytes()].size,
                },
            ),
        )
    } else {
        None
    }
}

/// The offset of an optional field: zero where the scope does not know it.
pub open spec fn spec_optional_field(scope: ScopeView, class: Seq<u8>, field: Seq<u8>) -> u64 {
    match spec_field_lookup(scope, class, field) {
        Some(offset) => offset,
        None => 0,
    }
}

/// The field offsets that the patch loop uses, each zero where the scope
/// does not know the field.
pub open spec fn spec_skin_offsets(scope: ScopeView) -> SkinOffsets {
    let view = "C_EconItemView".spec_bytes();
    let entity = "C_EconEntity".spec_bytes();
    SkinOffsets {
        item_id_high: spec_optional_field(scope, view, "m_iItemIDHigh".spec_bytes()),
        item_id_low: spec_optional_field(scope, view, "m_iItemIDLow".spec_bytes()),
        account_id: spec_optional_field(scope, view, "m_iAccountID".spec_bytes()),
        entity_quality: spec_optional_field(scope, view, "m_iEntityQuality".spec_bytes()),
        initialized: spec_optional_field(scope, view, "m_bInitialized".spec_bytes()),
        attribute_list: spec_optional_field(scope, view, "m_AttributeList".spec_bytes()),
        networked_dynamic_attrs: spec_optional_field(
            scope,
            view,
            "m_NetworkedDynamicAttributes".spec_bytes(),
        ),
        fallback_paint_kit: spec_optional_field(scope, entity, "m_nFallbackPaintKit".spec_bytes()),
        fallback_seed: spec_optional_field(scope, entity, "m_nFallbackSeed".spec_bytes()),
        fallback_wear: spec_optional_field(scope, entity, "m_flFallbackWear".spec_bytes()),
        fallback_stattrak: spec_optional_field(scope, entity, "m_nFallbackStatTrak".spec_bytes()),
        custom_name: spec_optional_field(scope, view, "m_szCustomName".spec_bytes()),
        original_owner_xuid_low: spec_optional_field(
            scope,
            entity,
            "m_OriginalOwnerXuidLow".spec_bytes(),
        ),
        original_owner_xuid_high: spec_optional_field(
            scope,
            entity,
            "m_OriginalOwnerXuidHigh".spec_bytes(),
        ),
    }
}

/// The offset table that the pipeline resolves for a target, or nothing
/// where a mandatory step fails: a module is not loaded, an interface is
/// not exported, the local player's signature is not found, the registry's
/// root is not found, the registry lacks the client's scope, or that scope
/// lacks a required field or holds a negative size for the entries of the
/// entity list.
pub open spec fn spec_find_offsets(
    mem: Map<int, u8>,
    modules: Seq<Module>,
    interfaces: Seq<Interface>,
    min: u64,
    max: u64,
    sources: Seq<Option<DumperOutput>>,
) -> Option<Offsets> {
    match spec_libraries(modules) {
        None => None,
        Some(library) => match (
            spec_interfaces(mem, interfaces, library),
            spec_local_player_pointer(mem, modules, library.client),
            spec_schema(mem, modules, min, max, library.schema),
        ) {
            (Some(interface), Some(local_player), Some(registry)) => {
                if registry.dom().contains(CLIENT_LIB.spec_bytes()) {
                    let scope = registry[CLIENT_LIB.spec_bytes()];
                    match spec_required_fields(scope) {
                        Some((controller, pawn, weapon_services, weapon, entity_identity)) => {
                            let located = Offsets {
                                library,
                                interface,
                                direct: DirectOffsets { local_player, network_client: 0 },
                                ..Offsets::zero()
                            };
                            let resolved = spec_resolve_network_client(
                                located,
                                mem,
                                modules,
                                sources,
                            );
                            Some(
                                Offsets {
                                    controller,
                                    pawn,
                                    weapon_services,
                                    weapon,
                                    entity_identity,
                                    skin: spec_skin_offsets(scope),
                                    ..resolved
                                },
                            )
                        },
                        None => None,
                    }
                } else {
                    None
                }
            },
            _ => None,
        },
    }
}

/// Whether every field offset of a table is at most the largest that a
/// field can have.
pub open spec fn field_offsets_bounded(offsets: Offsets) -> bool {
    &&& offsets.controller.pawn <= MAX_FIELD_OFFSET
    &&& offsets.pawn.weapon <= MAX_FIELD_OFFSET
    &&& offsets.pawn.weapon_services <= MAX_FIELD_OFFSET
    &&& offsets.weapon_services.weapons <= MAX_FIELD_OFFSET
    &&& offsets.weapon.attribute_manager <= MAX_FIELD_OFFSET
    &&& offsets.weapon.item <= MAX_FIELD_OFFSET
    &&& offsets.weapon.item_definition_index <= MAX_FIELD_OFFSET
    &&& 0 <= offsets.entity_identity.size
    &&& offsets.skin.item_id_high <= MAX_FIELD_OFFSET
    &&& offsets.skin.item_id_low <= MAX_FIELD_OFFSET
    &&& offsets.skin.account_id <= MAX_FIELD_OFFSET
    &&& offsets.skin.entity_quality <= MAX_FIELD_OFFSET
    &&& offsets.skin.initialized <= MAX_FIELD_OFFSET
    &&& offsets.skin.attribute_list <= MAX_FIELD_OFFSET
    &&& offsets.skin.networked_dynamic_attrs <= MAX_FIELD_OFFSET
    &&& offsets.skin.fallback_paint_kit <= MAX_FIELD_OFFSET
    &&& offsets.skin.fallback_seed <= MAX_FIELD_OFFSET
    &&& offsets.skin.fallback_wear <= MAX_FIELD_OFFSET
    &&& offsets.skin.fallback_stattrak <= MAX_FIELD_OFFSET
    &&& offsets.skin.custom_name <= MAX_FIELD_OFFSET
    &&& offsets.skin.original_owner_xuid_low <= MAX_FIELD_OFFSET
    &&& offsets.skin.original_owner_xuid_high <= MAX_FIELD_OFFSET
}

/// No field offset that the pipeline resolves is negative or beyond the
/// largest that a field can have, whatever the target's memory holds.
pub proof fn lemma_resolved_offsets_bounded(
    mem: Map<int, u8>,
    modules: Seq<Module>,
    interfaces: Seq<Interface>,
    min: u64,
    max: u64,
    sources: Seq<Option<DumperOutput>>,
)
    requires
        spec_find_offsets(mem, modules, interfaces, min, max, sources) is Some,
    ensures
        field_offsets_bounded(
            spec_find_offsets(mem, modules, interfaces, min, max, sources).unwrap(),
        ),
{
    let library = spec_libraries(modules).unwrap();
    let found = spec_scan(mem, modules, SCHEMA_SYSTEM_PATTERN.spec_bytes(), library.schema).unwrap();
    let root = spec_relative_address(mem, found as int, 3, 7);
    let scopes_vec = spec_read_u64(mem, root + 0x1F8);
    let count = scope_count(spec_read_i32(mem, root + 0x1F0));
    let registry = spec_scopes(mem, min, max, scopes_vec, count);
    assert(spec_schema(mem, modules, min, max, library.schema) == Some(registry));
    let name = CLIENT_LIB.spec_bytes();
    assert forall|class: Seq<u8>, field: Seq<u8>|
        match #[trigger] spec_field_lookup(registry[name], class, field) {
            Some(offset) => offset <= MAX_FIELD_OFFSET,
            None => true,
        } by {
        lemma_registry_bounded(mem, min, max, scopes_vec, count, name, class, field);
    }
}

/// Where the first three signatures of the network game client occur
/// nowhere and the fourth does, the fourth decides.
pub proof fn lemma_fourth_pattern_decides(
    offsets: Offsets,
    mem: Map<int, u8>,
    modules: Seq<Module>,
    sources: Seq<Option<DumperOutput>>,
)
    requires
        spec_scan(mem, modules, NETWORK_CLIENT_PATTERN_1.spec_bytes(), offsets.library.engine)
            is None,
        spec_scan(mem, modules, NETWORK_CLIENT_PATTERN_2.spec_bytes(), offsets.library.engine)
            is None,
        spec_scan(mem, modules, NETWORK_CLIENT_PATTERN_3.spec_bytes(), offsets.library.engine)
            is None,
        spec_scan(mem, modules, NETWORK_CLIENT_PATTERN_4.spec_bytes(), offsets.library.engine)
            is Some,
    ensures
        spec_resolve_network_client(offsets, mem, modules, sources).direct.network_client
            == spec_relative_address(
            mem,
            spec_scan(
                mem,
                modules,
                NETWORK_CLIENT_PATTERN_4.spec_bytes(),
                offsets.library.engine,
            ).unwrap() as int,
            3,
            7,
        ),
{
}

/// Where no signature occurs, the first source of the chain has failed and
/// the second yields a table that holds the symbol, the second source's
/// value is used.
pub proof fn lemma_second_source_decides(
    offsets: Offsets,
    mem: Map<int, u8>,
    modules: Seq<Module>,
    sources: Seq<Option<DumperOutput>>,
)
    requires
        spec_scan_network_client(mem, modules, offsets.library.engine) is None,
        sources.len() >= 2,
        sources[0] is None,
        sources[1] is Some,
        engine_symbol(sources[1].unwrap(), NETWORK_CLIENT_SYMBOL.spec_bytes()) is Some,
    ensures
        spec_resolve_network_client(offsets, mem, modules, sources).direct.network_client
            == wrap_address(
            offsets.library.engine + engine_symbol(
                sources[1].unwrap(),
                NETWORK_CLIENT_SYMBOL.spec_bytes(),
            ).unwrap(),
        ),
{
    assert(first_decoded(sources, 1) == Some(1int));
    assert(first_decoded(sources, 0) == Some(1int));
}

/// The sources know two outcomes only: where no signature occurs, the
/// network game client is a source's value, or it is the built-in constant.
/// A table that holds the symbol under neither key gives the constant.
pub proof fn lemma_source_value_or_constant(
    offsets: Offsets,
    mem: Map<int, u8>,
    modules: Seq<Module>,
    sources: Seq<Option<DumperOutput>>,
)
    requires
        spec_scan_network_client(mem, modules, offsets.library.engine) is None,
    ensures
        ({
            let resolved = spec_resolve_network_client(
                offsets,
                mem,
                modules,
                sources,
            ).direct.network_client;
            match first_decoded(sources, 0) {
                Some(index) => match engine_symbol(
                    sources[index].unwrap(),
                    NETWORK_CLIENT_SYMBOL.spec_bytes(),
                ) {
                    Some(value) => resolved == wrap_address(offsets.library.engine + value),
                    None => resolved == wrap_address(
                        offsets.library.engine + NETWORK_CLIENT_FALLBACK,
                    ),
                },
                None => resolved == wrap_address(offsets.library.engine + NETWORK_CLIENT_FALLBACK),
            }
        }),
{
}

/// Where no signature occurs and every source of the chain has failed, the
/// built-in constant is used, and the pipeline goes on.
pub proof fn lemma_every_source_fails(
    offsets: Offsets,
    mem: Map<int, u8>,
    modules: Seq<Module>,
    sources: Seq<Option<DumperOutput>>,
)
    requires
        spec_scan_network_client(mem, modules, offsets.library.engine) is None,
        forall|i: int| 0 <= i < sources.len() ==> sources[i] is None,
    ensures
        spec_resolve_network_client(offsets, mem, modules, sources).direct.network_client
            == wrap_address(offsets.library.engine + NETWORK_CLIENT_FALLBACK),
{
    lemma_none_decoded(sources, 0);
}

/// A chain in which every source has failed has no first decoded source.
pub proof fn lemma_none_decoded(sources: Seq<Option<DumperOutput>>, from: int)
    requires
        forall|i: int| 0 <= i < sources.len() ==> sources[i] is None,
    ensures
        first_decoded(sources, from) is None,
    decreases sources.len() - from,
{
    if 0 <= from < sources.len() {
        lemma_none_decoded(sources, from + 1);
    }
}

/// Resolves the base addresses of the modules.
pub fn find_libraries(process: &Process) -> (r: Option<LibraryOffsets>)
    ensures
        r == spec_libraries(process.modules@),
{
    let client = process.module_base_address(CLIENT_LIB);
    let engine = process.module_base_address(ENGINE_LIB);
    let tier0 = process.module_base_address(TIER0_LIB);
    let input = process.module_base_address(INPUT_LIB);
    let sdl = process.module_base_address(SDL_LIB);
    let schema = process.module_base_address(SCHEMA_LIB);
    match (client, engine, tier0, input, sdl, schema) {
        (Some(client), Some(engine), Some(tier0), Some(input), Some(sdl), Some(schema)) => Some(
            LibraryOffsets { client, engine, tier0, input, sdl, schema },
        ),
        _ => None,
    }
}

/// Resolves the addresses of the interfaces.
pub fn find_interfaces(process: &Process, library: &LibraryOffsets) -> (r: Option<
    InterfaceOffsets,
>)
    ensures
        r == spec_interfaces(process.memory@, process.interfaces@, *library),
{
    let resource = process.get_interface_offset(library.engine, RESOURCE_INTERFACE);
    let cvar = process.get_interface_offset(library.tier0, CVAR_INTERFACE);
    let input = process.get_interface_offset(library.input, INPUT_INTERFACE);
    match (resource, cvar, input) {
        (Some(resource), Some(cvar), Some(input)) => {
            let list: u64 = process.memory.read_u64_at(resource as u128 + 0x50);
            Some(InterfaceOffsets { resource, entity: address_add(list, 0x10), cvar, input })
        },
        _ => None,
    }
}

/// Tries the signatures of the network game client in their order and
/// returns where the first that occurs is found.
pub fn scan_network_client(process: &Process, engine: u64) -> (r: Option<u64>)
    ensures
        r == spec_scan_network_client(process.memory@, process.modules@, engine),
{
    match process.scan(NETWORK_CLIENT_PATTERN_1, engine) {
        Some(found) => {
            return Some(found);
        },
        None => {},
    }
    match process.scan(NETWORK_CLIENT_PATTERN_2, engine) {
        Some(found) => {
            return Some(found);
        },
        None => {},
    }
    match process.scan(NETWORK_CLIENT_PATTERN_3, engine) {
        Some(found) => {
            return Some(found);
        },
        None => {},
    }
    process.scan(NETWORK_CLIENT_PATTERN_4, engine)
}

/// Resolves the network game client and the delta tick's offset.
pub fn resolve_network_client(
    process: &Process,
    offsets: &mut Offsets,
    sources: &Vec<Option<DumperOutput>>,
)
    ensures
        *final(offsets) == spec_resolve_network_client(
            *old(offsets),
            process.memory@,
            process.modules@,
            sources@,
        ),
{
    match scan_network_client(process, offsets.library.engine) {
        Some(found) => {
            offsets.direct.network_client = process.get_relative_address(found, 3, 7);
        },
        None => {
            let decoded = update_offsets_from_dumper(offsets, sources);
            if !decoded {
                offsets.direct.network_client = address_add(
                    offsets.library.engine,
                    NETWORK_CLIENT_FALLBACK,
                );
            }
        },
    }
    if offsets.network_client.delta_tick == 0 {
        offsets.network_client.delta_tick = DELTA_TICK_DEFAULT;
    }
}

/// Looks up the field offsets without which nothing can be patched.
pub fn required_fields(scope: &ModuleScope) -> (r: Option<
    (
        PlayerControllerOffsets,
        PawnOffsets,
        WeaponServicesOffsets,
        WeaponOffsets,
        EntityIdentityOffsets,
    ),
>)
    ensures
        r == spec_required_fields(scope@),
{
    let pawn = scope.get("CBasePlayerController", "m_hPawn");
    let weapon = scope.get("C_CSPlayerPawn", "m_pClippingWeapon");
    let weapon_services = scope.get("C_BasePlayerPawn", "m_pWeaponServices");
    let weapons = scope.get("CPlayer_WeaponServices", "m_hMyWeapons");
    let attribute_manager = scope.get("C_EconEntity", "m_AttributeManager");
    let item = scope.get("C_AttributeContainer", "m_Item");
    let item_definition_index = scope.get("C_EconItemView", "m_iItemDefinitionIndex");
    let identity = scope.get_class("CEntityIdentity");
    match (
        pawn,
        weapon,
        weapon_services,
        weapons,
        attribute_manager,
        item,
        item_definition_index,
        identity,
    ) {
        (
            Some(pawn),
            Some(weapon),
            Some(weapon_services),
            Some(weapons),
            Some(attribute_manager),
            Some(item),
            Some(item_definition_index),
            Some(identity),
        ) => {
            let size: i32 = identity.size();
            if size < 0 {
                return None;
            }
            Some(
                (
                    PlayerControllerOffsets { pawn },
                    PawnOffsets { weapon, weapon_services },
                    WeaponServicesOffsets { weapons },
                    WeaponOffsets { attribute_manager, item, item_definition_index },
                    EntityIdentityOffsets { size },
                ),
            )
        },
        _ => None,
    }
}

/// The offset of an optional field: zero where the scope does not know it.
pub fn optional_field(scope: &ModuleScope, class: &str, field: &str) -> (r: u64)
    ensures
        r == spec_optional_field(scope@, class.spec_bytes(), field.spec_bytes()),
{
    match scope.get(class, field) {
        Some(offset) => offset,
        None => 0,
    }
}

/// Looks up the field offsets that the patch loop uses.
pub fn skin_offsets(scope: &ModuleScope) -> (r: SkinOffsets)
    ensures
        r == spec_skin_offsets(scope@),
{
    SkinOffsets {
        item_id_high: optional_field(scope, "C_EconItemView", "m_iItemIDHigh"),
        item_id_low: optional_field(scope, "C_EconItemView", "m_iItemIDLow"),
        account_id: optional_field(scope, "C_EconItemView", "m_iAccountID"),
        entity_quality: optional_field(scope, "C_EconItemView", "m_iEntityQuality"),
        initialized: optional_field(scope, "C_EconItemView", "m_bInitialized"),
        attribute_list: optional_field(scope, "C_EconItemView", "m_AttributeList"),
        networked_dynamic_attrs: optional_field(
            scope,
            "C_EconItemView",
            "m_NetworkedDynamicAttributes",
        ),
        fallback_paint_kit: optional_field(scope, "C_EconEntity", "m_nFallbackPaintKit"),
        fallback_seed: optional_field(scope, "C_EconEntity", "m_nFallbackSeed"),
        fallback_wear: optional_field(scope, "C_EconEntity", "m_flFallbackWear"),
        fallback_stattrak: optional_field(scope, "C_EconEntity", "m_nFallbackStatTrak"),
        custom_name: optional_field(scope, "C_EconItemView", "m_szCustomName"),
        original_owner_xuid_low: optional_field(scope, "C_EconEntity", "m_OriginalOwnerXuidLow"),
        original_owner_xuid_high: optional_field(scope, "C_EconEntity", "m_OriginalOwnerXuidHigh"),
    }
}

impl CS2 {
    /// Runs the pipeline on the process at hand. `sources` holds what came
    /// of each attempt on the chain of fallback sources, in the chain's
    /// order; it is consulted only where no signature of the network game
    /// client is found.
    pub fn find_offsets(&self, sources: &Vec<Option<DumperOutput>>) -> (r: Option<Offsets>)
        ensures
            r == spec_find_offsets(
                self.process.memory@,
                self.process.modules@,
                self.process.interfaces@,
                self.process.min,
                self.process.max,
                sources@,
            ),
    {
        let mut offsets = Offsets::default();
        offsets.library = match find_libraries(&self.process) {
            Some(library) => library,
            None => {
                return None;
            },
        };
        offsets.interface = match find_interfaces(&self.process, &offsets.library) {
            Some(interface) => interface,
            None => {
                return None;
            },
        };
        let local_player = match self.process.scan(LOCAL_PLAYER_PATTERN, offsets.library.client) {
            Some(found) => found,
            None => {
                return None;
            },
        };
        offsets.direct.local_player = self.process.get_relative_address(local_player, 3, 8);
        resolve_network_client(&self.process, &mut offsets, sources);
        let schema = match Schema::new(&self.process, offsets.library.schema) {
            Some(schema) => schema,
            None => {
                return None;
            },
        };
        let client = match schema.get_library(CLIENT_LIB) {
            Some(client) => client,
            None => {
                return None;
            },
        };
        let (controller, pawn, weapon_services, weapon, entity_identity) = match required_fields(
            client,
        ) {
            Some(fields) => fields,
            None => {
                return None;
            },
        };
        offsets.controller = controller;
        offsets.pawn = pawn;
        offsets.weapon_services = weapon_services;
        offsets.weapon = weapon;
        offsets.entity_identity = entity_identity;
        offsets.skin = skin_offsets(client);
        Some(offsets)
    }
}

} // verus!
