use cs2_skin_changer::cs2::dumper::{
    first_decoded_source, lookup_engine_symbol, mirror, next_source,
    update_offsets_from_dumper, DumperOutput, LOCAL_CACHE, SOURCE_COUNT,
};
use cs2_skin_changer::cs2::find_offsets::{
    find_interfaces, find_libraries, optional_field, required_fields, resolve_network_client,
    scan_network_client, skin_offsets, DELTA_TICK_DEFAULT, NETWORK_CLIENT_FALLBACK,
};
use cs2_skin_changer::cs2::name_table::NameTable;
use cs2_skin_changer::cs2::offsets::{LibraryOffsets, Offsets};
use cs2_skin_changer::cs2::schema::{ModuleScope, Schema};
use cs2_skin_changer::cs2::CS2;
use cs2_skin_changer::process::Process;

const ARENA_BASE: u64 = 0x100000;
const ARENA_SIZE: usize = 0x40000;
const MODULE_SIZE: u64 = 0x100;

const SCHEMA_SIGNATURE: [u8; 27] = [
    0x48, 0x8D, 0x3D, 0, 0, 0, 0, 0xE8, 0, 0, 0, 0, 0x48, 0x8B, 0xBD, 0, 0, 0, 0, 0x31, 0xF6,
    0xE8, 0, 0, 0, 0, 0xE9,
];
const LOCAL_PLAYER_SIGNATURE: [u8; 12] =
    [0x48, 0x83, 0x3D, 0, 0, 0, 0, 0x00, 0x0F, 0x95, 0xC0, 0xC3];
const NETWORK_1: [u8; 17] =
    [0x48, 0x89, 0x3D, 0, 0, 0, 0, 0x48, 0x8D, 0x15, 0, 0, 0, 0, 0x48, 0x8B, 0x05];
const NETWORK_2: [u8; 10] = [0x48, 0x89, 0x3D, 0, 0, 0, 0, 0x48, 0x8D, 0x15];
const NETWORK_3: [u8; 11] = [0x48, 0x89, 0x1D, 0, 0, 0, 0, 0x49, 0x8B, 0x04, 0x24];
const NETWORK_4: [u8; 10] = [0x4C, 0x8B, 0x0D, 0, 0, 0, 0, 0x4C, 0x8B, 0xD2];

const LOCAL_PLAYER_TARGET: u64 = 0x7000_1000;
const NETWORK_TARGET: u64 = 0x7000_2000;

struct Arena {
    bytes: Vec<u8>,
    next: u64,
}

impl Arena {
    fn new() -> Arena {
        Arena { bytes: vec![0xCC; ARENA_SIZE], next: ARENA_BASE + 0x10 }
    }

    fn reserve(&mut self, size: u64) -> u64 {
        let at = self.next;
        self.next = (at + size + 15) / 16 * 16;
        assert!(self.next <= ARENA_BASE + self.bytes.len() as u64);
        let start = (at - ARENA_BASE) as usize;
        for byte in &mut self.bytes[start..start + size as usize] {
            *byte = 0;
        }
        at
    }

    fn put(&mut self, addr: u64, data: &[u8]) {
        let at = (addr - ARENA_BASE) as usize;
        self.bytes[at..at + data.len()].copy_from_slice(data);
    }

    fn put_u64(&mut self, addr: u64, value: u64) {
        self.put(addr, &value.to_le_bytes());
    }

    fn put_i32(&mut self, addr: u64, value: i32) {
        self.put(addr, &value.to_le_bytes());
    }

    fn put_i16(&mut self, addr: u64, value: i16) {
        self.put(addr, &value.to_le_bytes());
    }

    fn string(&mut self, text: &str) -> u64 {
        let at = self.reserve(text.len() as u64 + 1);
        self.put(at, text.as_bytes());
        at
    }

    fn class(&mut self, name: &str, size: i32, fields: &[(&str, i32)]) -> u64 {
        let class = self.reserve(0x30);
        let text = self.string(name);
        let array = self.reserve(0x20 * fields.len().max(1) as u64);
        for (i, (field, offset)) in fields.iter().enumerate() {
            let field_name = self.string(field);
            self.put_u64(array + 0x20 * i as u64, field_name);
            self.put_i32(array + 0x20 * i as u64 + 0x10, *offset);
        }
        self.put_u64(class + 0x08, text);
        self.put_i32(class + 0x18, size);
        self.put_i16(class + 0x1C, fields.len() as i16);
        self.put_u64(class + 0x28, array);
        class
    }

    fn scope(&mut self, name: &str, classes: &[u64]) -> u64 {
        let scope = self.reserve(0x6700);
        self.put(scope + 0x08, name.as_bytes());
        for (i, class) in classes.iter().enumerate() {
            let element = self.reserve(0x18);
            self.put_u64(element + 0x10, *class);
            self.put_u64(scope + 0x5F0 + 24 * i as u64 + 0x28, element);
        }
        scope
    }

    fn registry(&mut self, scopes: &[u64]) -> u64 {
        let root = self.reserve(0x200);
        let array = self.reserve(8 * scopes.len().max(1) as u64);
        for (i, scope) in scopes.iter().enumerate() {
            self.put_u64(array + 8 * i as u64, *scope);
        }
        self.put_i32(root + 0x1F0, scopes.len() as i32);
        self.put_u64(root + 0x1F8, array);
        root
    }

    /// A module of `MODULE_SIZE` bytes that holds `signature` at `offset`, with the
    /// displacement at byte 3 of the signature set so that an instruction of `length`
    /// bytes refers to `target`.
    fn module(&mut self, parts: &[(u64, &[u8], u64, u64)]) -> u64 {
        let module = self.reserve(MODULE_SIZE);
        self.put(module, &[0x90; MODULE_SIZE as usize]);
        for (offset, signature, length, target) in parts {
            let at = module + offset;
            let mut bytes = signature.to_vec();
            let displacement = (*target as i64 - (at as i64 + *length as i64)) as i32;
            bytes[3..7].copy_from_slice(&displacement.to_le_bytes());
            self.put(at, &bytes);
        }
        module
    }
}

#[derive(Clone)]
struct Plan {
    network: Vec<(u64, Vec<u8>)>,
    local_player: bool,
    skip_module: Option<&'static str>,
    skip_interface: Option<&'static str>,
    scope_name: &'static str,
    skip_class: Option<&'static str>,
    skip_field: Option<&'static str>,
    negative_field: Option<&'static str>,
    identity_size: i32,
    schema_signature: bool,
}

fn plan() -> Plan {
    Plan {
        network: vec![(0x20, NETWORK_1.to_vec())],
        local_player: true,
        skip_module: None,
        skip_interface: None,
        scope_name: "libclient.so",
        skip_class: None,
        skip_field: None,
        negative_field: None,
        identity_size: 0x78,
        schema_signature: true,
    }
}

struct World {
    process: Process,
    client: u64,
    engine: u64,
    tier0: u64,
    input: u64,
    sdl: u64,
    schema: u64,
    resource: u64,
    entity_list: u64,
}

fn classes() -> Vec<(&'static str, i32, Vec<(&'static str, i32)>)> {
    vec![
        ("CBasePlayerController", 0x900, vec![("m_hPawn", 0x6B4)]),
        ("C_CSPlayerPawn", 0x2000, vec![("m_pClippingWeapon", 0x1620)]),
        ("C_BasePlayerPawn", 0x1500, vec![("m_pWeaponServices", 0x13F0)]),
        ("CPlayer_WeaponServices", 0x80, vec![("m_hMyWeapons", 0x48)]),
        (
            "C_EconEntity",
            0x1800,
            vec![
                ("m_AttributeManager", 0x1378),
                ("m_OriginalOwnerXuidLow", 0x1848),
                ("m_OriginalOwnerXuidHigh", 0x184C),
                ("m_nFallbackPaintKit", 0x1850),
                ("m_nFallbackSeed", 0x1854),
                ("m_flFallbackWear", 0x1858),
                ("m_nFallbackStatTrak", 0x185C),
            ],
        ),
        ("C_AttributeContainer", 0x500, vec![("m_Item", 0x50)]),
        (
            "C_EconItemView",
            0x4B0,
            vec![
                ("m_iItemDefinitionIndex", 0x1BA),
                ("m_iEntityQuality", 0x1BC),
                ("m_iItemIDHigh", 0x1D0),
                ("m_iItemIDLow", 0x1D4),
                ("m_iAccountID", 0x1D8),
                ("m_bInitialized", 0x1E8),
                ("m_AttributeList", 0x210),
                ("m_NetworkedDynamicAttributes", 0x288),
                ("m_szCustomName", 0x2F8),
            ],
        ),
        ("CEntityIdentity", 0x78, vec![("m_name", 0x20)]),
    ]
}

fn world(plan: &Plan) -> World {
    let mut arena = Arena::new();
    let mut built = Vec::new();
    for (name, size, fields) in classes() {
        if plan.skip_class == Some(name) {
            continue;
        }
        let kept: Vec<(&str, i32)> = fields
            .into_iter()
            .filter(|(field, _)| plan.skip_field != Some(*field))
            .map(|(field, offset)| {
                if plan.negative_field == Some(field) {
                    (field, -offset)
                } else {
                    (field, offset)
                }
            })
            .collect();
        let size = if name == "CEntityIdentity" { plan.identity_size } else { size };
        built.push(arena.class(name, size, &kept));
    }
    let scope = arena.scope(plan.scope_name, &built);
    let root = arena.registry(&[scope]);
    let client = if plan.local_player {
        arena.module(&[(0x30, &LOCAL_PLAYER_SIGNATURE, 8, LOCAL_PLAYER_TARGET)])
    } else {
        arena.module(&[])
    };
    let parts: Vec<(u64, &[u8], u64, u64)> = plan
        .network
        .iter()
        .map(|(offset, signature)| (*offset, signature.as_slice(), 7, NETWORK_TARGET + *offset))
        .collect();
    let engine = arena.module(&parts);
    let tier0 = arena.module(&[]);
    let input = arena.module(&[]);
    let sdl = arena.module(&[]);
    let schema = if plan.schema_signature {
        arena.module(&[(0x10, &SCHEMA_SIGNATURE, 7, root)])
    } else {
        arena.module(&[])
    };
    let resource = arena.reserve(0x60);
    let entity_list = 0x7100_0000u64;
    arena.put_u64(resource + 0x50, entity_list);
    let cvar = arena.reserve(0x10);
    let input_system = arena.reserve(0x10);

    let mut process = Process::new(4242);
    process.memory.map_region(ARENA_BASE, arena.bytes);
    process.set_address_range(ARENA_BASE, ARENA_BASE + ARENA_SIZE as u64);
    let modules = [
        ("libclient.so", client),
        ("libengine2.so", engine),
        ("libtier0.so", tier0),
        ("libinputsystem.so", input),
        ("libSDL3.so.0", sdl),
        ("libschemasystem.so", schema),
    ];
    for (name, base) in modules {
        if plan.skip_module != Some(name) {
            process.add_module(name, base, MODULE_SIZE);
        }
    }
    let interfaces = [
        (engine, "GameResourceServiceClientV001", resource),
        (tier0, "VEngineCvar007", cvar),
        (input, "InputSystemVersion001", input_system),
    ];
    for (library, name, address) in interfaces {
        if plan.skip_interface != Some(name) {
            process.add_interface(library, name, address);
        }
    }
    World { process, client, engine, tier0, input, sdl, schema, resource, entity_list }
}

fn attachment(process: Process) -> CS2 {
    let mut cs2 = CS2::new();
    cs2.process = process;
    cs2
}

fn resolve(plan: &Plan, sources: &Vec<Option<DumperOutput>>) -> (Option<Offsets>, World) {
    let built = world(plan);
    let again = world(plan);
    let cs2 = attachment(built.process);
    (cs2.find_offsets(sources), again)
}

fn symbols(entries: &[(&str, u64)]) -> NameTable<u64> {
    let mut table = NameTable::new();
    for (name, value) in entries {
        table.insert(name.as_bytes().to_vec(), *value);
    }
    table
}

fn source(libengine: Option<&[(&str, u64)]>, engine: Option<&[(&str, u64)]>) -> DumperOutput {
    DumperOutput {
        client: None,
        engine: engine.map(symbols),
        libclient: None,
        libengine: libengine.map(symbols),
    }
}

#[test]
fn pipeline_resolves_the_whole_table() {
    let (offsets, world) = resolve(&plan(), &Vec::new());
    let offsets = offsets.expect("every mandatory step succeeds");
    assert_eq!(offsets.library.client, world.client);
    assert_eq!(offsets.library.engine, world.engine);
    assert_eq!(offsets.library.tier0, world.tier0);
    assert_eq!(offsets.library.input, world.input);
    assert_eq!(offsets.library.sdl, world.sdl);
    assert_eq!(offsets.library.schema, world.schema);
    assert_eq!(offsets.interface.resource, world.resource);
    assert_eq!(offsets.interface.entity, world.entity_list + 0x10);
    assert_ne!(offsets.interface.cvar, 0);
    assert_ne!(offsets.interface.input, 0);
    assert_ne!(offsets.interface.cvar, offsets.interface.input);
    assert_eq!(offsets.direct.local_player, LOCAL_PLAYER_TARGET);
    assert_eq!(offsets.direct.network_client, NETWORK_TARGET + 0x20);
    assert_eq!(offsets.network_client.delta_tick, 0x158);
    assert_eq!(offsets.controller.pawn, 0x6B4);
    assert_eq!(offsets.pawn.weapon, 0x1620);
    assert_eq!(offsets.pawn.weapon_services, 0x13F0);
    assert_eq!(offsets.weapon_services.weapons, 0x48);
    assert_eq!(offsets.weapon.attribute_manager, 0x1378);
    assert_eq!(offsets.weapon.item, 0x50);
    assert_eq!(offsets.weapon.item_definition_index, 0x1BA);
    assert_eq!(offsets.entity_identity.size, 0x78);
    assert_eq!(offsets.skin.item_id_high, 0x1D0);
    assert_eq!(offsets.skin.item_id_low, 0x1D4);
    assert_eq!(offsets.skin.account_id, 0x1D8);
    assert_eq!(offsets.skin.entity_quality, 0x1BC);
    assert_eq!(offsets.skin.initialized, 0x1E8);
    assert_eq!(offsets.skin.attribute_list, 0x210);
    assert_eq!(offsets.skin.networked_dynamic_attrs, 0x288);
    assert_eq!(offsets.skin.fallback_paint_kit, 0x1850);
    assert_eq!(offsets.skin.fallback_seed, 0x1854);
    assert_eq!(offsets.skin.fallback_wear, 0x1858);
    assert_eq!(offsets.skin.fallback_stattrak, 0x185C);
    assert_eq!(offsets.skin.custom_name, 0x2F8);
    assert_eq!(offsets.skin.original_owner_xuid_low, 0x1848);
    assert_eq!(offsets.skin.original_owner_xuid_high, 0x184C);
}

#[test]
fn pipeline_writes_nothing() {
    let built = world(&plan());
    let cs2 = attachment(built.process);
    assert!(cs2.find_offsets(&Vec::new()).is_some());
    assert!(cs2.process.writes.is_empty());
}

#[test]
fn fourth_pattern_is_used_where_the_first_three_fail() {
    let mut fourth = plan();
    fourth.network = vec![(0x60, NETWORK_4.to_vec())];
    let (offsets, _) = resolve(&fourth, &Vec::new());
    assert_eq!(offsets.expect("resolved").direct.network_client, NETWORK_TARGET + 0x60);
}

#[test]
fn each_pattern_is_used_where_it_is_the_only_one() {
    for signature in [NETWORK_1.to_vec(), NETWORK_2.to_vec(), NETWORK_3.to_vec(), NETWORK_4.to_vec()] {
        let mut only = plan();
        only.network = vec![(0x48, signature)];
        let (offsets, _) = resolve(&only, &Vec::new());
        assert_eq!(offsets.expect("resolved").direct.network_client, NETWORK_TARGET + 0x48);
    }
}

#[test]
fn earlier_pattern_wins_over_a_later_one_at_a_lower_address() {
    let mut both = plan();
    both.network = vec![(0x10, NETWORK_4.to_vec()), (0x80, NETWORK_3.to_vec())];
    let (offsets, _) = resolve(&both, &Vec::new());
    assert_eq!(offsets.expect("resolved").direct.network_client, NETWORK_TARGET + 0x80);
    let mut second = plan();
    second.network =
        vec![(0x10, NETWORK_3.to_vec()), (0x40, NETWORK_4.to_vec()), (0xA0, NETWORK_2.to_vec())];
    let (offsets, _) = resolve(&second, &Vec::new());
    assert_eq!(offsets.expect("resolved").direct.network_client, NETWORK_TARGET + 0xA0);
}

#[test]
fn lowest_occurrence_of_a_pattern_is_used() {
    let mut twice = plan();
    twice.network = vec![(0x90, NETWORK_2.to_vec()), (0x30, NETWORK_2.to_vec())];
    let (offsets, _) = resolve(&twice, &Vec::new());
    assert_eq!(offsets.expect("resolved").direct.network_client, NETWORK_TARGET + 0x30);
}

#[test]
fn scan_reports_where_the_instruction_lies() {
    let mut fourth = plan();
    fourth.network = vec![(0x60, NETWORK_4.to_vec())];
    let built = world(&fourth);
    assert_eq!(scan_network_client(&built.process, built.engine), Some(built.engine + 0x60));
    assert_eq!(scan_network_client(&built.process, built.client), None);
    assert_eq!(scan_network_client(&built.process, 0x10), None);
}

#[test]
fn secondary_source_is_used_where_the_primary_fails() {
    let mut none = plan();
    none.network = Vec::new();
    let sources = vec![
        None,
        Some(source(Some(&[("dwNetworkGameClient", 0x905310)]), None)),
        Some(source(Some(&[("dwNetworkGameClient", 0x111111)]), None)),
    ];
    let (offsets, world) = resolve(&none, &sources);
    let offsets = offsets.expect("the field is optional");
    assert_eq!(offsets.direct.network_client, world.engine + 0x905310);
    assert_eq!(offsets.network_client.delta_tick, DELTA_TICK_DEFAULT);
}

#[test]
fn primary_source_is_used_where_it_succeeds() {
    let mut none = plan();
    none.network = Vec::new();
    let sources = vec![
        Some(source(
            Some(&[("dwNetworkGameClient", 0x1000), ("dwNetworkGameClient_deltaTick", 0x240)]),
            None,
        )),
        Some(source(Some(&[("dwNetworkGameClient", 0x2000)]), None)),
    ];
    let (offsets, world) = resolve(&none, &sources);
    let offsets = offsets.expect("the field is optional");
    assert_eq!(offsets.direct.network_client, world.engine + 0x1000);
    assert_eq!(offsets.network_client.delta_tick, 0x240);
}

#[test]
fn built_in_constant_is_used_where_every_source_fails() {
    let mut none = plan();
    none.network = Vec::new();
    for sources in [Vec::new(), vec![None], vec![None, None, None, None]] {
        let (offsets, world) = resolve(&none, &sources);
        let offsets = offsets.expect("the field is optional");
        assert_eq!(offsets.direct.network_client, world.engine + 0x8EB538);
        assert_eq!(offsets.direct.network_client, world.engine + NETWORK_CLIENT_FALLBACK);
        assert_eq!(offsets.network_client.delta_tick, 0x158);
        assert_eq!(offsets.direct.local_player, LOCAL_PLAYER_TARGET);
        assert_eq!(offsets.skin.item_id_high, 0x1D0);
    }
}

#[test]
fn sources_are_not_consulted_where_a_pattern_is_found() {
    let sources = vec![Some(source(
        Some(&[("dwNetworkGameClient", 0x1000), ("dwNetworkGameClient_deltaTick", 0x240)]),
        None,
    ))];
    let (offsets, _) = resolve(&plan(), &sources);
    let offsets = offsets.expect("resolved");
    assert_eq!(offsets.direct.network_client, NETWORK_TARGET + 0x20);
    assert_eq!(offsets.network_client.delta_tick, 0x158);
}

#[test]
fn decoded_source_without_the_symbol_gives_the_built_in_constant() {
    let mut none = plan();
    none.network = Vec::new();
    let sources = vec![
        Some(source(Some(&[("dwLocalPlayerPawn", 0x1000)]), Some(&[("dwViewMatrix", 0x2000)]))),
        Some(source(Some(&[("dwNetworkGameClient", 0x3000)]), None)),
    ];
    let (offsets, world) = resolve(&none, &sources);
    let offsets = offsets.expect("the field is optional");
    assert_eq!(offsets.direct.network_client, world.engine + 0x8EB538);
    assert_eq!(offsets.network_client.delta_tick, 0x158);
    let empty = vec![Some(source(None, None))];
    let (offsets, world) = resolve(&none, &empty);
    assert_eq!(offsets.expect("the field is optional").direct.network_client, world.engine + 0x8EB538);
}

#[test]
fn delta_tick_of_a_source_without_the_pointer_is_kept() {
    let mut none = plan();
    none.network = Vec::new();
    let sources = vec![Some(source(Some(&[("dwNetworkGameClient_deltaTick", 0x24C)]), None))];
    let (offsets, world) = resolve(&none, &sources);
    let offsets = offsets.expect("the field is optional");
    assert_eq!(offsets.direct.network_client, world.engine + 0x8EB538);
    assert_eq!(offsets.network_client.delta_tick, 0x24C);
}

#[test]
fn pipeline_fails_where_the_entity_list_has_a_negative_entry_size() {
    assert!(resolve(&plan(), &Vec::new()).0.is_some());
    let mut negative = plan();
    negative.identity_size = -0x78;
    assert!(resolve(&negative, &Vec::new()).0.is_none());
    negative.identity_size = i32::MIN;
    assert!(resolve(&negative, &Vec::new()).0.is_none());
    negative.identity_size = 0;
    assert_eq!(resolve(&negative, &Vec::new()).0.expect("resolved").entity_identity.size, 0);
}

#[test]
fn required_field_with_a_negative_stored_offset_fails_the_pipeline() {
    let mut negative = plan();
    negative.negative_field = Some("m_hPawn");
    assert!(resolve(&negative, &Vec::new()).0.is_none());
}

#[test]
fn optional_field_with_a_negative_stored_offset_is_zero() {
    let mut negative = plan();
    negative.negative_field = Some("m_nFallbackSeed");
    let offsets = resolve(&negative, &Vec::new()).0.expect("the field is optional");
    assert_eq!(offsets.skin.fallback_seed, 0);
    assert_eq!(offsets.skin.fallback_paint_kit, 0x1850);
}

#[test]
fn pipeline_fails_where_a_module_is_missing() {
    for name in [
        "libclient.so",
        "libengine2.so",
        "libtier0.so",
        "libinputsystem.so",
        "libSDL3.so.0",
        "libschemasystem.so",
    ] {
        let mut missing = plan();
        missing.skip_module = Some(name);
        assert!(resolve(&missing, &Vec::new()).0.is_none());
        let built = world(&missing);
        assert!(find_libraries(&built.process).is_none());
    }
}

#[test]
fn pipeline_fails_where_an_interface_is_missing() {
    for name in ["GameResourceServiceClientV001", "VEngineCvar007", "InputSystemVersion001"] {
        let mut missing = plan();
        missing.skip_interface = Some(name);
        assert!(resolve(&missing, &Vec::new()).0.is_none());
    }
}

#[test]
fn pipeline_fails_where_the_local_player_is_not_found() {
    let mut missing = plan();
    missing.local_player = false;
    let sources = vec![Some(source(Some(&[("dwLocalPlayerController", 0x1000)]), None))];
    assert!(resolve(&missing, &sources).0.is_none());
    assert!(resolve(&missing, &Vec::new()).0.is_none());
}

#[test]
fn pipeline_fails_where_the_registry_is_not_found() {
    let mut missing = plan();
    missing.schema_signature = false;
    assert!(resolve(&missing, &Vec::new()).0.is_none());
}

#[test]
fn pipeline_fails_where_the_registry_lacks_the_scope() {
    let mut missing = plan();
    missing.scope_name = "libserver.so";
    assert!(resolve(&missing, &Vec::new()).0.is_none());
}

#[test]
fn pipeline_fails_where_a_required_field_is_missing() {
    for field in [
        "m_hPawn",
        "m_pClippingWeapon",
        "m_pWeaponServices",
        "m_hMyWeapons",
        "m_AttributeManager",
        "m_Item",
        "m_iItemDefinitionIndex",
    ] {
        let mut missing = plan();
        missing.skip_field = Some(field);
        assert!(resolve(&missing, &Vec::new()).0.is_none(), "{}", field);
    }
}

#[test]
fn pipeline_fails_where_a_required_class_is_missing() {
    for class in [
        "CBasePlayerController",
        "C_CSPlayerPawn",
        "C_BasePlayerPawn",
        "CPlayer_WeaponServices",
        "C_EconEntity",
        "C_AttributeContainer",
        "C_EconItemView",
        "CEntityIdentity",
    ] {
        let mut missing = plan();
        missing.skip_class = Some(class);
        assert!(resolve(&missing, &Vec::new()).0.is_none(), "{}", class);
    }
}

#[test]
fn optional_field_that_is_missing_is_zero() {
    let fields = [
        "m_iItemIDHigh",
        "m_iItemIDLow",
        "m_iAccountID",
        "m_iEntityQuality",
        "m_bInitialized",
        "m_AttributeList",
        "m_NetworkedDynamicAttributes",
        "m_nFallbackPaintKit",
        "m_nFallbackSeed",
        "m_flFallbackWear",
        "m_nFallbackStatTrak",
        "m_szCustomName",
        "m_OriginalOwnerXuidLow",
        "m_OriginalOwnerXuidHigh",
    ];
    for (index, field) in fields.iter().enumerate() {
        let mut missing = plan();
        missing.skip_field = Some(field);
        let offsets = resolve(&missing, &Vec::new()).0.expect("the field is optional");
        let skin = offsets.skin;
        let values = [
            skin.item_id_high,
            skin.item_id_low,
            skin.account_id,
            skin.entity_quality,
            skin.initialized,
            skin.attribute_list,
            skin.networked_dynamic_attrs,
            skin.fallback_paint_kit,
            skin.fallback_seed,
            skin.fallback_wear,
            skin.fallback_stattrak,
            skin.custom_name,
            skin.original_owner_xuid_low,
            skin.original_owner_xuid_high,
        ];
        for (other, value) in values.iter().enumerate() {
            assert_eq!(*value == 0, other == index, "{}", field);
        }
        assert_eq!(offsets.weapon.item, 0x50);
    }
}

#[test]
fn steps_of_the_pipeline_agree_with_the_whole() {
    let built = world(&plan());
    let library = find_libraries(&built.process).expect("every module is loaded");
    assert_eq!(library.engine, built.engine);
    let interface = find_interfaces(&built.process, &library).expect("every interface is there");
    assert_eq!(interface.resource, built.resource);
    assert_eq!(interface.entity, built.entity_list + 0x10);
    let schema = Schema::new(&built.process, library.schema).expect("the registry is found");
    let scope: &ModuleScope = schema.get_library("libclient.so").expect("the scope is there");
    let (controller, pawn, services, weapon, identity) =
        required_fields(scope).expect("every field is there");
    assert_eq!(controller.pawn, 0x6B4);
    assert_eq!(pawn.weapon, 0x1620);
    assert_eq!(pawn.weapon_services, 0x13F0);
    assert_eq!(services.weapons, 0x48);
    assert_eq!(weapon.attribute_manager, 0x1378);
    assert_eq!(identity.size, 0x78);
    assert_eq!(optional_field(scope, "C_EconItemView", "m_iItemIDHigh"), 0x1D0);
    assert_eq!(optional_field(scope, "C_EconItemView", "m_iItemIDHigher"), 0);
    assert_eq!(optional_field(scope, "C_EconItemViews", "m_iItemIDHigh"), 0);
    assert_eq!(skin_offsets(scope).fallback_paint_kit, 0x1850);
}

#[test]
fn interfaces_of_another_module_do_not_count() {
    let built = world(&plan());
    let library = LibraryOffsets {
        client: built.client,
        engine: built.tier0,
        tier0: built.tier0,
        input: built.input,
        sdl: built.sdl,
        schema: built.schema,
    };
    assert!(find_interfaces(&built.process, &library).is_none());
}

#[test]
fn entity_list_of_an_unreadable_interface_is_sixteen() {
    let mut process = Process::new(1);
    process.add_interface(0x10, "GameResourceServiceClientV001", 0x5000);
    process.add_interface(0x20, "VEngineCvar007", 0x6000);
    process.add_interface(0x30, "InputSystemVersion001", 0x7000);
    let library =
        LibraryOffsets { client: 0, engine: 0x10, tier0: 0x20, input: 0x30, sdl: 0, schema: 0 };
    let interface = find_interfaces(&process, &library).expect("every interface is there");
    assert_eq!(interface.entity, 0x10);
    assert_eq!(interface.cvar, 0x6000);
    assert_eq!(interface.input, 0x7000);
}

#[test]
fn network_client_resolution_keeps_the_rest_of_the_table() {
    let mut none = plan();
    none.network = Vec::new();
    let built = world(&none);
    let mut offsets = Offsets::default();
    offsets.library.engine = built.engine;
    offsets.direct.local_player = 0x1234;
    offsets.network_client.delta_tick = 0x99;
    resolve_network_client(&built.process, &mut offsets, &Vec::new());
    assert_eq!(offsets.direct.network_client, built.engine + 0x8EB538);
    assert_eq!(offsets.direct.local_player, 0x1234);
    assert_eq!(offsets.network_client.delta_tick, 0x99);
    assert_eq!(offsets.library.engine, built.engine);
}

#[test]
fn built_in_constant_wraps_at_the_end_of_the_address_space() {
    let process = Process::new(1);
    let mut offsets = Offsets::default();
    offsets.library.engine = u64::MAX;
    resolve_network_client(&process, &mut offsets, &Vec::new());
    assert_eq!(offsets.direct.network_client, 0x8EB537);
}

#[test]
fn chain_names_its_sources() {
    assert_eq!(LOCAL_CACHE, "offsets.json");
    assert_eq!(SOURCE_COUNT, 4);
    assert_eq!(mirror(0), None);
    assert_eq!(
        mirror(1),
        Some("https://raw.githubusercontent.com/sezzyaep/CS2-OFFSETS/main/offsets.json")
    );
    assert_eq!(
        mirror(2),
        Some("https://raw.githubusercontent.com/hxuanyu/cs2-dumper/main/output/linux/offsets.json")
    );
    assert_eq!(
        mirror(3),
        Some("https://raw.githubusercontent.com/a2x/cs2-dumper/main/output/linux/offsets.json")
    );
    assert_eq!(mirror(4), None);
    assert_eq!(mirror(usize::MAX), None);
}

#[test]
fn chain_is_tried_until_a_source_is_decoded() {
    let mut attempts: Vec<Option<DumperOutput>> = Vec::new();
    assert_eq!(next_source(&attempts), Some(0));
    attempts.push(None);
    assert_eq!(next_source(&attempts), Some(1));
    attempts.push(None);
    assert_eq!(next_source(&attempts), Some(2));
    attempts.push(Some(source(None, None)));
    assert_eq!(next_source(&attempts), None);
    assert_eq!(first_decoded_source(&attempts), Some(2));
}

#[test]
fn chain_ends_when_every_source_has_failed() {
    let attempts: Vec<Option<DumperOutput>> = vec![None, None, None];
    assert_eq!(next_source(&attempts), Some(3));
    let all: Vec<Option<DumperOutput>> = vec![None, None, None, None];
    assert_eq!(next_source(&all), None);
    assert_eq!(first_decoded_source(&all), None);
    let first = vec![Some(source(None, None))];
    assert_eq!(next_source(&first), None);
    assert_eq!(first_decoded_source(&first), Some(0));
}

#[test]
fn values_of_a_source_are_taken_over() {
    let mut offsets = Offsets::default();
    offsets.library.engine = 0x7F00_0000_0000;
    offsets.direct.local_player = 5;
    let sources = vec![Some(source(
        Some(&[("dwNetworkGameClient", 0x905310), ("dwNetworkGameClient_deltaTick", 0x24C)]),
        Some(&[("dwNetworkGameClient", 0x111), ("dwNetworkGameClient_deltaTick", 0x222)]),
    ))];
    assert!(update_offsets_from_dumper(&mut offsets, &sources));
    assert_eq!(offsets.direct.network_client, 0x7F00_0090_5310);
    assert_eq!(offsets.network_client.delta_tick, 0x24C);
    assert_eq!(offsets.direct.local_player, 5);
    assert_eq!(offsets.library.engine, 0x7F00_0000_0000);
}

#[test]
fn alternate_key_is_used_where_the_primary_key_is_missing() {
    let mut offsets = Offsets::default();
    offsets.library.engine = 0x1000;
    let sources = vec![Some(source(None, Some(&[("dwNetworkGameClient", 0x111)])))];
    assert!(update_offsets_from_dumper(&mut offsets, &sources));
    assert_eq!(offsets.direct.network_client, 0x1111);
    assert_eq!(offsets.network_client.delta_tick, 0);
}

#[test]
fn each_symbol_is_looked_up_under_the_primary_key_and_then_the_alternate_key() {
    let mut offsets = Offsets::default();
    offsets.library.engine = 0x1000;
    offsets.direct.network_client = 0x77;
    let sources = vec![Some(source(
        Some(&[("dwNetworkGameClient_deltaTick", 0x24C)]),
        Some(&[("dwNetworkGameClient", 0x111), ("dwNetworkGameClient_deltaTick", 0x999)]),
    ))];
    assert!(update_offsets_from_dumper(&mut offsets, &sources));
    assert_eq!(offsets.direct.network_client, 0x1111);
    assert_eq!(offsets.network_client.delta_tick, 0x24C);
    let output = sources[0].as_ref().expect("decoded");
    assert_eq!(lookup_engine_symbol(output, "dwNetworkGameClient"), Some(0x111));
    assert_eq!(lookup_engine_symbol(output, "dwNetworkGameClient_deltaTick"), Some(0x24C));
    assert_eq!(lookup_engine_symbol(output, "dwNetworkGameClient_clientTickCount"), None);
    assert_eq!(lookup_engine_symbol(&source(None, None), "dwNetworkGameClient"), None);
}

#[test]
fn source_without_the_symbol_reports_no_value() {
    let mut offsets = Offsets::default();
    offsets.library.engine = 0x1000;
    offsets.direct.network_client = 0x77;
    let sources = vec![Some(source(
        Some(&[("dwNetworkGameClient_clientTickCount", 0x368)]),
        Some(&[("dwNetworkGameClient_deltaTick", 0x24C)]),
    ))];
    assert!(!update_offsets_from_dumper(&mut offsets, &sources));
    assert_eq!(offsets.direct.network_client, 0x77);
    assert_eq!(offsets.network_client.delta_tick, 0x24C);
}

#[test]
fn source_without_engine_symbols_changes_nothing() {
    let mut offsets = Offsets::default();
    offsets.direct.network_client = 0x77;
    offsets.network_client.delta_tick = 0x88;
    let mut output = source(None, None);
    output.client = Some(symbols(&[("dwNetworkGameClient", 1)]));
    output.libclient = Some(symbols(&[("dwNetworkGameClient", 2)]));
    assert!(!update_offsets_from_dumper(&mut offsets, &vec![None, Some(output)]));
    assert_eq!(offsets.direct.network_client, 0x77);
    assert_eq!(offsets.network_client.delta_tick, 0x88);
}

#[test]
fn failed_chain_changes_nothing() {
    let mut offsets = Offsets::default();
    offsets.direct.network_client = 0x77;
    assert!(!update_offsets_from_dumper(&mut offsets, &Vec::new()));
    assert!(!update_offsets_from_dumper(&mut offsets, &vec![None, None]));
    assert_eq!(offsets.direct.network_client, 0x77);
}

#[test]
fn symbol_value_wraps_at_the_end_of_the_address_space() {
    let mut offsets = Offsets::default();
    offsets.library.engine = u64::MAX - 1;
    let sources = vec![Some(source(Some(&[("dwNetworkGameClient", 3)]), None))];
    assert!(update_offsets_from_dumper(&mut offsets, &sources));
    assert_eq!(offsets.direct.network_client, 1);
}

#[test]
fn default_table_is_zero() {
    let offsets = Offsets::default();
    assert_eq!(offsets.library.client, 0);
    assert_eq!(offsets.library.schema, 0);
    assert_eq!(offsets.interface.entity, 0);
    assert_eq!(offsets.direct.local_player, 0);
    assert_eq!(offsets.direct.network_client, 0);
    assert_eq!(offsets.controller.pawn, 0);
    assert_eq!(offsets.pawn.weapon_services, 0);
    assert_eq!(offsets.weapon_services.weapons, 0);
    assert_eq!(offsets.weapon.item_definition_index, 0);
    assert_eq!(offsets.entity_identity.size, 0);
    assert_eq!(offsets.skin.item_id_high, 0);
    assert_eq!(offsets.skin.original_owner_xuid_high, 0);
    assert_eq!(offsets.network_client.delta_tick, 0);
}

#[test]
fn setup_attaches_where_the_pipeline_succeeds() {
    let built = world(&plan());
    let mut cs2 = CS2::new();
    assert!(!cs2.is_valid());
    cs2.setup(Some(built.process), &Vec::new());
    assert!(cs2.is_valid());
    assert!(cs2.is_valid);
    assert_eq!(cs2.process.pid, 4242);
    assert_eq!(cs2.offsets.direct.local_player, LOCAL_PLAYER_TARGET);
    assert_eq!(cs2.offsets.skin.fallback_paint_kit, 0x1850);
}

#[test]
fn setup_lets_the_process_go_where_the_pipeline_fails() {
    let mut missing = plan();
    missing.local_player = false;
    let built = world(&missing);
    let mut cs2 = CS2::new();
    cs2.setup(Some(built.process), &Vec::new());
    assert!(!cs2.is_valid());
    assert!(!cs2.is_valid);
    assert_eq!(cs2.process.pid, -1);
    assert!(cs2.process.modules.is_empty());
    assert_eq!(cs2.offsets.library.client, 0);
}

#[test]
fn no_table_outlives_a_failed_attachment() {
    let built = world(&plan());
    let mut cs2 = CS2::new();
    cs2.setup(Some(built.process), &Vec::new());
    assert!(cs2.is_valid());
    let mut missing = plan();
    missing.skip_module = Some("libengine2.so");
    cs2.setup(Some(world(&missing).process), &Vec::new());
    assert!(!cs2.is_valid());
    assert_eq!(cs2.offsets.direct.local_player, 0);
    assert_eq!(cs2.offsets.skin.item_id_high, 0);
    assert_eq!(cs2.process.pid, -1);
}

#[test]
fn setup_without_a_process_invalidates_the_attachment() {
    let built = world(&plan());
    let mut cs2 = CS2::new();
    cs2.setup(Some(built.process), &Vec::new());
    assert!(cs2.is_valid());
    cs2.setup(None, &Vec::new());
    assert!(!cs2.is_valid());
    assert_eq!(cs2.process.pid, 4242);
    assert_eq!(cs2.offsets.direct.local_player, LOCAL_PLAYER_TARGET);
}

#[test]
fn attachment_to_a_process_without_an_identifier_is_not_valid() {
    let mut built = world(&plan());
    built.process.pid = 0;
    let mut cs2 = CS2::new();
    cs2.setup(Some(built.process), &Vec::new());
    assert!(cs2.is_valid);
    assert!(!cs2.is_valid());
}

#[test]
fn new_attachment_is_not_valid() {
    let cs2 = CS2::new();
    assert!(!cs2.is_valid);
    assert!(!cs2.is_valid());
    assert_eq!(cs2.process.pid, -1);
    assert_eq!(cs2.offsets.library.client, 0);
    assert!(cs2.process.writes.is_empty());
}
