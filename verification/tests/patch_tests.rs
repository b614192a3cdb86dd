use cs2_skin_changer::config::{SkinChangerConfig, WeaponSkinConfig};
use cs2_skin_changer::cs2::entity::player::Player;
use cs2_skin_changer::cs2::entity::weapon::Weapon;
use cs2_skin_changer::cs2::offsets::Offsets;
use cs2_skin_changer::cs2::skin_changer::{MAX_WEAPONS, NO_INVENTORY};
use cs2_skin_changer::cs2::CS2;
use cs2_skin_changer::process::{MemWrite, Process, WriteValue};

const BASE: u64 = 0x200000;
const SIZE: usize = 0x60000;

const LOCAL_PLAYER: u64 = BASE + 0x100;
const ENTITY_LIST: u64 = BASE + 0x200;
const CONTROLLER: u64 = BASE + 0x1000;
const PAWN: u64 = BASE + 0x2000;
const SERVICES: u64 = BASE + 0x4000;
const HANDLES: u64 = BASE + 0x4800;
const BUCKET_0: u64 = BASE + 0x8000;
const BUCKET_1: u64 = BASE + 0x18000;
const NETWORK_CLIENT_POINTER: u64 = BASE + 0x300;
const NETWORK_CLIENT: u64 = BASE + 0x5000;
const INSTANCES: u64 = BASE + 0x30000;
const INSTANCE_SIZE: u64 = 0x800;

const PAWN_INDEX: u64 = 3;
const AK: u16 = 7;
const AWP: u16 = 9;
const KNIFE: u16 = 507;

fn offsets() -> Offsets {
    let mut offsets = Offsets::default();
    offsets.direct.local_player = LOCAL_PLAYER;
    offsets.direct.network_client = NETWORK_CLIENT_POINTER;
    offsets.network_client.delta_tick = 0x158;
    offsets.interface.entity = ENTITY_LIST;
    offsets.entity_identity.size = 0x78;
    offsets.controller.pawn = 0x6B4;
    offsets.pawn.weapon = 0x620;
    offsets.pawn.weapon_services = 0x3F0;
    offsets.weapon_services.weapons = 0x48;
    offsets.weapon.attribute_manager = 0x100;
    offsets.weapon.item = 0x50;
    offsets.weapon.item_definition_index = 0x1BA;
    offsets.skin.entity_quality = 0x1BC;
    offsets.skin.item_id_high = 0x1D0;
    offsets.skin.item_id_low = 0x1D4;
    offsets.skin.account_id = 0x1D8;
    offsets.skin.initialized = 0x1E8;
    offsets.skin.original_owner_xuid_low = 0x5F0;
    offsets.skin.original_owner_xuid_high = 0x5F4;
    offsets.skin.fallback_paint_kit = 0x600;
    offsets.skin.fallback_seed = 0x604;
    offsets.skin.fallback_wear = 0x608;
    offsets.skin.fallback_stattrak = 0x60C;
    offsets
}

struct Image {
    bytes: Vec<u8>,
}

impl Image {
    fn new() -> Image {
        let mut image = Image { bytes: vec![0; SIZE] };
        image.put_u64(LOCAL_PLAYER, CONTROLLER);
        image.put_i32(CONTROLLER + 0x6B4, PAWN_INDEX as i32);
        image.put_u64(ENTITY_LIST, BUCKET_0);
        image.put_u64(ENTITY_LIST + 8, BUCKET_1);
        image.put_u64(BUCKET_0 + 0x78 * PAWN_INDEX, PAWN);
        image.put_u64(PAWN + 0x3F0, SERVICES);
        image.put_u64(SERVICES + 0x48 + 8, HANDLES);
        image.put_u64(NETWORK_CLIENT_POINTER, NETWORK_CLIENT);
        image
    }

    fn put(&mut self, addr: u64, data: &[u8]) {
        let at = (addr - BASE) as usize;
        self.bytes[at..at + data.len()].copy_from_slice(data);
    }

    fn put_u64(&mut self, addr: u64, value: u64) {
        self.put(addr, &value.to_le_bytes());
    }

    fn put_i32(&mut self, addr: u64, value: i32) {
        self.put(addr, &value.to_le_bytes());
    }

    fn put_u16(&mut self, addr: u64, value: u16) {
        self.put(addr, &value.to_le_bytes());
    }

    /// Puts an instance of the given item definition into slot `number` of the
    /// instance area and enters it into the entity list at `index`.
    fn instance(&mut self, number: u64, index: u64, definition: u16) -> u64 {
        let at = INSTANCES + number * INSTANCE_SIZE;
        self.put_u16(at + 0x100 + 0x50 + 0x1BA, definition);
        let bucket = if index < 512 { BUCKET_0 } else { BUCKET_1 };
        self.put_u64(bucket + 0x78 * (index % 512), at);
        at
    }

    fn active(&mut self, instance: u64) {
        self.put_u64(PAWN + 0x620, instance);
    }

    fn inventory(&mut self, handles: &[i32]) {
        self.put_i32(SERVICES + 0x48, handles.len() as i32);
        for (i, handle) in handles.iter().enumerate() {
            self.put_i32(HANDLES + 4 * i as u64, *handle);
        }
    }

    fn attach(self) -> CS2 {
        let mut process = Process::new(77);
        process.memory.map_region(BASE, self.bytes);
        process.set_address_range(BASE, BASE + SIZE as u64);
        let mut cs2 = CS2::new();
        cs2.process = process;
        cs2.offsets = offsets();
        cs2.is_valid = true;
        cs2
    }
}

fn skin(paint_kit: i32) -> WeaponSkinConfig {
    WeaponSkinConfig { enabled: true, paint_kit, seed: 0, wear: 0.0f32.to_bits(), stattrak: -1 }
}

fn config(entries: &[(Weapon, WeaponSkinConfig)]) -> SkinChangerConfig {
    let mut config = SkinChangerConfig::new();
    config.enabled = true;
    for (weapon, skin) in entries {
        config.insert(*weapon, *skin);
    }
    config
}

fn link(cs2: &CS2, instance: u64) -> i32 {
    cs2.process.memory.read_i32(instance + 0x150 + 0x1D0)
}

fn link_low(cs2: &CS2, instance: u64) -> i32 {
    cs2.process.memory.read_i32(instance + 0x150 + 0x1D4)
}

fn paint_kit(cs2: &CS2, instance: u64) -> i32 {
    cs2.process.memory.read_i32(instance + 0x600)
}

fn set_i32(cs2: &mut CS2, addr: u64, value: i32) {
    assert!(cs2.process.memory.write_i32(addr, value));
}

fn word(address: u64, value: u32) -> MemWrite {
    MemWrite { address, value: WriteValue::Word(value) }
}

fn checked(address: u64, value: u32) -> MemWrite {
    MemWrite { address, value: WriteValue::Checked(value) }
}

fn byte(address: u64, value: u8) -> MemWrite {
    MemWrite { address, value: WriteValue::Byte(value) }
}

fn writes_to(cs2: &CS2, address: u64) -> usize {
    cs2.process.writes.iter().filter(|write| write.address == address).count()
}

#[test]
fn tick_brings_an_instance_to_the_desired_state_and_then_rests() {
    let mut image = Image::new();
    let rifle = image.instance(0, 20, AK);
    image.put_i32(rifle + 0x150 + 0x1D0, 0);
    image.put_i32(rifle + 0x600, 3);
    image.active(rifle);
    let mut cs2 = image.attach();
    let wanted = config(&[(
        Weapon::Ak47,
        WeaponSkinConfig { enabled: true, paint_kit: 7, seed: 0, wear: 0.0f32.to_bits(), stattrak: -1 },
    )]);

    cs2.skin_changer(&wanted);
    assert_eq!(link(&cs2, rifle), -1);
    assert_eq!(link_low(&cs2, rifle), -1);
    assert_eq!(paint_kit(&cs2, rifle), 7);
    let first = cs2.process.writes.len();
    assert!(first > 0);

    cs2.skin_changer(&wanted);
    assert_eq!(cs2.process.writes.len(), first);
    assert_eq!(link(&cs2, rifle), -1);
    assert_eq!(paint_kit(&cs2, rifle), 7);
}

#[test]
fn write_follows_the_order_of_the_protocol() {
    let mut image = Image::new();
    let rifle = image.instance(0, 20, AK);
    image.put_i32(rifle + 0x600, 3);
    image.active(rifle);
    let mut cs2 = image.attach();
    let wanted = config(&[(
        Weapon::Ak47,
        WeaponSkinConfig {
            enabled: true,
            paint_kit: 44,
            seed: 661,
            wear: 0.25f32.to_bits(),
            stattrak: 1337,
        },
    )]);
    cs2.skin_changer(&wanted);
    let view = rifle + 0x150;
    assert_eq!(
        cs2.process.writes,
        vec![
            word(view + 0x1D4, 0xFFFFFFFF),
            word(view + 0x1D0, 0xFFFFFFFF),
            word(rifle + 0x600, 44),
            word(rifle + 0x604, 661),
            word(rifle + 0x608, 0x3E800000),
            word(rifle + 0x60C, 1337),
            word(view + 0x1D8, 1),
            word(view + 0x1BC, 9),
            word(rifle + 0x5F0, 1),
            word(rifle + 0x5F4, 0),
            checked(view + 0x1D0, 0xFFFFFFFF),
            byte(view + 0x1E8, 0),
            byte(view + 0x1E8, 1),
        ]
    );
    assert_eq!(cs2.process.memory.read_i32(rifle + 0x604), 661);
    assert_eq!(f32::from_bits(cs2.process.memory.read_u32(rifle + 0x608)), 0.25);
    assert_eq!(cs2.process.memory.read_i32(rifle + 0x60C), 1337);
    assert_eq!(cs2.process.memory.read_u32(view + 0x1D8), 1);
    assert_eq!(cs2.process.memory.read_i32(view + 0x1BC), 9);
    assert_eq!(cs2.process.memory.read_u32(rifle + 0x5F0), 1);
    assert_eq!(cs2.process.memory.read_u32(rifle + 0x5F4), 0);
    assert_eq!(cs2.process.memory.read_u8(view + 0x1E8), 1);
}

#[test]
fn item_without_a_counter_gets_the_plain_quality() {
    let mut image = Image::new();
    let rifle = image.instance(0, 20, AK);
    image.put_i32(rifle + 0x150 + 0x1BC, 4);
    image.active(rifle);
    let mut cs2 = image.attach();
    cs2.skin_changer(&config(&[(Weapon::Ak47, skin(7))]));
    assert_eq!(cs2.process.memory.read_i32(rifle + 0x150 + 0x1BC), 0);
    assert_eq!(cs2.process.memory.read_i32(rifle + 0x60C), -1);
    let mut zero = Image::new();
    let other = zero.instance(0, 20, AK);
    zero.active(other);
    let mut counted = zero.attach();
    let mut with_counter = skin(7);
    with_counter.stattrak = 0;
    counted.skin_changer(&config(&[(Weapon::Ak47, with_counter)]));
    assert_eq!(counted.process.memory.read_i32(other + 0x150 + 0x1BC), 9);
}

#[test]
fn tick_on_a_target_at_the_desired_state_writes_nothing() {
    let mut image = Image::new();
    let rifle = image.instance(0, 20, AK);
    let sniper = image.instance(1, 21, AWP);
    let knife = image.instance(2, 600, KNIFE);
    for (instance, kit) in [(rifle, 7), (sniper, 344), (knife, 38)] {
        image.put_i32(instance + 0x150 + 0x1D0, -1);
        image.put_i32(instance + 0x600, kit);
    }
    image.active(rifle);
    image.inventory(&[20, 21, 600]);
    let mut cs2 = image.attach();
    let before: Vec<Option<u8>> = (BASE..BASE + SIZE as u64).map(|a| cs2.process.memory.byte(a)).collect();
    let wanted =
        config(&[(Weapon::Ak47, skin(7)), (Weapon::Awp, skin(344)), (Weapon::Knife, skin(38))]);
    cs2.skin_changer(&wanted);
    cs2.run(&wanted);
    assert!(cs2.process.writes.is_empty());
    let after: Vec<Option<u8>> = (BASE..BASE + SIZE as u64).map(|a| cs2.process.memory.byte(a)).collect();
    assert_eq!(before, after);
}

#[test]
fn link_that_the_target_has_reset_is_restored_within_one_tick() {
    let mut image = Image::new();
    let rifle = image.instance(0, 20, AK);
    image.active(rifle);
    let mut cs2 = image.attach();
    let wanted = config(&[(Weapon::Ak47, skin(7))]);
    cs2.skin_changer(&wanted);
    assert_eq!(link(&cs2, rifle), -1);
    cs2.process.take_writes();

    set_i32(&mut cs2, rifle + 0x150 + 0x1D0, 0x1234);
    set_i32(&mut cs2, rifle + 0x604, 99);
    cs2.skin_changer(&wanted);
    assert_eq!(link(&cs2, rifle), -1);
    assert_eq!(paint_kit(&cs2, rifle), 7);
    assert_eq!(cs2.process.memory.read_i32(rifle + 0x604), 0);
    assert_eq!(writes_to(&cs2, rifle + 0x150 + 0x1D0), 2);
    assert_eq!(cs2.process.writes.len(), 13);

    cs2.process.take_writes();
    cs2.skin_changer(&wanted);
    assert!(cs2.process.writes.is_empty());
}

#[test]
fn identifier_that_the_target_has_reset_is_restored_within_one_tick() {
    let mut image = Image::new();
    let rifle = image.instance(0, 20, AK);
    image.put_i32(rifle + 0x150 + 0x1D0, -1);
    image.put_i32(rifle + 0x600, 7);
    image.active(rifle);
    let mut cs2 = image.attach();
    let wanted = config(&[(Weapon::Ak47, skin(7))]);
    cs2.skin_changer(&wanted);
    assert!(cs2.process.writes.is_empty());
    set_i32(&mut cs2, rifle + 0x600, 0);
    cs2.skin_changer(&wanted);
    assert_eq!(paint_kit(&cs2, rifle), 7);
    assert_eq!(link(&cs2, rifle), -1);
    assert_eq!(cs2.process.writes.len(), 13);
}

#[test]
fn link_that_cannot_be_written_is_retried_once_and_no_more() {
    let mut image = Image::new();
    let rifle = image.instance(0, 20, AK);
    image.active(rifle);
    let mut cs2 = image.attach();
    cs2.offsets.skin.item_id_high = 0x1000_0000;
    cs2.offsets.skin.item_id_low = 0;
    let wanted = config(&[(Weapon::Ak47, skin(7))]);
    assert!(cs2.apply_skin_to_weapon(rifle, &wanted));
    let sentinel = rifle + 0x150 + 0x1000_0000;
    assert_eq!(writes_to(&cs2, sentinel), 3);
    assert_eq!(cs2.process.writes.len(), 13);
    assert_eq!(cs2.process.writes[0], word(sentinel, 0xFFFFFFFF));
    assert_eq!(cs2.process.writes[9], checked(sentinel, 0xFFFFFFFF));
    assert_eq!(cs2.process.writes[10], word(sentinel, 0xFFFFFFFF));
    assert_eq!(paint_kit(&cs2, rifle), 7);
    assert!(cs2.apply_skin_to_weapon(rifle, &wanted));
    assert_eq!(cs2.process.writes.len(), 26);
}

#[test]
fn fields_without_an_offset_are_left_alone() {
    let mut image = Image::new();
    let rifle = image.instance(0, 20, AK);
    image.active(rifle);
    let mut cs2 = image.attach();
    cs2.offsets.skin.item_id_low = 0;
    cs2.offsets.skin.fallback_seed = 0;
    cs2.offsets.skin.fallback_wear = 0;
    cs2.offsets.skin.fallback_stattrak = 0;
    cs2.offsets.skin.account_id = 0;
    cs2.offsets.skin.entity_quality = 0;
    cs2.offsets.skin.original_owner_xuid_low = 0;
    cs2.offsets.skin.original_owner_xuid_high = 0;
    cs2.offsets.skin.initialized = 0;
    let mut wanted = skin(7);
    wanted.seed = 5;
    wanted.stattrak = 10;
    cs2.skin_changer(&config(&[(Weapon::Ak47, wanted)]));
    let view = rifle + 0x150;
    assert_eq!(
        cs2.process.writes,
        vec![
            word(view + 0x1D0, 0xFFFFFFFF),
            word(rifle + 0x600, 7),
            checked(view + 0x1D0, 0xFFFFFFFF),
        ]
    );
}

#[test]
fn each_optional_field_is_written_where_its_offset_is_known() {
    let mut image = Image::new();
    let rifle = image.instance(0, 20, AK);
    image.active(rifle);
    let mut cs2 = image.attach();
    cs2.offsets.skin.fallback_seed = 0;
    cs2.offsets.skin.account_id = 0;
    cs2.offsets.skin.original_owner_xuid_high = 0;
    cs2.skin_changer(&config(&[(Weapon::Ak47, skin(7))]));
    assert_eq!(cs2.process.writes.len(), 10);
    assert_eq!(writes_to(&cs2, rifle + 0x604), 0);
    assert_eq!(writes_to(&cs2, rifle + 0x150 + 0x1D8), 0);
    assert_eq!(writes_to(&cs2, rifle + 0x5F4), 0);
    assert_eq!(writes_to(&cs2, rifle + 0x608), 1);
    assert_eq!(writes_to(&cs2, rifle + 0x5F0), 1);
}

#[test]
fn every_item_of_the_inventory_is_visited() {
    let mut image = Image::new();
    let rifle = image.instance(0, 20, AK);
    let sniper = image.instance(1, 21, AWP);
    let knife = image.instance(2, 600, KNIFE);
    image.active(rifle);
    image.inventory(&[600, 20, 21]);
    let mut cs2 = image.attach();
    let wanted =
        config(&[(Weapon::Ak47, skin(7)), (Weapon::Awp, skin(344)), (Weapon::Knife, skin(38))]);
    cs2.skin_changer(&wanted);
    assert_eq!(paint_kit(&cs2, rifle), 7);
    assert_eq!(paint_kit(&cs2, sniper), 344);
    assert_eq!(paint_kit(&cs2, knife), 38);
    for instance in [rifle, sniper, knife] {
        assert_eq!(link(&cs2, instance), -1);
        assert_eq!(writes_to(&cs2, instance + 0x600), 1);
    }
    assert_eq!(cs2.process.writes.len(), 39);
    cs2.skin_changer(&wanted);
    assert_eq!(cs2.process.writes.len(), 39);
}

#[test]
fn active_item_is_not_visited_twice() {
    let mut image = Image::new();
    let rifle = image.instance(0, 20, AK);
    image.active(rifle);
    image.inventory(&[20, 20]);
    let mut cs2 = image.attach();
    cs2.offsets.skin.item_id_high = 0x1000_0000;
    cs2.skin_changer(&config(&[(Weapon::Ak47, skin(7))]));
    assert_eq!(writes_to(&cs2, rifle + 0x600), 1);
}

#[test]
fn handle_refers_to_a_slot_by_its_low_twelve_bits() {
    let mut image = Image::new();
    let sniper = image.instance(1, 21, AWP);
    let knife = image.instance(2, 600, KNIFE);
    image.inventory(&[0x7ABC_D000 | 21, -4096 + 600]);
    let mut cs2 = image.attach();
    cs2.skin_changer(&config(&[(Weapon::Awp, skin(344)), (Weapon::Knife, skin(38))]));
    assert_eq!(paint_kit(&cs2, sniper), 344);
    assert_eq!(paint_kit(&cs2, knife), 38);
}

#[test]
fn inventory_with_an_implausible_count_is_taken_for_empty() {
    for count in [0, -1, i32::MIN, MAX_WEAPONS + 1, i32::MAX] {
        let mut image = Image::new();
        let rifle = image.instance(0, 20, AK);
        let sniper = image.instance(1, 21, AWP);
        image.active(rifle);
        image.inventory(&[21]);
        image.put_i32(SERVICES + 0x48, count);
        let mut cs2 = image.attach();
        cs2.skin_changer(&config(&[(Weapon::Ak47, skin(7)), (Weapon::Awp, skin(344))]));
        assert_eq!(paint_kit(&cs2, rifle), 7, "{}", count);
        assert_eq!(paint_kit(&cs2, sniper), 0, "{}", count);
        assert_eq!(writes_to(&cs2, sniper + 0x600), 0, "{}", count);
        assert_eq!(cs2.process.writes.len(), 13, "{}", count);
    }
}

#[test]
fn inventory_of_the_largest_plausible_count_is_visited() {
    let mut image = Image::new();
    let mut handles = Vec::new();
    let mut instances = Vec::new();
    for i in 0..MAX_WEAPONS as u64 {
        instances.push(image.instance(i, 100 + i, AWP));
        handles.push(100 + i as i32);
    }
    image.inventory(&handles);
    let mut cs2 = image.attach();
    cs2.skin_changer(&config(&[(Weapon::Awp, skin(344))]));
    for instance in instances {
        assert_eq!(paint_kit(&cs2, instance), 344);
        assert_eq!(link(&cs2, instance), NO_INVENTORY);
    }
    assert_eq!(cs2.process.writes.len(), 13 * 64);
}

#[test]
fn inventory_of_one_item_is_visited() {
    let mut image = Image::new();
    let sniper = image.instance(1, 21, AWP);
    let other = image.instance(2, 22, AWP);
    image.inventory(&[21, 22]);
    image.put_i32(SERVICES + 0x48, 1);
    let mut cs2 = image.attach();
    cs2.skin_changer(&config(&[(Weapon::Awp, skin(344))]));
    assert_eq!(paint_kit(&cs2, sniper), 344);
    assert_eq!(paint_kit(&cs2, other), 0);
}

#[test]
fn inventory_without_services_or_data_is_taken_for_empty() {
    let mut image = Image::new();
    let sniper = image.instance(1, 21, AWP);
    image.inventory(&[21]);
    image.put_u64(PAWN + 0x3F0, 0);
    let mut cs2 = image.attach();
    let wanted = config(&[(Weapon::Awp, skin(344))]);
    cs2.skin_changer(&wanted);
    assert!(cs2.process.writes.is_empty());
    assert!(cs2.process.memory.write_u32(PAWN + 0x3F0, SERVICES as u32));
    assert!(cs2.process.memory.write_u32(SERVICES + 0x48 + 8, 0));
    cs2.skin_changer(&wanted);
    assert!(cs2.process.writes.is_empty());
    assert!(cs2.process.memory.write_u32(SERVICES + 0x48 + 8, HANDLES as u32));
    cs2.skin_changer(&wanted);
    assert_eq!(paint_kit(&cs2, sniper), 344);
}

#[test]
fn slot_without_an_instance_is_passed_over() {
    let mut image = Image::new();
    let sniper = image.instance(1, 21, AWP);
    image.inventory(&[400, 1500, 21, 0]);
    let mut cs2 = image.attach();
    cs2.skin_changer(&config(&[(Weapon::Awp, skin(344))]));
    assert_eq!(paint_kit(&cs2, sniper), 344);
    assert_eq!(cs2.process.writes.len(), 13);
}

#[test]
fn instance_of_an_unknown_category_is_left_alone() {
    let mut image = Image::new();
    let thing = image.instance(0, 20, 5);
    image.active(thing);
    let mut cs2 = image.attach();
    let mut wanted = config(&[(Weapon::Ak47, skin(7))]);
    wanted.insert(Weapon::Unknown, skin(9));
    cs2.skin_changer(&wanted);
    assert!(cs2.process.writes.is_empty());
    assert!(!cs2.apply_skin_to_weapon(thing, &wanted));
    assert_eq!(cs2.pending_skin(thing, &wanted), None);
}

#[test]
fn category_that_is_not_configured_is_left_alone() {
    let mut image = Image::new();
    let rifle = image.instance(0, 20, AK);
    image.active(rifle);
    let mut cs2 = image.attach();
    let mut disabled = skin(7);
    disabled.enabled = false;
    for wanted in [
        config(&[]),
        config(&[(Weapon::Awp, skin(344))]),
        config(&[(Weapon::Ak47, disabled)]),
        config(&[(Weapon::Ak47, skin(0))]),
        config(&[(Weapon::Ak47, skin(-3))]),
        config(&[(Weapon::Ak47, skin(7)), (Weapon::Ak47, disabled)]),
        SkinChangerConfig::default(),
    ] {
        cs2.skin_changer(&wanted);
        assert!(cs2.process.writes.is_empty());
        assert!(!cs2.apply_skin_to_weapon(rifle, &wanted));
    }
}

#[test]
fn disabled_state_writes_nothing() {
    let mut image = Image::new();
    let rifle = image.instance(0, 20, AK);
    image.active(rifle);
    let mut cs2 = image.attach();
    let mut wanted = config(&[(Weapon::Ak47, skin(7))]);
    wanted.enabled = false;
    cs2.skin_changer(&wanted);
    cs2.run(&wanted);
    assert!(cs2.process.writes.is_empty());
    assert_eq!(paint_kit(&cs2, rifle), 0);
}

#[test]
fn tick_without_the_offsets_it_needs_writes_nothing() {
    let wanted = config(&[(Weapon::Ak47, skin(7))]);
    let mut image = Image::new();
    let rifle = image.instance(0, 20, AK);
    image.active(rifle);
    let mut cs2 = image.attach();
    cs2.offsets.skin.item_id_high = 0;
    cs2.skin_changer(&wanted);
    assert!(cs2.process.writes.is_empty());
    cs2.offsets = offsets();
    cs2.offsets.skin.fallback_paint_kit = 0;
    cs2.skin_changer(&wanted);
    assert!(cs2.process.writes.is_empty());
    cs2.offsets = offsets();
    cs2.skin_changer(&wanted);
    assert_eq!(cs2.process.writes.len(), 13);
}

#[test]
fn tick_without_a_local_player_writes_nothing() {
    let wanted = config(&[(Weapon::Ak47, skin(7))]);
    let mut no_controller = Image::new();
    let rifle = no_controller.instance(0, 20, AK);
    no_controller.active(rifle);
    no_controller.put_u64(LOCAL_PLAYER, 0);
    let mut cs2 = no_controller.attach();
    assert_eq!(Player::local_player(&cs2), None);
    cs2.skin_changer(&wanted);
    assert!(cs2.process.writes.is_empty());

    let mut no_handle = Image::new();
    let rifle = no_handle.instance(0, 20, AK);
    no_handle.active(rifle);
    no_handle.put_i32(CONTROLLER + 0x6B4, -1);
    let mut cs2 = no_handle.attach();
    assert_eq!(Player::local_player(&cs2), None);
    cs2.skin_changer(&wanted);
    assert!(cs2.process.writes.is_empty());

    let mut no_pawn = Image::new();
    let rifle = no_pawn.instance(0, 20, AK);
    no_pawn.active(rifle);
    no_pawn.put_u64(BUCKET_0 + 0x78 * PAWN_INDEX, 0);
    let mut cs2 = no_pawn.attach();
    assert_eq!(Player::local_player(&cs2), None);
    cs2.skin_changer(&wanted);
    assert!(cs2.process.writes.is_empty());
}

#[test]
fn tick_without_an_active_item_visits_the_inventory() {
    let mut image = Image::new();
    let sniper = image.instance(1, 21, AWP);
    image.inventory(&[21]);
    let mut cs2 = image.attach();
    cs2.skin_changer(&config(&[(Weapon::Awp, skin(344))]));
    assert_eq!(paint_kit(&cs2, sniper), 344);
}

#[test]
fn run_ticks_while_the_process_is_one() {
    let mut image = Image::new();
    let rifle = image.instance(0, 20, AK);
    image.active(rifle);
    let mut cs2 = image.attach();
    let wanted = config(&[(Weapon::Ak47, skin(7))]);
    cs2.run(&wanted);
    assert!(cs2.is_valid());
    assert_eq!(paint_kit(&cs2, rifle), 7);
    assert_eq!(cs2.process.writes.len(), 13);
}

#[test]
fn run_on_a_lost_process_invalidates_the_attachment() {
    let mut image = Image::new();
    let rifle = image.instance(0, 20, AK);
    image.active(rifle);
    let mut cs2 = image.attach();
    cs2.process.pid = -1;
    cs2.run(&config(&[(Weapon::Ak47, skin(7))]));
    assert!(!cs2.is_valid);
    assert!(!cs2.is_valid());
    assert!(cs2.process.writes.is_empty());
    assert_eq!(paint_kit(&cs2, rifle), 0);
}

#[test]
fn pending_values_are_those_of_the_category() {
    let mut image = Image::new();
    let rifle = image.instance(0, 20, AK);
    let sniper = image.instance(1, 21, AWP);
    image.put_i32(sniper + 0x150 + 0x1D0, -1);
    image.put_i32(sniper + 0x600, 344);
    let cs2 = image.attach();
    let wanted = config(&[(Weapon::Ak47, skin(7)), (Weapon::Awp, skin(344))]);
    assert_eq!(cs2.pending_skin(rifle, &wanted), Some(skin(7)));
    assert_eq!(cs2.pending_skin(sniper, &wanted), None);
    assert_eq!(cs2.pending_skin(0, &wanted), None);
    assert_eq!(cs2.pending_skin(u64::MAX, &wanted), None);
    let other = config(&[(Weapon::Awp, skin(345))]);
    assert_eq!(cs2.pending_skin(sniper, &other), Some(skin(345)));
}

#[test]
fn instance_with_the_link_set_but_another_identifier_is_pending() {
    let mut image = Image::new();
    let rifle = image.instance(0, 20, AK);
    image.put_i32(rifle + 0x150 + 0x1D0, -1);
    image.put_i32(rifle + 0x600, 8);
    let mut cs2 = image.attach();
    let wanted = config(&[(Weapon::Ak47, skin(7))]);
    assert!(cs2.apply_skin_to_weapon(rifle, &wanted));
    assert_eq!(paint_kit(&cs2, rifle), 7);
    assert!(!cs2.apply_skin_to_weapon(rifle, &wanted));
}

#[test]
fn apply_to_no_instance_writes_nothing() {
    let mut cs2 = Image::new().attach();
    let wanted = config(&[(Weapon::Ak47, skin(7)), (Weapon::Deagle, skin(1))]);
    assert!(!cs2.apply_skin_to_weapon(0, &wanted));
    assert!(!cs2.apply_skin_to_weapon(u64::MAX - 50000 + 1, &wanted));
    assert!(!cs2.apply_skin_to_weapon(0x9000_0000, &wanted));
    assert!(cs2.process.writes.is_empty());
}

#[test]
fn steps_of_a_write_can_be_taken_alone() {
    let mut image = Image::new();
    let rifle = image.instance(0, 20, AK);
    let mut cs2 = image.attach();
    let view = rifle + 0x150;
    cs2.invalidate_inventory_link(rifle);
    assert_eq!(
        cs2.process.take_writes(),
        vec![word(view + 0x1D4, 0xFFFFFFFF), word(view + 0x1D0, 0xFFFFFFFF)]
    );
    cs2.reassert_inventory_link(rifle);
    assert_eq!(cs2.process.take_writes(), vec![checked(view + 0x1D0, 0xFFFFFFFF)]);
    cs2.reinitialize(rifle);
    assert_eq!(cs2.process.take_writes(), vec![byte(view + 0x1E8, 0), byte(view + 0x1E8, 1)]);
    cs2.write_cosmetics(rifle, &skin(12));
    assert_eq!(cs2.process.writes.len(), 8);
    assert_eq!(cs2.process.writes[0], word(rifle + 0x600, 12));
    assert_eq!(paint_kit(&cs2, rifle), 12);
}

#[test]
fn write_to_an_instance_at_the_end_of_the_address_space_is_not_issued() {
    let mut cs2 = Image::new().attach();
    cs2.invalidate_inventory_link(u64::MAX);
    cs2.write_cosmetics(u64::MAX, &skin(12));
    cs2.reassert_inventory_link(u64::MAX);
    cs2.reinitialize(u64::MAX);
    assert!(cs2.process.writes.is_empty());
}

#[test]
fn full_update_sets_the_delta_tick() {
    let mut cs2 = Image::new().attach();
    assert!(cs2.process.memory.write_i32(NETWORK_CLIENT + 0x158, 500));
    cs2.force_full_update();
    assert_eq!(cs2.process.memory.read_i32(NETWORK_CLIENT + 0x158), -1);
    assert_eq!(cs2.process.writes, vec![word(NETWORK_CLIENT + 0x158, 0xFFFFFFFF)]);
}

#[test]
fn full_update_without_a_client_writes_nothing() {
    let mut image = Image::new();
    image.put_u64(NETWORK_CLIENT_POINTER, 0);
    let mut cs2 = image.attach();
    cs2.force_full_update();
    assert!(cs2.process.writes.is_empty());
    cs2.offsets.direct.network_client = 0x10;
    cs2.force_full_update();
    assert!(cs2.process.writes.is_empty());
}

#[test]
fn local_player_is_found_through_the_entity_list() {
    let cs2 = Image::new().attach();
    assert_eq!(Player::local_player(&cs2), Some(Player { controller: CONTROLLER, pawn: PAWN }));
}

#[test]
fn pawn_handle_refers_to_an_entity_by_its_low_fifteen_bits() {
    let mut image = Image::new();
    image.put_i32(CONTROLLER + 0x6B4, 0x0123_8000 | 513);
    image.put_u64(BUCKET_1 + 0x78, 0xABCD_0000);
    let cs2 = image.attach();
    assert_eq!(
        Player::local_player(&cs2),
        Some(Player { controller: CONTROLLER, pawn: 0xABCD_0000 })
    );
    assert_eq!(Player::get_entity(&cs2, 513), Some(0xABCD_0000));
    assert_eq!(Player::get_entity(&cs2, -32768 + 513), Some(0xABCD_0000));
    assert_eq!(Player::get_entity(&cs2, -2), None);
    assert_eq!(Player::get_entity(&cs2, i32::MIN + 3), Some(PAWN));
    assert_eq!(Player::get_entity(&cs2, i32::MAX), None);
}

#[test]
fn entity_is_found_by_its_index() {
    let mut image = Image::new();
    let rifle = image.instance(0, 20, AK);
    let knife = image.instance(2, 600, KNIFE);
    let last = image.instance(3, 511, AK);
    let first = image.instance(4, 512, AK);
    let cs2 = image.attach();
    assert_eq!(Player::get_client_entity(&cs2, 20), Some(rifle));
    assert_eq!(Player::get_client_entity(&cs2, 600), Some(knife));
    assert_eq!(Player::get_client_entity(&cs2, 511), Some(last));
    assert_eq!(Player::get_client_entity(&cs2, 512), Some(first));
    assert_eq!(Player::get_client_entity(&cs2, PAWN_INDEX), Some(PAWN));
    assert_eq!(Player::get_client_entity(&cs2, 21), None);
    assert_eq!(Player::get_client_entity(&cs2, 1024), None);
    assert_eq!(Player::get_client_entity(&cs2, u64::MAX), None);
}

#[test]
fn entity_list_with_a_negative_entry_size_is_unreadable() {
    let mut cs2 = Image::new().attach();
    cs2.offsets.entity_identity.size = -8;
    assert_eq!(Player::get_client_entity(&cs2, PAWN_INDEX), None);
    cs2.offsets.entity_identity.size = 0;
    assert_eq!(Player::get_client_entity(&cs2, PAWN_INDEX), None);
    assert!(cs2.process.memory.write_u32(BUCKET_0, 0x55));
    assert_eq!(Player::get_client_entity(&cs2, PAWN_INDEX), Some(0x55));
    assert_eq!(Player::get_client_entity(&cs2, 0), Some(0x55));
}

#[test]
fn instance_is_classified_by_its_item_definition() {
    let mut image = Image::new();
    let rifle = image.instance(0, 20, AK);
    let knife = image.instance(2, 600, KNIFE);
    let thing = image.instance(3, 601, 6);
    let cs2 = image.attach();
    assert_eq!(Weapon::from_handle(rifle, &cs2), Weapon::Ak47);
    assert_eq!(Weapon::from_handle(knife, &cs2), Weapon::Knife);
    assert_eq!(Weapon::from_handle(thing, &cs2), Weapon::Unknown);
    assert_eq!(Weapon::from_handle(0, &cs2), Weapon::Unknown);
    assert_eq!(Weapon::from_handle(0x9000_0000, &cs2), Weapon::Unknown);
    assert_eq!(Weapon::from_handle(u64::MAX - 50000, &cs2), Weapon::Unknown);
    assert_eq!(Weapon::from_handle(u64::MAX - 49999, &cs2), Weapon::Unknown);
    assert_eq!(Weapon::from_handle(u64::MAX, &cs2), Weapon::Unknown);
}

#[test]
fn handle_below_the_limit_is_read() {
    let mut process = Process::new(5);
    process.memory.map_region(u64::MAX - 50000, 7u16.to_le_bytes().to_vec());
    let mut cs2 = CS2::new();
    cs2.process = process;
    assert_eq!(Weapon::from_handle(u64::MAX - 50000, &cs2), Weapon::Ak47);
    cs2.offsets.weapon.item = 1;
    assert_eq!(Weapon::from_handle(u64::MAX - 50001, &cs2), Weapon::Ak47);
    assert_eq!(Weapon::from_handle(u64::MAX - 50000, &cs2), Weapon::Unknown);
}

#[test]
fn write_that_the_target_has_undone_is_due_once_more() {
    let write = checked(0x5000, 0xFFFFFFFF);
    assert!(write.wants_read_back());
    assert_eq!(write.retry(Some(0xFFFFFFFF)), None);
    assert_eq!(write.retry(Some(0)), Some(word(0x5000, 0xFFFFFFFF)));
    assert_eq!(write.retry(Some(0xFFFFFFFE)), Some(word(0x5000, 0xFFFFFFFF)));
    assert_eq!(write.retry(None), Some(word(0x5000, 0xFFFFFFFF)));
    let other = checked(0x6000, 7);
    assert_eq!(other.retry(Some(7)), None);
    assert_eq!(other.retry(Some(0xFFFFFFFF)), Some(word(0x6000, 7)));
}

#[test]
fn write_that_is_due_once_more_is_not_repeated_again() {
    let again = checked(0x5000, 0xFFFFFFFF).retry(Some(3)).expect("the target has undone the write");
    assert!(!again.wants_read_back());
    assert_eq!(again.retry(Some(3)), None);
    assert_eq!(again.retry(None), None);
}

#[test]
fn plain_write_asks_for_no_reading_back() {
    assert!(!word(0x5000, 1).wants_read_back());
    assert!(!byte(0x5000, 1).wants_read_back());
    assert_eq!(word(0x5000, 1).retry(Some(2)), None);
    assert_eq!(word(0x5000, 1).retry(None), None);
    assert_eq!(byte(0x5000, 1).retry(Some(2)), None);
}

#[test]
fn one_tick_asks_for_one_reading_back_of_each_instance_it_writes() {
    let mut image = Image::new();
    let rifle = image.instance(0, 20, AK);
    let sniper = image.instance(1, 21, AWP);
    image.active(rifle);
    image.inventory(&[21]);
    let mut cs2 = image.attach();
    cs2.skin_changer(&config(&[(Weapon::Ak47, skin(7)), (Weapon::Awp, skin(344))]));
    let asked: Vec<u64> = cs2
        .process
        .writes
        .iter()
        .filter(|write| write.wants_read_back())
        .map(|write| write.address)
        .collect();
    assert_eq!(asked, vec![rifle + 0x150 + 0x1D0, sniper + 0x150 + 0x1D0]);
}

#[test]
fn journal_entry_is_issued_as_it_stands() {
    let mut cs2 = Image::new().attach();
    assert!(cs2.process.issue_write(&checked(INSTANCES, 0x01020304)));
    assert!(cs2.process.issue_write(&word(INSTANCES + 4, 5)));
    assert!(cs2.process.issue_write(&byte(INSTANCES + 8, 6)));
    assert!(!cs2.process.issue_write(&word(0x10, 5)));
    assert!(cs2.process.write_checked(INSTANCES as u128 + 12, -2));
    assert!(!cs2.process.write_checked(u64::MAX as u128 + 1, -2));
    assert_eq!(cs2.process.memory.read_u32(INSTANCES), 0x01020304);
    assert_eq!(cs2.process.memory.read_u32(INSTANCES + 4), 5);
    assert_eq!(cs2.process.memory.read_u8(INSTANCES + 8), 6);
    assert_eq!(cs2.process.memory.read_i32(INSTANCES + 12), -2);
    assert_eq!(
        cs2.process.writes,
        vec![
            checked(INSTANCES, 0x01020304),
            word(INSTANCES + 4, 5),
            byte(INSTANCES + 8, 6),
            word(0x10, 5),
            checked(INSTANCES + 12, 0xFFFFFFFE),
        ]
    );
}
