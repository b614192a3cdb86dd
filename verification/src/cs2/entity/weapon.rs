//! The categories of equipment, and how an item of the target is classified.

use vstd::prelude::*;
use vstd::string::*;
use crate::cs2::offsets::Offsets;
use crate::cs2::CS2;
use crate::memory::spec_read_u16;

verus! {

/// A category of equipment. Every instance in the target's memory belongs to
/// one of them; `Unknown` stands for an instance that cannot be classified.
#[derive(Debug, Clone, Copy, PartialEq, Eq, Hash, Structural)]
pub enum Weapon {
    Unknown,
    Knife,
    // Pistols
    Cz75A,
    Deagle,
    DualBerettas,
    FiveSeven,
    Glock,
    P2000,
    P250,
    Revolver,
    Tec9,
    Usp,
    // Submachine guns
    Bizon,
    Mac10,
    Mp5Sd,
    Mp7,
    Mp9,
    P90,
    Ump45,
    // Machine guns
    M249,
    Negev,
    // Shotguns
    Mag7,
    Nova,
    Sawedoff,
    Xm1014,
    // Rifles
    Ak47,
    Aug,
    Famas,
    Galilar,
    M4A4,
    M4A1,
    Sg556,
    // Sniper rifles
    Awp,
    G3SG1,
    Scar20,
    Ssg08,
    // Utility
    Taser,
    // Grenades
    Flashbang,
    HeGrenade,
    Smoke,
    Molotov,
    Decoy,
    Incendiary,
    // The bomb
    C4,
}

/// Handles above this bound are taken for no instance at all.
pub const HANDLE_LIMIT: u64 = u64::MAX - 50000;

impl Weapon {
    /// The category that an item definition index stands for. Several
    /// indices stand for a knife; an index that no category claims stands
    /// for `Unknown`.
    pub open spec fn spec_from_index(index: u16) -> Weapon {
        if index == 1 {
            Weapon::Deagle
        } else if index == 2 {
            Weapon::DualBerettas
        } else if index == 3 {
            Weapon::FiveSeven
        } else if index == 4 {
            Weapon::Glock
        } else if index == 7 {
            Weapon::Ak47
        } else if index == 8 {
            Weapon::Aug
        } else if index == 9 {
            Weapon::Awp
        } else if index == 10 {
            Weapon::Famas
        } else if index == 11 {
            Weapon::G3SG1
        } else if index == 13 {
            Weapon::Galilar
        } else if index == 14 {
            Weapon::M249
        } else if index == 16 {
            Weapon::M4A4
        } else if index == 17 {
            Weapon::Mac10
        } else if index == 19 {
            Weapon::P90
        } else if index == 23 {
            Weapon::Mp5Sd
        } else if index == 24 {
            Weapon::Ump45
        } else if index == 25 {
            Weapon::Xm1014
        } else if index == 26 {
            Weapon::Bizon
        } else if index == 27 {
            Weapon::Mag7
        } else if index == 28 {
            Weapon::Negev
        } else if index == 29 {
            Weapon::Sawedoff
        } else if index == 30 {
            Weapon::Tec9
        } else if index == 31 {
            Weapon::Taser
        } else if index == 32 {
            Weapon::P2000
        } else if index == 33 {
            Weapon::Mp7
        } else if index == 34 {
            Weapon::Mp9
        } else if index == 35 {
            Weapon::Nova
        } else if index == 36 {
            Weapon::P250
        } else if index == 38 {
            Weapon::Scar20
        } else if index == 39 {
            Weapon::Sg556
        } else if index == 40 {
            Weapon::Ssg08
        } else if index == 41 {
            Weapon::Knife
        } else if index == 42 {
            Weapon::Knife
        } else if index == 43 {
            Weapon::Flashbang
        } else if index == 44 {
            Weapon::HeGrenade
        } else if index == 45 {
            Weapon::Smoke
        } else if index == 46 {
            Weapon::Molotov
        } else if index == 47 {
            Weapon::Decoy
        } else if index == 48 {
            Weapon::Incendiary
        } else if index == 49 {
            Weapon::C4
        } else if index == 59 {
            Weapon::Knife
        } else if index == 60 {
            Weapon::M4A1
        } else if index == 61 {
            Weapon::Usp
        } else if index == 63 {
            Weapon::Cz75A
        } else if index == 64 {
            Weapon::Revolver
        } else if index == 80 {
            Weapon::Knife
        } else if index == 500 {
            Weapon::Knife
        } else if index == 505 {
            Weapon::Knife
        } else if index == 506 {
            Weapon::Knife
        } else if index == 507 {
            Weapon::Knife
        } else if index == 508 {
            Weapon::Knife
        } else if index == 509 {
            Weapon::Knife
        } else if index == 512 {
            Weapon::Knife
        } else if index == 514 {
            Weapon::Knife
        } else if index == 515 {
            Weapon::Knife
        } else if index == 516 {
            Weapon::Knife
        } else if index == 519 {
            Weapon::Knife
        } else if index == 520 {
            Weapon::Knife
        } else if index == 522 {
            Weapon::Knife
        } else if index == 523 {
            Weapon::Knife
        } else {
            Weapon::Unknown
        }
    }

    /// The category of the instance at `handle`, read from the item
    /// definition index that the instance holds. A handle beyond
    /// `HANDLE_LIMIT` is `Unknown`, and so is an instance whose index cannot
    /// be read.
    pub open spec fn spec_from_handle(mem: Map<int, u8>, offsets: Offsets, handle: u64) -> Weapon {
        if handle > HANDLE_LIMIT {
            Weapon::Unknown
        } else {
            Weapon::spec_from_index(
                spec_read_u16(
                    mem,
                    handle + offsets.weapon.attribute_manager + offsets.weapon.item
                        + offsets.weapon.item_definition_index,
                ),
            )
        }
    }

    /// The name under which a category is shown.
    pub open spec fn spec_display_name(self) -> Seq<char> {
        match self {
            Weapon::Unknown => "Unknown"@,
            Weapon::Knife => "Knife"@,
            Weapon::Cz75A => "CZ75-Auto"@,
            Weapon::Deagle => "Desert Eagle"@,
            Weapon::DualBerettas => "Dual Berettas"@,
            Weapon::FiveSeven => "Five-SeveN"@,
            Weapon::Glock => "Glock-18"@,
            Weapon::P2000 => "P2000"@,
            Weapon::P250 => "P250"@,
            Weapon::Revolver => "R8 Revolver"@,
            Weapon::Tec9 => "Tec-9"@,
            Weapon::Usp => "USP-S"@,
            Weapon::Bizon => "PP-Bizon"@,
            Weapon::Mac10 => "MAC-10"@,
            Weapon::Mp5Sd => "MP5-SD"@,
            Weapon::Mp7 => "MP7"@,
            Weapon::Mp9 => "MP9"@,
            Weapon::P90 => "P90"@,
            Weapon::Ump45 => "UMP-45"@,
            Weapon::M249 => "M249"@,
            Weapon::Negev => "Negev"@,
            Weapon::Mag7 => "MAG-7"@,
            Weapon::Nova => "Nova"@,
            Weapon::Sawedoff => "Sawed-Off"@,
            Weapon::Xm1014 => "XM1014"@,
            Weapon::Ak47 => "AK-47"@,
            Weapon::Aug => "AUG"@,
            Weapon::Famas => "FAMAS"@,
            Weapon::Galilar => "Galil AR"@,
            Weapon::M4A4 => "M4A4"@,
            Weapon::M4A1 => "M4A1-S"@,
            Weapon::Sg556 => "SG 553"@,
            Weapon::Awp => "AWP"@,
            Weapon::G3SG1 => "G3SG1"@,
            Weapon::Scar20 => "SCAR-20"@,
            Weapon::Ssg08 => "SSG 08"@,
            Weapon::Taser => "Zeus x27"@,
            Weapon::Flashbang => "Flashbang"@,
            Weapon::HeGrenade => "HE Grenade"@,
            Weapon::Smoke => "Smoke Grenade"@,
            Weapon::Molotov => "Molotov Cocktail"@,
            Weapon::Decoy => "Decoy Grenade"@,
            Weapon::Incendiary => "Incendiary Grenade"@,
            Weapon::C4 => "C4 Explosive"@,
        }
    }

    /// Every category, in the order of declaration.
    pub open spec fn spec_all() -> Seq<Weapon> {
        seq![
            Weapon::Unknown,
            Weapon::Knife,
            Weapon::Cz75A,
            Weapon::Deagle,
            Weapon::DualBerettas,
            Weapon::FiveSeven,
            Weapon::Glock,
            Weapon::P2000,
            Weapon::P250,
            Weapon::Revolver,
            Weapon::Tec9,
            Weapon::Usp,
            Weapon::Bizon,
            Weapon::Mac10,
            Weapon::Mp5Sd,
            Weapon::Mp7,
            Weapon::Mp9,
            Weapon::P90,
            Weapon::Ump45,
            Weapon::M249,
            Weapon::Negev,
            Weapon::Mag7,
            Weapon::Nova,
            Weapon::Sawedoff,
            Weapon::Xm1014,
            Weapon::Ak47,
            Weapon::Aug,
            Weapon::Famas,
            Weapon::Galilar,
            Weapon::M4A4,
            Weapon::M4A1,
            Weapon::Sg556,
            Weapon::Awp,
            Weapon::G3SG1,
            Weapon::Scar20,
            Weapon::Ssg08,
            Weapon::Taser,
            Weapon::Flashbang,
            Weapon::HeGrenade,
            Weapon::Smoke,
            Weapon::Molotov,
            Weapon::Decoy,
            Weapon::Incendiary,
            Weapon::C4,
        ]
    }

    /// Classifies the instance at `handle`.
    pub fn from_handle(handle: u64, cs2: &CS2) -> (r: Self)
        ensures
            r == Weapon::spec_from_handle(cs2.process.memory@, cs2.offsets, handle),
    {
        if handle > HANDLE_LIMIT {
            return Weapon::Unknown;
        }
        let weapon_index: u16 = cs2.process.memory.read_u16_at(
            handle as u128 + cs2.offsets.weapon.attribute_manager as u128
                + cs2.offsets.weapon.item as u128 + cs2.offsets.weapon.item_definition_index as u128,
        );
        Weapon::from_index(weapon_index)
    }

    /// The category that an item definition index stands for.
    pub fn from_index(index: u16) -> (r: Self)
        ensures
            r == Weapon::spec_from_index(index),
    {
        match index {
            1 => Weapon::Deagle,
            2 => Weapon::DualBerettas,
            3 => Weapon::FiveSeven,
            4 => Weapon::Glock,
            7 => Weapon::Ak47,
            8 => Weapon::Aug,
            9 => Weapon::Awp,
            10 => Weapon::Famas,
            11 => Weapon::G3SG1,
            13 => Weapon::Galilar,
            14 => Weapon::M249,
            16 => Weapon::M4A4,
            17 => Weapon::Mac10,
            19 => Weapon::P90,
            23 => Weapon::Mp5Sd,
            24 => Weapon::Ump45,
            25 => Weapon::Xm1014,
            26 => Weapon::Bizon,
            27 => Weapon::Mag7,
            28 => Weapon::Negev,
            29 => Weapon::Sawedoff,
            30 => Weapon::Tec9,
            31 => Weapon::Taser,
            32 => Weapon::P2000,
            33 => Weapon::Mp7,
            34 => Weapon::Mp9,
            35 => Weapon::Nova,
            36 => Weapon::P250,
            38 => Weapon::Scar20,
            39 => Weapon::Sg556,
            40 => Weapon::Ssg08,
            41 => Weapon::Knife,
            42 => Weapon::Knife,
            43 => Weapon::Flashbang,
            44 => Weapon::HeGrenade,
            45 => Weapon::Smoke,
            46 => Weapon::Molotov,
            47 => Weapon::Decoy,
            48 => Weapon::Incendiary,
            49 => Weapon::C4,
            59 => Weapon::Knife,
            60 => Weapon::M4A1,
            61 => Weapon::Usp,
            63 => Weapon::Cz75A,
            64 => Weapon::Revolver,
            80 => Weapon::Knife,
            500 => Weapon::Knife,
            505 => Weapon::Knife,
            506 => Weapon::Knife,
            507 => Weapon::Knife,
            508 => Weapon::Knife,
            509 => Weapon::Knife,
            512 => Weapon::Knife,
            514 => Weapon::Knife,
            515 => Weapon::Knife,
            516 => Weapon::Knife,
            519 => Weapon::Knife,
            520 => Weapon::Knife,
            522 => Weapon::Knife,
            523 => Weapon::Knife,
            _ => Weapon::Unknown,
        }
    }

    /// The name under which the category is shown.
    pub fn to_string(&self) -> (r: String)
        ensures
            r@ == self.spec_display_name(),
    {
        let name: &'static str = match self {
            Weapon::Unknown => "Unknown",
            Weapon::Knife => "Knife",
            Weapon::Cz75A => "CZ75-Auto",
            Weapon::Deagle => "Desert Eagle",
            Weapon::DualBerettas => "Dual Berettas",
            Weapon::FiveSeven => "Five-SeveN",
            Weapon::Glock => "Glock-18",
            Weapon::P2000 => "P2000",
            Weapon::P250 => "P250",
            Weapon::Revolver => "R8 Revolver",
            Weapon::Tec9 => "Tec-9",
            Weapon::Usp => "USP-S",
            Weapon::Bizon => "PP-Bizon",
            Weapon::Mac10 => "MAC-10",
            Weapon::Mp5Sd => "MP5-SD",
            Weapon::Mp7 => "MP7",
            Weapon::Mp9 => "MP9",
            Weapon::P90 => "P90",
            Weapon::Ump45 => "UMP-45",
            Weapon::M249 => "M249",
            Weapon::Negev => "Negev",
            Weapon::Mag7 => "MAG-7",
            Weapon::Nova => "Nova",
            Weapon::Sawedoff => "Sawed-Off",
            Weapon::Xm1014 => "XM1014",
            Weapon::Ak47 => "AK-47",
            Weapon::Aug => "AUG",
            Weapon::Famas => "FAMAS",
            Weapon::Galilar => "Galil AR",
            Weapon::M4A4 => "M4A4",
            Weapon::M4A1 => "M4A1-S",
            Weapon::Sg556 => "SG 553",
            Weapon::Awp => "AWP",
            Weapon::G3SG1 => "G3SG1",
            Weapon::Scar20 => "SCAR-20",
            Weapon::Ssg08 => "SSG 08",
            Weapon::Taser => "Zeus x27",
            Weapon::Flashbang => "Flashbang",
            Weapon::HeGrenade => "HE Grenade",
            Weapon::Smoke => "Smoke Grenade",
            Weapon::Molotov => "Molotov Cocktail",
            Weapon::Decoy => "Decoy Grenade",
            Weapon::Incendiary => "Incendiary Grenade",
            Weapon::C4 => "C4 Explosive",
        };
        name.to_owned()
    }

    /// Every category, in the order of declaration.
    pub fn all() -> (r: Vec<Weapon>)
        ensures
            r@ == Weapon::spec_all(),
    {
        let r = vec![
            Weapon::Unknown,
            Weapon::Knife,
            Weapon::Cz75A,
            Weapon::Deagle,
            Weapon::DualBerettas,
            Weapon::FiveSeven,
            Weapon::Glock,
            Weapon::P2000,
            Weapon::P250,
            Weapon::Revolver,
            Weapon::Tec9,
            Weapon::Usp,
            Weapon::Bizon,
            Weapon::Mac10,
            Weapon::Mp5Sd,
            Weapon::Mp7,
            Weapon::Mp9,
            Weapon::P90,
            Weapon::Ump45,
            Weapon::M249,
            Weapon::Negev,
            Weapon::Mag7,
            Weapon::Nova,
            Weapon::Sawedoff,
            Weapon::Xm1014,
            Weapon::Ak47,
            Weapon::Aug,
            Weapon::Famas,
            Weapon::Galilar,
            Weapon::M4A4,
            Weapon::M4A1,
            Weapon::Sg556,
            Weapon::Awp,
            Weapon::G3SG1,
            Weapon::Scar20,
            Weapon::Ssg08,
            Weapon::Taser,
            Weapon::Flashbang,
            Weapon::HeGrenade,
            Weapon::Smoke,
            Weapon::Molotov,
            Weapon::Decoy,
            Weapon::Incendiary,
            Weapon::C4,
        ];
        assert(r@ =~= Weapon::spec_all());
        r
    }

    /// No category is missing from the list of all categories.
    pub proof fn lemma_all_complete(weapon: Weapon)
        ensures
            Weapon::spec_all().contains(weapon),
    {
        let all = Weapon::spec_all();
        match weapon {
            Weapon::Unknown => {
                assert(all[0] == weapon);
            },
            Weapon::Knife => {
                assert(all[1] == weapon);
            },
            Weapon::Cz75A => {
                assert(all[2] == weapon);
            },
            Weapon::Deagle => {
                assert(all[3] == weapon);
            },
            Weapon::DualBerettas => {
                assert(all[4] == weapon);
            },
            Weapon::FiveSeven => {
                assert(all[5] == weapon);
            },
            Weapon::Glock => {
                assert(all[6] == weapon);
            },
            Weapon::P2000 => {
                assert(all[7] == weapon);
            },
            Weapon::P250 => {
                assert(all[8] == weapon);
            },
            Weapon::Revolver => {
                assert(all[9] == weapon);
            },
            Weapon::Tec9 => {
                assert(all[10] == weapon);
            },
            Weapon::Usp => {
                assert(all[11] == weapon);
            },
            Weapon::Bizon => {
                assert(all[12] == weapon);
            },
            Weapon::Mac10 => {
                assert(all[13] == weapon);
            },
            Weapon::Mp5Sd => {
                assert(all[14] == weapon);
            },
            Weapon::Mp7 => {
                assert(all[15] == weapon);
            },
            Weapon::Mp9 => {
                assert(all[16] == weapon);
            },
            Weapon::P90 => {
                assert(all[17] == weapon);
            },
            Weapon::Ump45 => {
                assert(all[18] == weapon);
            },
            Weapon::M249 => {
                assert(all[19] == weapon);
            },
            Weapon::Negev => {
                assert(all[20] == weapon);
            },
            Weapon::Mag7 => {
                assert(all[21] == weapon);
            },
            Weapon::Nova => {
                assert(all[22] == weapon);
            },
            Weapon::Sawedoff => {
                assert(all[23] == weapon);
            },
            Weapon::Xm1014 => {
                assert(all[24] == weapon);
            },
            Weapon::Ak47 => {
                assert(all[25] == weapon);
            },
            Weapon::Aug => {
                assert(all[26] == weapon);
            },
            Weapon::Famas => {
                assert(all[27] == weapon);
            },
            Weapon::Galilar => {
                assert(all[28] == weapon);
            },
            Weapon::M4A4 => {
                assert(all[29] == weapon);
            },
            Weapon::M4A1 => {
                assert(all[30] == weapon);
            },
            Weapon::Sg556 => {
                assert(all[31] == weapon);
            },
            Weapon::Awp => {
                assert(all[32] == weapon);
            },
            Weapon::G3SG1 => {
                assert(all[33] == weapon);
            },
            Weapon::Scar20 => {
                assert(all[34] == weapon);
            },
            Weapon::Ssg08 => {
                assert(all[35] == weapon);
            },
            Weapon::Taser => {
                assert(all[36] == weapon);
            },
            Weapon::Flashbang => {
                assert(all[37] == weapon);
            },
            Weapon::HeGrenade => {
                assert(all[38] == weapon);
            },
            Weapon::Smoke => {
                assert(all[39] == weapon);
            },
            Weapon::Molotov => {
                assert(all[40] == weapon);
            },
            Weapon::Decoy => {
                assert(all[41] == weapon);
            },
            Weapon::Incendiary => {
                assert(all[42] == weapon);
            },
            Weapon::C4 => {
                assert(all[43] == weapon);
            },
        }
    }
}

impl Default for Weapon {
    /// The category of what cannot be classified.
    fn default() -> (r: Self)
        ensures
            r == Weapon::Unknown,
    {
        Weapon::Unknown
    }
}

} // verus!
