//! The desired state: for each category of equipment, the values that the
//! target's memory is to hold.
//!
//! The continuous wear value is kept as the bit pattern of a 32-bit float:
//! the patch loop compares and copies it, and never computes with it.

use vstd::prelude::*;
use crate::cs2::entity::weapon::Weapon;

verus! {

/// The name of the file in which the desired state is kept.
pub const DEFAULT_CONFIG_NAME: &'static str = "cs2-skin-changer.toml";

/// The desired values of one category.
#[derive(Debug, Clone, Copy, PartialEq, Eq, Structural)]
pub struct WeaponSkinConfig {
    /// Whether the category is patched at all.
    pub enabled: bool,
    /// The primary identifier; a value that is not positive says that
    /// nothing is wanted.
    pub paint_kit: i32,
    /// The secondary identifier.
    pub seed: i32,
    /// The bit pattern of the wear value.
    pub wear: u32,
    /// The counter shown on the item; a negative value switches it off.
    pub stattrak: i32,
}

impl WeaponSkinConfig {
    /// The desired values of a category that nobody configured.
    pub open spec fn spec_default() -> WeaponSkinConfig {
        WeaponSkinConfig { enabled: false, paint_kit: 0, seed: 0, wear: 0, stattrak: -1i32 }
    }

    /// Whether these values ask for a patch.
    pub open spec fn spec_is_configured(self) -> bool {
        self.enabled && self.paint_kit > 0
    }

    /// Whether these values ask for a patch.
    pub fn is_configured(&self) -> (r: bool)
        ensures
            r == self.spec_is_configured(),
    {
        self.enabled && self.paint_kit > 0
    }
}

impl Default for WeaponSkinConfig {
    /// Disabled, with no identifier, no wear and the counter switched off.
    fn default() -> (r: Self)
        ensures
            r == WeaponSkinConfig::spec_default(),
    {
        WeaponSkinConfig { enabled: false, paint_kit: 0, seed: 0, wear: 0, stattrak: -1 }
    }
}

/// The desired values put under one category.
#[derive(Debug, Clone, Copy)]
pub struct SkinEntry {
    pub weapon: Weapon,
    pub skin: WeaponSkinConfig,
}

/// The map from categories to desired values that a list of entries stands
/// for. A later entry replaces an earlier one of the same category.
pub open spec fn skins_map(entries: Seq<SkinEntry>) -> Map<Weapon, WeaponSkinConfig>
    decreases entries.len(),
{
    if entries.len() == 0 {
        Map::empty()
    } else {
        skins_map(entries.drop_last()).insert(entries.last().weapon, entries.last().skin)
    }
}

/// The number of categories among the first `upto` of `all` for which the
/// map asks for a patch.
pub open spec fn count_configured(
    skins: Map<Weapon, WeaponSkinConfig>,
    all: Seq<Weapon>,
    upto: nat,
) -> nat
    decreases upto,
{
    if upto == 0 || upto > all.len() {
        0
    } else {
        let weapon = all[upto - 1];
        let before = count_configured(skins, all, (upto - 1) as nat);
        if skins.dom().contains(weapon) && skins[weapon].spec_is_configured() {
            before + 1
        } else {
            before
        }
    }
}

/// The desired state as a whole.
#[derive(Debug)]
pub struct SkinChangerConfig {
    /// Whether anything is patched at all.
    pub enabled: bool,
    /// The entries in the order in which they were put.
    pub skins: Vec<SkinEntry>,
}

impl SkinChangerConfig {
    /// The desired values by category.
    pub open spec fn skins_view(&self) -> Map<Weapon, WeaponSkinConfig> {
        skins_map(self.skins@)
    }

    /// A desired state that is disabled and holds no category.
    pub fn new() -> (r: Self)
        ensures
            !r.enabled,
            r.skins_view() == Map::<Weapon, WeaponSkinConfig>::empty(),
    {
        SkinChangerConfig { enabled: false, skins: Vec::new() }
    }

    /// Puts the desired values of a category, in place of what was there.
    pub fn insert(&mut self, weapon: Weapon, skin: WeaponSkinConfig)
        ensures
            final(self).enabled == old(self).enabled,
            final(self).skins_view() == old(self).skins_view().insert(weapon, skin),
    {
        let ghost before = self.skins@;
        self.skins.push(SkinEntry { weapon, skin });
        assert(self.skins@.drop_last() =~= before);
    }

    /// The desired values of a category, if it has any.
    pub fn get(&self, weapon: Weapon) -> (r: Option<WeaponSkinConfig>)
        ensures
            r == if self.skins_view().dom().contains(weapon) {
                Some(self.skins_view()[weapon])
            } else {
                None
            },
    {
        let mut i: usize = self.skins.len();
        assert(self.skins@.take(i as int) =~= self.skins@);
        while i > 0
            invariant
                i <= self.skins@.len(),
                self.skins_view().dom().contains(weapon) == skins_map(
                    self.skins@.take(i as int),
                ).dom().contains(weapon),
                self.skins_view().dom().contains(weapon) ==> self.skins_view()[weapon]
                    == skins_map(self.skins@.take(i as int))[weapon],
            decreases i,
        {
            let ghost upto = self.skins@.take(i as int);
            assert(upto.drop_last() =~= self.skins@.take(i - 1));
            assert(upto.last() == self.skins@[i - 1]);
            if self.skins[i - 1].weapon == weapon {
                return Some(self.skins[i - 1].skin);
            }
            i -= 1;
        }
        None
    }

    /// The number of categories for which a patch is asked.
    pub fn configured_skins(&self) -> (r: usize)
        ensures
            r == count_configured(
                self.skins_view(),
                Weapon::spec_all(),
                Weapon::spec_all().len(),
            ),
    {
        let all = Weapon::all();
        let mut count: usize = 0;
        let mut i: usize = 0;
        while i < all.len()
            invariant
                i <= all@.len(),
                all@ == Weapon::spec_all(),
                all@.len() == 44,
                count <= i,
                count == count_configured(self.skins_view(), all@, i as nat),
            decreases all@.len() - i,
        {
            match self.get(all[i]) {
                Some(skin) => {
                    if skin.is_configured() {
                        count += 1;
                    }
                },
                None => {},
            }
            i += 1;
        }
        count
    }

    /// Switches the desired state on where no category asks for a patch,
    /// and says whether it did: a state that asks for nothing is taken for
    /// one that was never edited.
    pub fn enable_if_unconfigured(&mut self) -> (r: bool)
        ensures
            r == (count_configured(
                old(self).skins_view(),
                Weapon::spec_all(),
                Weapon::spec_all().len(),
            ) == 0),
            final(self).skins == old(self).skins,
            final(self).enabled == (r || old(self).enabled),
    {
        if self.configured_skins() == 0 {
            self.enabled = true;
            true
        } else {
            false
        }
    }
}

/// Whether `weapon` is among the first `upto` categories of `all`.
pub open spec fn listed(all: Seq<Weapon>, upto: int, weapon: Weapon) -> bool {
    exists|j: int| 0 <= j < upto && j < all.len() && all[j] == weapon
}

impl Default for SkinChangerConfig {
    /// Disabled, with every category but `Unknown` present and at its
    /// default.
    fn default() -> (r: Self)
        ensures
            !r.enabled,
            forall|weapon: Weapon| #[trigger]
                r.skins_view().dom().contains(weapon) <==> weapon != Weapon::Unknown,
            forall|weapon: Weapon|
                weapon != Weapon::Unknown ==> #[trigger] r.skins_view()[weapon]
                    == WeaponSkinConfig::spec_default(),
    {
        let all = Weapon::all();
        let mut config = SkinChangerConfig::new();
        let mut i: usize = 0;
        while i < all.len()
            invariant
                i <= all@.len(),
                all@ == Weapon::spec_all(),
                !config.enabled,
                forall|weapon: Weapon| #[trigger]
                    config.skins_view().dom().contains(weapon) <==> weapon != Weapon::Unknown
                        && listed(all@, i as int, weapon),
                forall|weapon: Weapon| #[trigger]
                    config.skins_view().dom().contains(weapon) ==> config.skins_view()[weapon]
                        == WeaponSkinConfig::spec_default(),
            decreases all@.len() - i,
        {
            let weapon = all[i];
            let ghost before = config.skins_view();
            if weapon != Weapon::Unknown {
                config.insert(weapon, WeaponSkinConfig::default());
            }
            proof {
                assert forall|other: Weapon| #[trigger]
                    config.skins_view().dom().contains(other) <==> other != Weapon::Unknown
                        && listed(all@, i + 1, other) by {
                    if listed(all@, i + 1, other) {
                        let j = choose|j: int| 0 <= j < i + 1 && j < all@.len() && all@[j] == other;
                        if j < i {
                            assert(listed(all@, i as int, other));
                        }
                    }
                    if listed(all@, i as int, other) {
                        let j = choose|j: int| 0 <= j < i && j < all@.len() && all@[j] == other;
                        assert(0 <= j < i + 1 && all@[j] == other);
                    }
                    if other == weapon {
                        assert(0 <= i < i + 1 && all@[i as int] == other);
                    }
                }
            }
            i += 1;
        }
        proof {
            assert forall|weapon: Weapon| #[trigger]
                config.skins_view().dom().contains(weapon) <==> weapon != Weapon::Unknown by {
                if weapon != Weapon::Unknown {
                    Weapon::lemma_all_complete(weapon);
                    let j = choose|j: int| 0 <= j < all@.len() && all@[j] == weapon;
                    assert(listed(all@, i as int, weapon));
                }
            }
            assert forall|weapon: Weapon| weapon != Weapon::Unknown implies #[trigger]
                config.skins_view()[weapon] == WeaponSkinConfig::spec_default() by {
                assert(config.skins_view().dom().contains(weapon));
            }
        }
        config
    }
}

} // verus!
