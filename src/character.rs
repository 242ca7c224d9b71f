use vstd::prelude::*;

verus! {

/// An account-level player.
#[derive(Clone, Debug)]
pub struct AccountPlayer {
    pub account_level: usize,
    pub name: String,
    pub email: String,
    pub uid: usize,
}

/// Base attributes of a character.
#[derive(Clone, Copy, Debug, PartialEq, Eq, Structural)]
pub struct CharacterBaseAttributes {
    pub hp: usize,
    pub max_super_armor: usize,
    pub attack: usize,
    pub defense: usize,
    pub speed: usize,
}

impl CharacterBaseAttributes {
    /// The default base attributes.
    pub open spec fn initial() -> CharacterBaseAttributes {
        CharacterBaseAttributes { hp: 280, max_super_armor: 100, attack: 60, defense: 45, speed: 50 }
    }
}

impl Default for CharacterBaseAttributes {
    fn default() -> (r: CharacterBaseAttributes)
        ensures
            r == CharacterBaseAttributes::initial(),
    {
        CharacterBaseAttributes { hp: 280, max_super_armor: 100, attack: 60, defense: 45, speed: 50 }
    }
}

/// Further attributes of a character. Rates, chances and amounts are fixed
/// point: `1.0` is `1_000_000`.
#[derive(Clone, Copy, Debug, PartialEq, Eq, Structural)]
pub struct CharacterExtraAttributes {
    pub crit_chance: u64,
    pub crit_damage: u64,
    pub max_energy: usize,
    pub energy_charge_rate: u64,
    pub super_armor_damage_rate: u64,
    pub bonus_heal: u64,
    pub effect_hit_rate: u64,
    pub effect_wds: u64,
}

impl CharacterExtraAttributes {
    /// The default extra attributes.
    pub open spec fn initial() -> CharacterExtraAttributes {
        CharacterExtraAttributes {
            crit_chance: 5_000_000,
            crit_damage: 50_000_000,
            max_energy: 160,
            energy_charge_rate: 100_000_000,
            super_armor_damage_rate: 5_000_000,
            bonus_heal: 0,
            effect_hit_rate: 0,
            effect_wds: 5_000_000,
        }
    }
}

impl Default for CharacterExtraAttributes {
    fn default() -> (r: CharacterExtraAttributes)
        ensures
            r == CharacterExtraAttributes::initial(),
    {
        CharacterExtraAttributes {
            crit_chance: 5_000_000,
            crit_damage: 50_000_000,
            max_energy: 160,
            energy_charge_rate: 100_000_000,
            super_armor_damage_rate: 5_000_000,
            bonus_heal: 0,
            effect_hit_rate: 0,
            effect_wds: 5_000_000,
        }
    }
}

/// Elemental damage and resistance of a character, fixed point as in
/// [`CharacterExtraAttributes`].
#[derive(Clone, Copy, Debug, PartialEq, Eq, Structural)]
pub struct CharacterDamageAttributes {
    pub fire_damage: u64,
    pub fire_wds: u64,
    pub water_damage: u64,
    pub water_wds: u64,
    pub air_damage: u64,
    pub air_wds: u64,
    pub geo_damage: u64,
    pub geo_wds: u64,
    pub lightning_damage: u64,
    pub lightning_wds: u64,
    pub ice_damage: u64,
    pub ice_wds: u64,
    pub holy_damage: u64,
    pub holy_wds: u64,
    pub dark_damage: u64,
    pub dark_wds: u64,
}

impl CharacterDamageAttributes {
    /// The default damage attributes.
    pub open spec fn initial() -> CharacterDamageAttributes {
        CharacterDamageAttributes {
            fire_damage: 0,
            fire_wds: 10_000_000,
            water_damage: 0,
            water_wds: 10_000_000,
            air_damage: 0,
            air_wds: 10_000_000,
            geo_damage: 0,
            geo_wds: 10_000_000,
            lightning_damage: 0,
            lightning_wds: 10_000_000,
            ice_damage: 0,
            ice_wds: 10_000_000,
            holy_damage: 0,
            holy_wds: 10_000_000,
            dark_damage: 0,
            dark_wds: 10_000_000,
        }
    }
}

impl Default for CharacterDamageAttributes {
    /// No elemental damage and `10.0` resistance to each element.
    fn default() -> (r: CharacterDamageAttributes)
        ensures
            r == CharacterDamageAttributes::initial(),
    {
        CharacterDamageAttributes {
            fire_damage: 0,
            fire_wds: 10_000_000,
            water_damage: 0,
            water_wds: 10_000_000,
            air_damage: 0,
            air_wds: 10_000_000,
            geo_damage: 0,
            geo_wds: 10_000_000,
            lightning_damage: 0,
            lightning_wds: 10_000_000,
            ice_damage: 0,
            ice_wds: 10_000_000,
            holy_damage: 0,
            holy_wds: 10_000_000,
            dark_damage: 0,
            dark_wds: 10_000_000,
        }
    }
}

/// A character's base, extra and damage attributes.
#[derive(Clone, Copy, Debug, PartialEq, Eq, Structural)]
pub struct Character {
    pub base_attributes: CharacterBaseAttributes,
    pub extra_attributes: CharacterExtraAttributes,
    pub damage_attributes: CharacterDamageAttributes,
}

impl Default for Character {
    /// Each group of attributes at its own default.
    fn default() -> (r: Character)
        ensures
            r.base_attributes == CharacterBaseAttributes::initial(),
            r.extra_attributes == CharacterExtraAttributes::initial(),
            r.damage_attributes == CharacterDamageAttributes::initial(),
    {
        Character {
            base_attributes: CharacterBaseAttributes::default(),
            extra_attributes: CharacterExtraAttributes::default(),
            damage_attributes: CharacterDamageAttributes::default(),
        }
    }
}

} // verus!
