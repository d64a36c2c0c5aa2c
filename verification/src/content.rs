//! Catalog record vocabulary: weapon slot sizes, bullet sizes and variants,
//! weapon variants, usage types and unlock requirements, and the per-slot
//! tool preference.

use vstd::prelude::*;

verus! {

/// Which of the three item collections an entry belongs to.
#[derive(Clone, Copy, PartialEq, Eq, Structural, Debug)]
pub enum ItemVariant {
    Weapon,
    Consumable,
    Tool,
}

/// The holster size class a weapon occupies.
#[derive(Clone, Copy, PartialEq, Eq, Structural, Debug)]
pub enum Slot {
    Small,
    Medium,
    Large,
}

/// The calibre class of a weapon's ammunition.
#[derive(Clone, Copy, PartialEq, Eq, Structural, Debug)]
pub enum BulletSize {
    Compact,
    Derringer,
    Flare,
    Long,
    Medium,
    Shell,
    Special,
}

/// A priced custom round for one bullet size.
#[derive(Clone, Copy, PartialEq, Eq, Structural, Debug)]
pub enum BulletVariant {
    ChaosBolt,
    ChokeBolt,
    ConcertinaArrow,
    DragonBreath,
    DumDum,
    Explosive,
    ExplosiveBolt,
    Flechette,
    FragArrow,
    FullMetalJacket,
    HighVelocity,
    Incendiary,
    PennyShot,
    Poison,
    PoisonArrow,
    PoisonBolt,
    ShotBolt,
    Shredder,
    Slug,
    Spitzer,
    Starshell,
}

/// A named variant of a base weapon.
#[derive(Clone, Copy, PartialEq, Eq, Structural, Debug)]
pub enum WeaponVariant {
    Alamo,
    Aperture,
    Avtomat,
    Bayonet,
    Brawler,
    Carbine,
    CarbineDeadeye,
    Chain,
    Claw,
    Compact,
    CompactStriker,
    CompactDeadeye,
    Deadeye,
    Extended,
    Handcannon,
    Hatchet,
    Marksman,
    Match,
    MusketBayonet,
    Obrez,
    ObrezDrum,
    ObrezMace,
    Precision,
    Riposte,
    Silencer,
    Sniper,
    Spitfire,
    Swift,
    Talon,
    Vandal,
    VandalStriker,
    VandalDeadeye,
}

/// Category of extraction an unlock requirement counts.
#[derive(Clone, Copy, PartialEq, Eq, Structural, Debug)]
pub enum ExtractCategory {
    Light,
}

/// Effect tags attached to usage types and bullets.
#[derive(Clone, Copy, PartialEq, Eq, Structural, Debug)]
pub enum UtilityType {
    Antidote,
    Blunt,
    Choke,
    DerringerBullet,
    Explosion,
    Fire,
    Heal,
    Light,
    Noisy,
    Piercing,
    Poison,
    Rending,
    Silent,
    Stamina,
}

/// Strength grade of an effect.
#[derive(Clone, Copy, PartialEq, Eq, Structural, Debug)]
pub enum Intensity {
    Light,
    Medium,
    Heavy,
}

/// The per-tool-slot category preference a user may set.
#[derive(Clone, Copy, PartialEq, Eq, Structural, Debug)]
pub enum ToolSlotPreference {
    NoPreference,
    Medkit,
    Melee,
    Throwable,
    Tripmines,
    Decoys,
    Others,
}

impl Slot {
    /// Display name of the size class.
    pub open spec fn spec_name(self) -> Seq<char> {
        match self {
            Slot::Small => "Small"@,
            Slot::Medium => "Medium"@,
            Slot::Large => "Large"@,
        }
    }

    pub fn name(&self) -> (r: String)
        ensures
            r@ == self.spec_name(),
    {
        match self {
            Slot::Small => "Small".to_owned(),
            Slot::Medium => "Medium".to_owned(),
            Slot::Large => "Large".to_owned(),
        }
    }
}

impl BulletSize {
    /// Display name of the bullet size.
    pub open spec fn spec_name(self) -> Seq<char> {
        match self {
            BulletSize::Compact => "Compact"@,
            BulletSize::Derringer => "Derringer"@,
            BulletSize::Flare => "Flare"@,
            BulletSize::Long => "Long"@,
            BulletSize::Medium => "Medium"@,
            BulletSize::Shell => "Shell"@,
            BulletSize::Special => "Special"@,
        }
    }

    pub fn name(&self) -> (r: String)
        ensures
            r@ == self.spec_name(),
    {
        match self {
            BulletSize::Compact => "Compact".to_owned(),
            BulletSize::Derringer => "Derringer".to_owned(),
            BulletSize::Flare => "Flare".to_owned(),
            BulletSize::Long => "Long".to_owned(),
            BulletSize::Medium => "Medium".to_owned(),
            BulletSize::Shell => "Shell".to_owned(),
            BulletSize::Special => "Special".to_owned(),
        }
    }
}

impl BulletVariant {
    /// Display name of the custom round.
    pub open spec fn spec_name(self) -> Seq<char> {
        match self {
            BulletVariant::ChaosBolt => "Chaos Bolt"@,
            BulletVariant::ChokeBolt => "Choke Bolt"@,
            BulletVariant::ConcertinaArrow => "Concertina Arrow"@,
            BulletVariant::DragonBreath => "Dragon Breath"@,
            BulletVariant::DumDum => "Dum Dum"@,
            BulletVariant::Explosive => "Explosive"@,
            BulletVariant::ExplosiveBolt => "Explosive Bolt"@,
            BulletVariant::Flechette => "Flechette"@,
            BulletVariant::FragArrow => "Frag Arrow"@,
            BulletVariant::FullMetalJacket => "Full Metal Jacket"@,
            BulletVariant::HighVelocity => "High Velocity"@,
            BulletVariant::Incendiary => "Incendiary"@,
            BulletVariant::PennyShot => "Penny Shot"@,
            BulletVariant::Poison => "Poison"@,
            BulletVariant::PoisonArrow => "Poison Arrow"@,
            BulletVariant::PoisonBolt => "Poison Bolt"@,
            BulletVariant::ShotBolt => "Shotbolt"@,
            BulletVariant::Shredder => "Shredder"@,
            BulletVariant::Slug => "Slug"@,
            BulletVariant::Spitzer => "Spitzer"@,
            BulletVariant::Starshell => "Starshell"@,
        }
    }

    pub fn name(&self) -> (r: String)
        ensures
            r@ == self.spec_name(),
    {
        match self {
            BulletVariant::ChaosBolt => "Chaos Bolt".to_owned(),
            BulletVariant::ChokeBolt => "Choke Bolt".to_owned(),
            BulletVariant::ConcertinaArrow => "Concertina Arrow".to_owned(),
            BulletVariant::DragonBreath => "Dragon Breath".to_owned(),
            BulletVariant::DumDum => "Dum Dum".to_owned(),
            BulletVariant::Explosive => "Explosive".to_owned(),
            BulletVariant::ExplosiveBolt => "Explosive Bolt".to_owned(),
            BulletVariant::Flechette => "Flechette".to_owned(),
            BulletVariant::FragArrow => "Frag Arrow".to_owned(),
            BulletVariant::FullMetalJacket => "Full Metal Jacket".to_owned(),
            BulletVariant::HighVelocity => "High Velocity".to_owned(),
            BulletVariant::Incendiary => "Incendiary".to_owned(),
            BulletVariant::PennyShot => "Penny Shot".to_owned(),
            BulletVariant::Poison => "Poison".to_owned(),
            BulletVariant::PoisonArrow => "Poison Arrow".to_owned(),
            BulletVariant::PoisonBolt => "Poison Bolt".to_owned(),
            BulletVariant::ShotBolt => "Shotbolt".to_owned(),
            BulletVariant::Shredder => "Shredder".to_owned(),
            BulletVariant::Slug => "Slug".to_owned(),
            BulletVariant::Spitzer => "Spitzer".to_owned(),
            BulletVariant::Starshell => "Starshell".to_owned(),
        }
    }
}

impl WeaponVariant {
    /// Display name of the weapon variant.
    pub open spec fn spec_name(self) -> Seq<char> {
        match self {
            WeaponVariant::Alamo => "Alamo"@,
            WeaponVariant::Aperture => "Aperture"@,
            WeaponVariant::Avtomat => "Avtomat"@,
            WeaponVariant::Bayonet => "Bayonet"@,
            WeaponVariant::Brawler => "Brawler"@,
            WeaponVariant::Carbine => "Carbine"@,
            WeaponVariant::CarbineDeadeye => "Carbine Deadeye"@,
            WeaponVariant::Chain => "Chain"@,
            WeaponVariant::Claw => "Claw"@,
            WeaponVariant::Compact => "Compact"@,
            WeaponVariant::CompactStriker => "Compact Striker"@,
            WeaponVariant::CompactDeadeye => "Compact Deadeye"@,
            WeaponVariant::Deadeye => "Deadeye"@,
            WeaponVariant::Extended => "Extended"@,
            WeaponVariant::Handcannon => "Handcannon"@,
            WeaponVariant::Hatchet => "Hatchet"@,
            WeaponVariant::Marksman => "Marksman"@,
            WeaponVariant::Match => "Match"@,
            WeaponVariant::MusketBayonet => "Musket Bayonet"@,
            WeaponVariant::Obrez => "Obrez"@,
            WeaponVariant::ObrezDrum => "Obrez Drum"@,
            WeaponVariant::ObrezMace => "Obrez Mace"@,
            WeaponVariant::Precision => "Precision"@,
            WeaponVariant::Riposte => "Riposte"@,
            WeaponVariant::Silencer => "Silencer"@,
            WeaponVariant::Sniper => "Sniper"@,
            WeaponVariant::Spitfire => "Spitfire"@,
            WeaponVariant::Swift => "Swift"@,
            WeaponVariant::Talon => "Talon"@,
            WeaponVariant::Vandal => "Vandal"@,
            WeaponVariant::VandalStriker => "Vandal Striker"@,
            WeaponVariant::VandalDeadeye => "Valdal Deadeye"@,
        }
    }

    pub fn name(&self) -> (r: String)
        ensures
            r@ == self.spec_name(),
    {
        match self {
            WeaponVariant::Alamo => "Alamo".to_owned(),
            WeaponVariant::Aperture => "Aperture".to_owned(),
            WeaponVariant::Avtomat => "Avtomat".to_owned(),
            WeaponVariant::Bayonet => "Bayonet".to_owned(),
            WeaponVariant::Brawler => "Brawler".to_owned(),
            WeaponVariant::Carbine => "Carbine".to_owned(),
            WeaponVariant::CarbineDeadeye => "Carbine Deadeye".to_owned(),
            WeaponVariant::Chain => "Chain".to_owned(),
            WeaponVariant::Claw => "Claw".to_owned(),
            WeaponVariant::Compact => "Compact".to_owned(),
            WeaponVariant::CompactStriker => "Compact Striker".to_owned(),
            WeaponVariant::CompactDeadeye => "Compact Deadeye".to_owned(),
            WeaponVariant::Deadeye => "Deadeye".to_owned(),
            WeaponVariant::Extended => "Extended".to_owned(),
            WeaponVariant::Handcannon => "Handcannon".to_owned(),
            WeaponVariant::Hatchet => "Hatchet".to_owned(),
            WeaponVariant::Marksman => "Marksman".to_owned(),
            WeaponVariant::Match => "Match".to_owned(),
            WeaponVariant::MusketBayonet => "Musket Bayonet".to_owned(),
            WeaponVariant::Obrez => "Obrez".to_owned(),
            WeaponVariant::ObrezDrum => "Obrez Drum".to_owned(),
            WeaponVariant::ObrezMace => "Obrez Mace".to_owned(),
            WeaponVariant::Precision => "Precision".to_owned(),
            WeaponVariant::Riposte => "Riposte".to_owned(),
            WeaponVariant::Silencer => "Silencer".to_owned(),
            WeaponVariant::Sniper => "Sniper".to_owned(),
            WeaponVariant::Spitfire => "Spitfire".to_owned(),
            WeaponVariant::Swift => "Swift".to_owned(),
            WeaponVariant::Talon => "Talon".to_owned(),
            WeaponVariant::Vandal => "Vandal".to_owned(),
            WeaponVariant::VandalStriker => "Vandal Striker".to_owned(),
            WeaponVariant::VandalDeadeye => "Valdal Deadeye".to_owned(),
        }
    }
}

/// The error returned when free text names no tool slot preference.
#[derive(Clone, Copy, PartialEq, Eq, Structural, Debug)]
pub enum PreferenceParseError {
    UnknownPreference,
}

impl ToolSlotPreference {
    /// Display name of the preference; the inverse of `spec_from_name`.
    pub open spec fn spec_name(self) -> Seq<char> {
        match self {
            ToolSlotPreference::NoPreference => "NoPreference"@,
            ToolSlotPreference::Medkit => "Medkit"@,
            ToolSlotPreference::Melee => "Melee"@,
            ToolSlotPreference::Throwable => "Throwable"@,
            ToolSlotPreference::Tripmines => "Tripmines"@,
            ToolSlotPreference::Decoys => "Decoys"@,
            ToolSlotPreference::Others => "Others"@,
        }
    }

    /// Which preference a piece of free text names, if any.
    pub open spec fn spec_from_name(s: Seq<char>) -> Option<ToolSlotPreference> {
        if s == "NoPreference"@ {
            Some(ToolSlotPreference::NoPreference)
        } else if s == "Medkit"@ {
            Some(ToolSlotPreference::Medkit)
        } else if s == "Melee"@ {
            Some(ToolSlotPreference::Melee)
        } else if s == "Throwable"@ {
            Some(ToolSlotPreference::Throwable)
        } else if s == "Tripmines"@ {
            Some(ToolSlotPreference::Tripmines)
        } else if s == "Decoys"@ {
            Some(ToolSlotPreference::Decoys)
        } else if s == "Others"@ {
            Some(ToolSlotPreference::Others)
        } else {
            None
        }
    }

    pub fn name(&self) -> (r: String)
        ensures
            r@ == self.spec_name(),
    {
        match self {
            ToolSlotPreference::NoPreference => "NoPreference".to_owned(),
            ToolSlotPreference::Medkit => "Medkit".to_owned(),
            ToolSlotPreference::Melee => "Melee".to_owned(),
            ToolSlotPreference::Throwable => "Throwable".to_owned(),
            ToolSlotPreference::Tripmines => "Tripmines".to_owned(),
            ToolSlotPreference::Decoys => "Decoys".to_owned(),
            ToolSlotPreference::Others => "Others".to_owned(),
        }
    }

    /// Parses a preference from its display name; unknown text is rejected
    /// with a typed error rather than a panic.
    pub fn from_name(s: &str) -> (r: Result<ToolSlotPreference, PreferenceParseError>)
        ensures
            match ToolSlotPreference::spec_from_name(s@) {
                Some(p) => r == Ok::<ToolSlotPreference, PreferenceParseError>(p),
                None => r == Err::<ToolSlotPreference, PreferenceParseError>(
                    PreferenceParseError::UnknownPreference,
                ),
            },
    {
        let text = s.to_owned();
        if text == "NoPreference".to_owned() {
            Ok(ToolSlotPreference::NoPreference)
        } else if text == "Medkit".to_owned() {
            Ok(ToolSlotPreference::Medkit)
        } else if text == "Melee".to_owned() {
            Ok(ToolSlotPreference::Melee)
        } else if text == "Throwable".to_owned() {
            Ok(ToolSlotPreference::Throwable)
        } else if text == "Tripmines".to_owned() {
            Ok(ToolSlotPreference::Tripmines)
        } else if text == "Decoys".to_owned() {
            Ok(ToolSlotPreference::Decoys)
        } else if text == "Others".to_owned() {
            Ok(ToolSlotPreference::Others)
        } else {
            Err(PreferenceParseError::UnknownPreference)
        }
    }
}

/// Every preference name parses back to the preference it names: the
/// enum-to-text mapping is a bijection onto the seven display names.
pub proof fn lemma_preference_name_round_trip(p: ToolSlotPreference)
    ensures
        ToolSlotPreference::spec_from_name(p.spec_name()) == Some(p),
{
    reveal_strlit("NoPreference");
    reveal_strlit("Medkit");
    reveal_strlit("Melee");
    reveal_strlit("Throwable");
    reveal_strlit("Tripmines");
    reveal_strlit("Decoys");
    reveal_strlit("Others");
    assert("NoPreference"@.len() == 12);
    assert("Medkit"@.len() == 6);
    assert("Melee"@.len() == 5);
    assert("Throwable"@.len() == 9);
    assert("Tripmines"@.len() == 9);
    assert("Decoys"@.len() == 6);
    assert("Others"@.len() == 6);
    assert("Decoys"@[0] != "Medkit"@[0]);
    assert("Others"@[0] != "Medkit"@[0]);
    assert("Others"@[0] != "Decoys"@[0]);
    assert("Tripmines"@[1] != "Throwable"@[1]);
}

} // verus!
