use loadout_randomizer::content::{BulletSize, BulletVariant, PreferenceParseError, Slot,
    ToolSlotPreference, WeaponVariant};
use loadout_randomizer::loadout::get_valid_slots;

#[test]
fn paired_sizes_without_quartermaster() {
    assert_eq!(
        get_valid_slots(false, &Slot::Small),
        vec![Slot::Small, Slot::Medium, Slot::Large]
    );
    assert_eq!(get_valid_slots(false, &Slot::Medium), vec![Slot::Small, Slot::Medium]);
    assert_eq!(get_valid_slots(false, &Slot::Large), vec![Slot::Small]);
}

#[test]
fn paired_sizes_with_quartermaster() {
    assert_eq!(
        get_valid_slots(true, &Slot::Small),
        vec![Slot::Small, Slot::Medium, Slot::Large]
    );
    assert_eq!(
        get_valid_slots(true, &Slot::Medium),
        vec![Slot::Small, Slot::Medium, Slot::Large]
    );
    assert_eq!(get_valid_slots(true, &Slot::Large), vec![Slot::Small, Slot::Medium]);
}

#[test]
fn preference_names_round_trip() {
    let prefs = vec![
        ToolSlotPreference::NoPreference,
        ToolSlotPreference::Medkit,
        ToolSlotPreference::Melee,
        ToolSlotPreference::Throwable,
        ToolSlotPreference::Tripmines,
        ToolSlotPreference::Decoys,
        ToolSlotPreference::Others,
    ];
    for pref in prefs {
        let name = pref.name();
        assert_eq!(ToolSlotPreference::from_name(name.as_str()), Ok(pref));
    }
}

#[test]
fn unknown_preference_name_is_rejected() {
    assert_eq!(
        ToolSlotPreference::from_name("Sidearm"),
        Err(PreferenceParseError::UnknownPreference)
    );
    assert_eq!(
        ToolSlotPreference::from_name(""),
        Err(PreferenceParseError::UnknownPreference)
    );
}

#[test]
fn display_names_are_exact() {
    assert_eq!(BulletSize::Long.name(), "Long");
    assert_eq!(BulletSize::Compact.name(), "Compact");
    assert_eq!(BulletVariant::FullMetalJacket.name(), "Full Metal Jacket");
    assert_eq!(BulletVariant::ShotBolt.name(), "Shotbolt");
    assert_eq!(WeaponVariant::CarbineDeadeye.name(), "Carbine Deadeye");
    assert_eq!(Slot::Medium.name(), "Medium");
    assert_eq!(ToolSlotPreference::Tripmines.name(), "Tripmines");
}
