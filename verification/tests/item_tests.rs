use loadout_randomizer::content::{BulletSize, BulletVariant, Slot, UtilityType, WeaponVariant};
use loadout_randomizer::core_search_util::CoreSearchUtil;
use loadout_randomizer::generic_item::{Bullet, GenericItem, UsageType};

fn bare_bullet(variant: Option<BulletVariant>, cost: Option<u16>) -> Bullet {
    Bullet {
        name: variant,
        cost,
        types: None,
        ammo: vec![6, 6],
        damage: 100,
        effective_range: 200,
        handling: 50,
        muzzle_velocity: 400,
        requirements: None,
    }
}

fn weapon(name: &str, slot: Slot, cost: u16) -> GenericItem {
    GenericItem {
        name: name.to_owned(),
        postfix: None,
        variant: None,
        slot: Some(slot),
        additional_ammo_slots: None,
        handling: None,
        cost,
        requirements: vec![],
        usage_types: vec![UsageType::Shoot {
            bullet_types: vec![
                bare_bullet(None, None),
                bare_bullet(Some(BulletVariant::DumDum), Some(20)),
                bare_bullet(Some(BulletVariant::FullMetalJacket), Some(30)),
            ],
            bullet_size: BulletSize::Long,
            rate_of_fire: 50,
            reload_speed: 40,
        }],
        variants: None,
        dual_wield: false,
        ammo_equipped: vec![],
    }
}

fn tool(name: &str, cost: u16, usage_types: Vec<UsageType>) -> GenericItem {
    GenericItem {
        name: name.to_owned(),
        postfix: None,
        variant: None,
        slot: None,
        additional_ammo_slots: None,
        handling: None,
        cost,
        requirements: vec![],
        usage_types,
        variants: None,
        dual_wield: false,
        ammo_equipped: vec![],
    }
}

fn melee_usage() -> UsageType {
    UsageType::BasicMelee { types: vec![UtilityType::Blunt], intensity: None, damage: 25 }
}

fn placeable_usage() -> UsageType {
    UsageType::Placeable {
        types: vec![UtilityType::Explosion],
        intensity: None,
        damage: Some(150),
        damage_per_tick: None,
        duration: None,
        effect_radius: Some(5),
    }
}

fn throw_usage() -> UsageType {
    UsageType::Throw {
        types: vec![UtilityType::Noisy],
        intensity: None,
        damage: Some(5),
        damage_per_tick: None,
        effective_range: 30,
        rate_of_fire: None,
        reload_speed: None,
        muzzle_velocity: None,
        effective_radius: None,
        effect_duration: None,
        effect_radius: None,
        control_range: None,
    }
}

fn fixture_catalog() -> CoreSearchUtil {
    CoreSearchUtil {
        tools: vec![
            tool("First Aid Kit", 30, vec![UsageType::Use {
                types: vec![UtilityType::Heal],
                heal_amount: Some(50),
                effect_duration: None,
            }]),
            tool("Decoys", 10, vec![throw_usage(), melee_usage()]),
            tool("Concertina Trip Mine", 40, vec![placeable_usage()]),
            tool("Dusters", 15, vec![melee_usage()]),
            tool("Throwing Knives", 15, vec![throw_usage()]),
            tool("Spyglass", 5, vec![melee_usage()]),
        ],
        consumables: vec![tool("Vitality Shot", 25, vec![])],
        weapons: vec![
            weapon("Sparks LRR", Slot::Large, 130),
            weapon("Romero 77", Slot::Large, 66),
            weapon("Scottfield Model 3", Slot::Small, 77),
            weapon("Machete", Slot::Small, 30),
            weapon("Specter 1882", Slot::Medium, 99),
        ],
    }
}

#[test]
fn effective_cost_doubles_when_dual_wielded() {
    let mut item = weapon("Caldwell Pax", Slot::Small, 100);
    assert_eq!(item.get_cost(), 100);
    item.dual_wield = true;
    assert_eq!(item.get_cost(), 200);
}

#[test]
fn dual_wield_pair_occupies_a_medium_slot() {
    let mut item = weapon("Caldwell Pax", Slot::Small, 100);
    assert_eq!(item.get_slot(), Slot::Small);
    item.dual_wield = true;
    assert_eq!(item.get_slot(), Slot::Medium);
}

#[test]
fn bullet_variants_list_the_priced_rounds() {
    let item = weapon("Springfield 1866", Slot::Medium, 33);
    let variants = item.get_bullet_variants();
    assert_eq!(variants.len(), 2);
    assert_eq!(variants[0], (BulletSize::Long, Some(BulletVariant::DumDum), 20));
    assert_eq!(variants[1], (BulletSize::Long, Some(BulletVariant::FullMetalJacket), 30));
}

#[test]
fn bullet_variants_halve_with_additional_ammo_slots() {
    let mut item = weapon("LeMat Mark II", Slot::Medium, 85);
    item.additional_ammo_slots = Some(true);
    let variants = item.get_bullet_variants();
    assert_eq!(variants[0].2, 10);
    assert_eq!(variants[1].2, 15);
}

#[test]
fn bullet_size_comes_from_the_first_shoot_usage() {
    let item = weapon("Sparks LRR", Slot::Large, 130);
    assert_eq!(item.get_bullet_size(), Some(BulletSize::Long));
    let bare = tool("Dusters", 15, vec![melee_usage()]);
    assert_eq!(bare.get_bullet_size(), None);
}

#[test]
fn dual_wield_needs_a_small_slot_off_the_exclusion_list() {
    assert!(weapon("Scottfield Model 3", Slot::Small, 77).can_dual_wield());
    assert!(!weapon("Machete", Slot::Small, 30).can_dual_wield());
    assert!(!weapon("Specter 1882", Slot::Medium, 99).can_dual_wield());
}

#[test]
fn full_name_joins_variant_and_postfix() {
    let mut item = weapon("Caldwell Conversion", Slot::Small, 29);
    assert_eq!(item.to_full_name(), "Caldwell Conversion");
    item.variant = Some(WeaponVariant::Chain);
    assert_eq!(item.to_full_name(), "Caldwell Conversion Chain ");
    item.postfix = Some("(pistol)".to_owned());
    assert_eq!(item.to_full_name(), "Caldwell Conversion Chain  (pistol)");
}

#[test]
fn same_item_is_structural_over_the_equipped_state() {
    let a = weapon("Romero 77", Slot::Large, 66);
    let mut b = weapon("Romero 77", Slot::Large, 66);
    assert!(a.same_item(&b));
    b.dual_wield = true;
    assert!(!a.same_item(&b));
    b.dual_wield = false;
    b.ammo_equipped = vec![(BulletSize::Shell, None, 0)];
    assert!(!a.same_item(&b));
}

#[test]
fn image_paths_strip_spaces_and_dots() {
    let mut item = weapon("Springfield 1866", Slot::Medium, 33);
    assert_eq!(item.to_weapon_path(), "/images/weapons/Springfield1866.webp");
    item.variant = Some(WeaponVariant::CompactDeadeye);
    item.postfix = Some("(x2)".to_owned());
    assert_eq!(item.to_weapon_path(), "/images/weapons/Springfield1866CompactDeadeyex2.webp");
    assert_eq!(item.to_tool_path(), "/images/tools/Springfield1866.webp");
    assert_eq!(item.to_consumable_path(), "/images/consumables/Springfield1866.webp");
}

#[test]
fn image_path_resolves_by_collection() {
    let catalog = fixture_catalog();
    let kit = tool("First Aid Kit", 30, vec![]);
    assert_eq!(kit.to_image_path(&catalog), "/images/tools/FirstAidKit.webp");
    let shot = tool("Vitality Shot", 25, vec![]);
    assert_eq!(shot.to_image_path(&catalog), "/images/consumables/VitalityShot.webp");
    let gun = weapon("Sparks LRR", Slot::Large, 130);
    assert_eq!(gun.to_image_path(&catalog), "/images/weapons/SparksLRR.webp");
}

#[test]
fn bullet_svg_paths_follow_the_weapon() {
    let crossbow = weapon("Crossbow", Slot::Large, 80);
    let plain = weapon("Sparks LRR", Slot::Large, 130);
    assert_eq!(
        BulletSize::Special.to_svg_path(Some(&crossbow)),
        "/images/bullets/CrossbowBolt.svg"
    );
    assert_eq!(BulletSize::Long.to_svg_path(Some(&plain)), "/images/bullets/Long.svg");
    assert_eq!(BulletSize::Long.to_svg_path(None), "/images/bullets/Long.svg");
}

#[test]
fn variant_svg_paths_strip_bolt_and_arrow_stems() {
    let crossbow = weapon("Crossbow", Slot::Large, 80);
    let bow = weapon("Hunting Bow", Slot::Large, 60);
    let plain = weapon("Sparks LRR", Slot::Large, 130);
    assert_eq!(
        BulletVariant::ChaosBolt.to_svg_path(Some(&crossbow), &BulletSize::Special),
        "/images/bullets/CrossbowChaos.svg"
    );
    assert_eq!(
        BulletVariant::ConcertinaArrow.to_svg_path(Some(&bow), &BulletSize::Special),
        "/images/bullets/ArrowConcertina.svg"
    );
    assert_eq!(
        BulletVariant::FullMetalJacket.to_svg_path(Some(&plain), &BulletSize::Long),
        "/images/bullets/LongFullMetalJacket.svg"
    );
}

#[test]
fn weapons_by_sizes_filters_on_slot() {
    let catalog = fixture_catalog();
    let larges = catalog.get_weapons_by_sizes(&vec![Slot::Large]);
    assert_eq!(larges.len(), 2);
    assert_eq!(larges[0].name, "Sparks LRR");
    assert_eq!(larges[1].name, "Romero 77");
    let smalls_and_mediums = catalog.get_weapons_by_sizes(&vec![Slot::Small, Slot::Medium]);
    assert_eq!(smalls_and_mediums.len(), 3);
}

#[test]
fn tool_category_queries_partition_by_rules() {
    let catalog = fixture_catalog();

    let decoys = catalog.get_decoy_tools();
    assert_eq!(decoys.len(), 1);
    assert_eq!(decoys[0].name, "Decoys");

    let mines = catalog.get_trip_mines();
    assert_eq!(mines.len(), 1);
    assert_eq!(mines[0].name, "Concertina Trip Mine");

    // melee-only usages, minus the fixed "others" allow-list: the spyglass
    // is melee-only here but sits on the allow-list, so only the dusters stay
    let melee = catalog.get_melee_tools();
    assert_eq!(melee.len(), 1);
    assert_eq!(melee[0].name, "Dusters");
}

#[test]
fn throwables_exclude_decoys() {
    let catalog = fixture_catalog();
    let throwables = catalog.get_throwables();
    assert_eq!(throwables.len(), 1);
    assert_eq!(throwables[0].name, "Throwing Knives");
}

#[test]
fn other_tools_come_from_the_allow_list() {
    let catalog = fixture_catalog();
    let others = catalog.get_other_tools();
    assert_eq!(others.len(), 1);
    assert_eq!(others[0].name, "Spyglass");
}

#[test]
fn medkit_query_matches_the_exact_name() {
    let catalog = fixture_catalog();
    let medkits = catalog.get_medkits();
    assert_eq!(medkits.len(), 1);
    assert_eq!(medkits[0].name, "First Aid Kit");
}

#[test]
fn dual_wield_pool_excludes_listed_names() {
    let catalog = fixture_catalog();
    let pool = catalog.get_dual_wield_weapons();
    assert_eq!(pool.len(), 1);
    assert_eq!(pool[0].name, "Scottfield Model 3");
}

#[test]
fn name_lookup_distinguishes_collections() {
    let catalog = fixture_catalog();
    assert!(catalog.name_is_tool("Spyglass"));
    assert!(!catalog.name_is_tool("Vitality Shot"));
    assert!(catalog.name_is_consumable("Vitality Shot"));
    assert!(!catalog.name_is_consumable("Spyglass"));
}
