use loadout_randomizer::budget::{set_budget, Budget};
use loadout_randomizer::config::{Config, ToggleOption};
use loadout_randomizer::content::{BulletSize, BulletVariant, Slot, ToolSlotPreference,
    UtilityType};
use loadout_randomizer::core_search_util::CoreSearchUtil;
use loadout_randomizer::gear::{random_tools, reset_consumables, reset_tools, sink_empty_slots};
use loadout_randomizer::gear::random_consumables;
use loadout_randomizer::generate::{random, random_weapon_one, random_weapon_two};
use loadout_randomizer::generic_item::{Bullet, GenericItem, GenericItemLockable, UsageType};
use loadout_randomizer::loadout::{check_loadout_validity, purchase_item, refund_item,
    set_default_ammo, Loadout, LoadoutInvalid};
use loadout_randomizer::mutators::{delete_consumable, delete_tool, delete_weapon,
    random_consumable, random_tool, select_ammo, select_consumable, select_tool, select_weapon,
    toggle_tool_lock, toggle_weapon_lock};
use loadout_randomizer::weapons::{always_dual_wield, always_duplicate_weapons,
    always_quartermaster, custom_ammo, dedupe_weapons, initial_weapon, sort_weapons};

use rand::rngs::StdRng;
use rand::SeedableRng;

fn seeded(seed: u64) -> StdRng {
    StdRng::seed_from_u64(seed)
}

fn bare_bullet(variant: Option<BulletVariant>, cost: Option<u16>) -> Bullet {
    Bullet {
        name: variant,
        cost,
        types: None,
        ammo: vec![6],
        damage: 100,
        effective_range: 200,
        handling: 50,
        muzzle_velocity: 400,
        requirements: None,
    }
}

fn weapon(name: &str, slot: Slot, cost: u16) -> GenericItem {
    GenericItem {
        name: name.to_owned(),
        postfix: None,
        variant: None,
        slot: Some(slot),
        additional_ammo_slots: None,
        handling: None,
        cost,
        requirements: vec![],
        usage_types: vec![UsageType::Shoot {
            bullet_types: vec![
                bare_bullet(None, None),
                bare_bullet(Some(BulletVariant::DumDum), Some(20)),
            ],
            bullet_size: BulletSize::Long,
            rate_of_fire: 50,
            reload_speed: 40,
        }],
        variants: None,
        dual_wield: false,
        ammo_equipped: vec![],
    }
}

fn tool(name: &str, cost: u16) -> GenericItem {
    GenericItem {
        name: name.to_owned(),
        postfix: None,
        variant: None,
        slot: None,
        additional_ammo_slots: None,
        handling: None,
        cost,
        requirements: vec![],
        usage_types: vec![UsageType::BasicMelee {
            types: vec![UtilityType::Blunt],
            intensity: None,
            damage: 25,
        }],
        variants: None,
        dual_wield: false,
        ammo_equipped: vec![],
    }
}

fn held(item: GenericItem, locked: bool) -> GenericItemLockable {
    GenericItemLockable { item: Some(item), locked }
}

fn catalog_of(weapons: Vec<GenericItem>, tools: Vec<GenericItem>, consumables: Vec<GenericItem>)
    -> CoreSearchUtil {
    CoreSearchUtil { tools, consumables, weapons }
}

fn default_config() -> Config {
    Config::default()
}

#[test]
fn initial_weapon_never_selects_beyond_the_budget() {
    // budget 50, weapons costing 30 and 25: every draw stays within 50
    let catalog = catalog_of(
        vec![weapon("Romero 77", Slot::Large, 30), weapon("Bornheim No. 3", Slot::Small, 25)],
        vec![],
        vec![],
    );
    for seed in 0..40u64 {
        let mut rng = seeded(seed);
        let mut loadout = Loadout::default();
        let mut budget = Budget::default();
        set_budget(&mut budget, 120).unwrap();
        // weapons sub-budget of 120 is 120 - (20 + 30) = 70; draw against 50
        budget.weapons_budget = 50;
        let mut slot = GenericItemLockable::default();
        let check = GenericItemLockable::default();
        initial_weapon(&mut loadout, &mut budget, &mut rng, false, &mut slot, &check, &catalog);
        let picked = slot.item.expect("an affordable weapon exists");
        assert!(picked.get_cost() <= 50);
    }
}

#[test]
fn initial_weapon_skips_unaffordable_candidates() {
    let catalog = catalog_of(vec![weapon("Nitro Express Rifle", Slot::Large, 490)], vec![], vec![]);
    let mut rng = seeded(3);
    let mut loadout = Loadout::default();
    let mut budget = Budget::default();
    set_budget(&mut budget, 120).unwrap();
    let mut slot = GenericItemLockable::default();
    let check = GenericItemLockable::default();
    initial_weapon(&mut loadout, &mut budget, &mut rng, false, &mut slot, &check, &catalog);
    assert!(slot.item.is_none());
}

#[test]
fn fixed_seed_generation_is_deterministic() {
    let catalog = catalog_of(
        vec![
            weapon("Romero 77", Slot::Large, 30),
            weapon("Bornheim No. 3", Slot::Small, 25),
            weapon("Specter 1882", Slot::Medium, 28),
        ],
        vec![tool("First Aid Kit", 30), tool("Dusters", 15)],
        vec![tool("Vitality Shot", 25)],
    );
    let run = |seed: u64| {
        let mut rng = seeded(seed);
        let mut loadout = Loadout::default();
        let mut budget = Budget::default();
        let config = default_config();
        random(&mut loadout, &mut budget, &config, &mut rng, &catalog);
        let name_of = |slot: &GenericItemLockable| match &slot.item {
            Some(item) => item.to_full_name(),
            None => String::new(),
        };
        (
            name_of(&loadout.weapon_one),
            name_of(&loadout.weapon_two),
            name_of(&loadout.tools[0]),
            name_of(&loadout.consumables[0]),
            budget.total_cost,
        )
    };
    assert_eq!(run(42), run(42));
    assert_eq!(run(7), run(7));
}

#[test]
fn locked_large_weapon_pairs_only_with_small() {
    // Quartermaster off: a large weapon pairs with {Small} alone, so the
    // draw for the empty slot may only consider small candidates.
    let catalog = catalog_of(
        vec![
            weapon("Sparks LRR", Slot::Large, 30),
            weapon("Specter 1882", Slot::Medium, 5),
            weapon("Bornheim No. 3", Slot::Small, 5),
        ],
        vec![],
        vec![],
    );
    for seed in 0..30u64 {
        let mut rng = seeded(seed);
        let mut loadout = Loadout::default();
        let mut budget = Budget::default();
        set_budget(&mut budget, 600).unwrap();
        let mut slot = GenericItemLockable::default();
        let check = held(weapon("Sparks LRR", Slot::Large, 30), true);
        initial_weapon(&mut loadout, &mut budget, &mut rng, false, &mut slot, &check, &catalog);
        let picked = slot.item.expect("a small weapon is affordable");
        assert_eq!(picked.get_slot(), Slot::Small);
    }
}

#[test]
fn dedupe_replaces_the_duplicate_pair() {
    // Both slots hold the same large weapon; the only valid-size candidate
    // is a distinct small weapon, so the pair must end distinct.
    let dupe = weapon("Romero 77", Slot::Large, 40);
    let catalog = catalog_of(
        vec![weapon("Romero 77", Slot::Large, 40), weapon("Bornheim No. 3", Slot::Small, 25)],
        vec![],
        vec![],
    );
    let mut rng = seeded(11);
    let mut loadout = Loadout::default();
    loadout.weapon_one = held(dupe.clone(), false);
    loadout.weapon_two = held(dupe.clone(), false);
    let mut budget = Budget::default();
    set_budget(&mut budget, 600).unwrap();
    dedupe_weapons(&mut loadout, &mut budget, &mut rng, false, &catalog);
    let one = loadout.weapon_one.item.expect("kept");
    let two = loadout.weapon_two.item.expect("replaced");
    assert!(!one.same_item(&two));
    assert_eq!(two.name, "Bornheim No. 3");
}

#[test]
fn medkit_preference_only_ever_selects_the_first_aid_kit() {
    let catalog = catalog_of(
        vec![],
        vec![tool("First Aid Kit", 30), tool("Dusters", 15), tool("Decoys", 10)],
        vec![],
    );
    let mut config = default_config();
    config.tool_preferences = vec![
        ToolSlotPreference::Medkit,
        ToolSlotPreference::Medkit,
        ToolSlotPreference::Medkit,
        ToolSlotPreference::Medkit,
    ];
    for seed in 0..20u64 {
        let mut rng = seeded(seed);
        let mut loadout = Loadout::default();
        let mut budget = Budget::default();
        set_budget(&mut budget, 600).unwrap();
        random_tools(&mut loadout, &mut budget, &config, &mut rng, &catalog);
        for slot in &loadout.tools {
            if let Some(item) = &slot.item {
                assert_eq!(item.to_full_name(), "First Aid Kit");
            }
        }
    }
}

#[test]
fn medkit_beyond_the_tools_budget_leaves_the_slot_empty() {
    let catalog = catalog_of(vec![], vec![tool("First Aid Kit", 30)], vec![]);
    let mut config = default_config();
    config.tool_preferences = vec![
        ToolSlotPreference::Medkit,
        ToolSlotPreference::Medkit,
        ToolSlotPreference::Medkit,
        ToolSlotPreference::Medkit,
    ];
    let mut rng = seeded(5);
    let mut loadout = Loadout::default();
    let mut budget = Budget::default();
    set_budget(&mut budget, 600).unwrap();
    budget.tools_budget = 29;
    random_tools(&mut loadout, &mut budget, &config, &mut rng, &catalog);
    for slot in &loadout.tools {
        assert!(slot.item.is_none());
    }
}

#[test]
fn purchase_then_refund_restores_the_balances() {
    let mut item = weapon("Springfield 1866", Slot::Medium, 33);
    item.ammo_equipped = vec![(BulletSize::Long, Some(BulletVariant::DumDum), 20)];
    let slot = held(item, false);

    let mut budget = Budget::default();
    set_budget(&mut budget, 600).unwrap();
    let weapons_before = budget.weapons_budget;
    let total_before = budget.total_cost;

    purchase_item(&mut budget, &slot);
    assert_eq!(budget.weapons_budget, weapons_before - 53);
    assert_eq!(budget.total_cost, total_before + 53);

    refund_item(&mut budget, &slot);
    assert_eq!(budget.weapons_budget, weapons_before);
    assert_eq!(budget.total_cost, total_before);
}

#[test]
fn default_ammo_fills_unset_rounds_only() {
    let mut slot = held(weapon("Sparks LRR", Slot::Large, 130), false);
    assert!(set_default_ammo(&mut slot));
    let item = slot.item.as_ref().unwrap();
    assert_eq!(item.ammo_equipped, vec![(BulletSize::Long, None, 0)]);
    // a second call reports rounds already set
    assert!(!set_default_ammo(&mut slot));
}

#[test]
fn default_ammo_doubles_with_additional_slots() {
    let mut item = weapon("LeMat Mark II", Slot::Medium, 85);
    item.additional_ammo_slots = Some(true);
    let mut slot = held(item, false);
    assert!(set_default_ammo(&mut slot));
    let item = slot.item.as_ref().unwrap();
    assert_eq!(
        item.ammo_equipped,
        vec![(BulletSize::Long, None, 0), (BulletSize::Long, None, 0)]
    );
}

#[test]
fn forced_ammo_selection_fills_every_slot_with_priced_rounds() {
    let mut budget = Budget::default();
    set_budget(&mut budget, 600).unwrap();
    let mut rng = seeded(9);
    let mut item = weapon("LeMat Mark II", Slot::Medium, 85);
    item.additional_ammo_slots = Some(true);
    let mut slot = held(item, false);
    custom_ammo(&mut budget, &mut rng, &mut slot, true);
    let item = slot.item.as_ref().unwrap();
    assert_eq!(item.ammo_equipped.len(), 2);
    for round in &item.ammo_equipped {
        assert_eq!(round.1, Some(BulletVariant::DumDum));
        assert_eq!(round.2, 10);
    }
    assert_eq!(budget.total_cost, 20);
}

#[test]
fn locked_weapon_recharges_its_rounds() {
    let mut budget = Budget::default();
    set_budget(&mut budget, 600).unwrap();
    let weapons_before = budget.weapons_budget;
    let mut rng = seeded(9);
    let mut item = weapon("Springfield 1866", Slot::Medium, 33);
    item.ammo_equipped = vec![(BulletSize::Long, Some(BulletVariant::DumDum), 20)];
    let mut slot = held(item, true);
    custom_ammo(&mut budget, &mut rng, &mut slot, false);
    assert_eq!(budget.weapons_budget, weapons_before - 20);
    let item = slot.item.as_ref().unwrap();
    assert_eq!(item.ammo_equipped, vec![(BulletSize::Long, Some(BulletVariant::DumDum), 20)]);
}

#[test]
fn sort_moves_the_larger_weapon_first() {
    let mut loadout = Loadout::default();
    loadout.weapon_one = held(weapon("Bornheim No. 3", Slot::Small, 25), false);
    loadout.weapon_two = held(weapon("Romero 77", Slot::Large, 30), false);
    sort_weapons(&mut loadout);
    assert_eq!(loadout.weapon_one.item.as_ref().unwrap().name, "Romero 77");
    assert_eq!(loadout.weapon_two.item.as_ref().unwrap().name, "Bornheim No. 3");
}

#[test]
fn sort_moves_a_lone_weapon_to_the_first_slot() {
    let mut loadout = Loadout::default();
    loadout.weapon_two = held(weapon("Romero 77", Slot::Large, 30), false);
    sort_weapons(&mut loadout);
    assert_eq!(loadout.weapon_one.item.as_ref().unwrap().name, "Romero 77");
    assert!(loadout.weapon_two.item.is_none());
}

#[test]
fn sort_respects_locked_slots() {
    let mut loadout = Loadout::default();
    loadout.weapon_one = held(weapon("Bornheim No. 3", Slot::Small, 25), true);
    loadout.weapon_two = held(weapon("Romero 77", Slot::Large, 30), false);
    sort_weapons(&mut loadout);
    assert_eq!(loadout.weapon_one.item.as_ref().unwrap().name, "Bornheim No. 3");
}

#[test]
fn validity_flags_an_incompatible_pair_together() {
    let mut loadout = Loadout::default();
    loadout.weapon_one = held(weapon("Sparks LRR", Slot::Large, 130), false);
    loadout.weapon_two = held(weapon("Specter 1882", Slot::Medium, 99), false);
    let flags = check_loadout_validity(&loadout, false);
    assert_eq!(flags, vec![LoadoutInvalid::WeaponSlot(0), LoadoutInvalid::WeaponSlot(1)]);
    // quartermaster widens the pairing, so the same pair becomes valid
    let flags = check_loadout_validity(&loadout, true);
    assert_eq!(flags, vec![]);
}

#[test]
fn validity_flags_later_duplicate_tools() {
    let mut loadout = Loadout::default();
    loadout.tools[0] = held(tool("Dusters", 15), false);
    loadout.tools[2] = held(tool("Dusters", 15), false);
    loadout.tools[3] = held(tool("Dusters", 15), false);
    let flags = check_loadout_validity(&loadout, false);
    assert_eq!(flags, vec![LoadoutInvalid::ToolSlot(2), LoadoutInvalid::ToolSlot(3)]);
}

#[test]
fn reset_keeps_and_recharges_locked_tools() {
    let mut loadout = Loadout::default();
    loadout.tools[0] = held(tool("Dusters", 15), true);
    loadout.tools[1] = held(tool("Decoys", 10), false);
    let mut budget = Budget::default();
    set_budget(&mut budget, 600).unwrap();
    let tools_before = budget.tools_budget;
    reset_tools(&mut loadout, &mut budget);
    assert!(loadout.tools[0].item.is_some());
    assert!(loadout.tools[1].item.is_none());
    assert_eq!(budget.tools_budget, tools_before - 15);
    assert_eq!(loadout.errors.len(), 0);
}

#[test]
fn reset_records_an_error_for_an_unaffordable_locked_tool() {
    let mut loadout = Loadout::default();
    loadout.tools[2] = held(tool("Dusters", 15), true);
    let mut budget = Budget::default();
    set_budget(&mut budget, 600).unwrap();
    budget.tools_budget = 10;
    reset_tools(&mut loadout, &mut budget);
    // the item is kept, the shortfall is recorded
    assert!(loadout.tools[2].item.is_some());
    assert_eq!(loadout.errors.len(), 1);
}

#[test]
fn sink_pushes_empty_unlocked_slots_to_the_end() {
    let mut slots = vec![
        GenericItemLockable::default(),
        held(tool("Dusters", 15), false),
        GenericItemLockable::default(),
        held(tool("Decoys", 10), false),
    ];
    sink_empty_slots(&mut slots);
    assert_eq!(slots[0].item.as_ref().unwrap().name, "Dusters");
    assert_eq!(slots[1].item.as_ref().unwrap().name, "Decoys");
    assert!(slots[2].item.is_none());
    assert!(slots[3].item.is_none());
}

#[test]
fn sink_never_crosses_a_locked_slot() {
    let mut slots = vec![
        GenericItemLockable::default(),
        GenericItemLockable { item: None, locked: true },
        held(tool("Dusters", 15), false),
        GenericItemLockable::default(),
    ];
    sink_empty_slots(&mut slots);
    assert!(slots[0].item.is_none());
    assert!(slots[1].locked);
    assert_eq!(slots[2].item.as_ref().unwrap().name, "Dusters");
}

#[test]
fn select_weapon_locks_and_charges_the_slot() {
    let mut loadout = Loadout::default();
    let mut budget = Budget::default();
    set_budget(&mut budget, 600).unwrap();
    let weapons_before = budget.weapons_budget;
    select_weapon(&mut loadout, &mut budget, 0, Some(weapon("Romero 77", Slot::Large, 30)));
    assert!(loadout.weapon_one.locked);
    let item = loadout.weapon_one.item.as_ref().unwrap();
    assert_eq!(item.name, "Romero 77");
    // the free default round was attached
    assert_eq!(item.ammo_equipped, vec![(BulletSize::Long, None, 0)]);
    assert_eq!(budget.weapons_budget, weapons_before - 30);
}

#[test]
fn delete_weapon_refunds_and_unlocks() {
    let mut loadout = Loadout::default();
    let mut budget = Budget::default();
    set_budget(&mut budget, 600).unwrap();
    let weapons_before = budget.weapons_budget;
    select_weapon(&mut loadout, &mut budget, 0, Some(weapon("Romero 77", Slot::Large, 30)));
    delete_weapon(&mut loadout, &mut budget, 0);
    assert!(loadout.weapon_one.item.is_none());
    assert!(!loadout.weapon_one.locked);
    assert_eq!(budget.weapons_budget, weapons_before);
}

#[test]
fn toggle_flips_only_the_lock() {
    let mut loadout = Loadout::default();
    toggle_weapon_lock(&mut loadout, 1);
    assert!(loadout.weapon_two.locked);
    toggle_weapon_lock(&mut loadout, 1);
    assert!(!loadout.weapon_two.locked);
}

#[test]
fn select_ammo_swaps_one_round_and_settles_the_cost() {
    let mut loadout = Loadout::default();
    let mut budget = Budget::default();
    set_budget(&mut budget, 600).unwrap();
    select_weapon(&mut loadout, &mut budget, 0, Some(weapon("Springfield 1866", Slot::Medium, 33)));
    let weapons_before = budget.weapons_budget;
    select_ammo(
        &mut loadout,
        &mut budget,
        0,
        0,
        (BulletSize::Long, Some(BulletVariant::DumDum), 20),
    );
    let item = loadout.weapon_one.item.as_ref().unwrap();
    assert_eq!(item.ammo_equipped, vec![(BulletSize::Long, Some(BulletVariant::DumDum), 20)]);
    assert_eq!(budget.weapons_budget, weapons_before - 20);
    // swapping back to the free round refunds the custom one
    select_ammo(&mut loadout, &mut budget, 0, 0, (BulletSize::Long, None, 0));
    assert_eq!(budget.weapons_budget, weapons_before);
}

#[test]
fn random_tool_skips_items_slotted_elsewhere() {
    let catalog = catalog_of(vec![], vec![tool("Dusters", 15), tool("Decoys", 10)], vec![]);
    let config = default_config();
    let mut loadout = Loadout::default();
    loadout.tools[0] = held(tool("Dusters", 15), false);
    let mut budget = Budget::default();
    set_budget(&mut budget, 600).unwrap();
    for seed in 0..10u64 {
        let mut rng = seeded(seed);
        random_tool(&mut loadout, &mut budget, &config, 1, &mut rng, &catalog);
        assert_eq!(loadout.tools[1].item.as_ref().unwrap().name, "Decoys");
    }
}

#[test]
fn select_tool_replaces_and_locks() {
    let mut loadout = Loadout::default();
    let mut budget = Budget::default();
    set_budget(&mut budget, 600).unwrap();
    let tools_before = budget.tools_budget;
    let weapons_before = budget.weapons_budget;
    select_tool(&mut loadout, &mut budget, 2, Some(tool("Dusters", 15)));
    assert!(loadout.tools[2].locked);
    assert_eq!(loadout.tools[2].item.as_ref().unwrap().name, "Dusters");
    // single-slot edits settle through the generic item transaction, which
    // charges the weapons sub-budget whatever the slot kind
    assert_eq!(budget.tools_budget, tools_before);
    assert_eq!(budget.weapons_budget, weapons_before - 15);
}

#[test]
fn config_toggles_clear_dependent_options() {
    let mut config = Config::default();
    assert!(config.option_exists(ToggleOption::DualWield));
    config.toggle_always_option(ToggleOption::AlwaysDualWield);
    assert!(config.option_exists(ToggleOption::AlwaysDualWield));
    // switching the base off clears the dependent option
    config.toggle_base_option(ToggleOption::DualWield);
    assert!(!config.option_exists(ToggleOption::DualWield));
    assert!(!config.option_exists(ToggleOption::AlwaysDualWield));
}

#[test]
fn always_options_for_slot_shapes_exclude_each_other() {
    let mut config = Config::default();
    config.toggle_always_option(ToggleOption::AlwaysDualWield);
    config.toggle_always_option(ToggleOption::AlwaysQuartermaster);
    assert!(config.option_exists(ToggleOption::AlwaysQuartermaster));
    assert!(!config.option_exists(ToggleOption::AlwaysDualWield));
    config.toggle_always_option(ToggleOption::AlwaysDuplicateWeapons);
    assert!(config.option_exists(ToggleOption::AlwaysDuplicateWeapons));
    assert!(!config.option_exists(ToggleOption::AlwaysQuartermaster));
}

#[test]
fn full_generation_respects_the_cost_ceiling_and_locks() {
    let catalog = catalog_of(
        vec![
            weapon("Romero 77", Slot::Large, 30),
            weapon("Bornheim No. 3", Slot::Small, 25),
            weapon("Specter 1882", Slot::Medium, 28),
        ],
        vec![tool("First Aid Kit", 30), tool("Dusters", 15), tool("Decoys", 10)],
        vec![tool("Vitality Shot", 25), tool("Weak Vitality Shot", 12)],
    );
    let mut config = Config::default();
    config.max_cost = Some(300);
    let mut loadout = Loadout::default();
    loadout.tools[1] = held(tool("Dusters", 15), true);
    loadout.consumables[0] = held(tool("Vitality Shot", 25), true);
    let mut rng = seeded(21);
    let mut budget = Budget::default();
    random(&mut loadout, &mut budget, &config, &mut rng, &catalog);
    assert_eq!(budget.initial_budget, 300);
    assert_eq!(loadout.tools[1].item.as_ref().unwrap().name, "Dusters");
    assert!(loadout.tools[1].locked);
    assert_eq!(loadout.consumables[0].item.as_ref().unwrap().name, "Vitality Shot");
    let sum = budget.weapons_budget as u32 + budget.tools_budget as u32
        + budget.consumables_budget as u32;
    assert!(budget.total_cost as u32 <= 300);
    let _ = sum;
}

#[test]
fn single_slot_randomize_commits_through_the_snapshot() {
    let catalog = catalog_of(
        vec![weapon("Romero 77", Slot::Large, 30), weapon("Bornheim No. 3", Slot::Small, 25)],
        vec![],
        vec![],
    );
    let config = Config::default();
    let mut loadout = Loadout::default();
    let mut budget = Budget::default();
    set_budget(&mut budget, 600).unwrap();
    let weapons_before = budget.weapons_budget;
    let mut rng = seeded(13);
    random_weapon_one(&mut loadout, &mut budget, &config, &mut rng, &catalog);
    match &loadout.weapon_one.item {
        Some(item) => {
            let rounds: u16 = item.ammo_equipped.iter().map(|a| a.2).sum();
            assert_eq!(budget.weapons_budget, weapons_before - item.get_cost() - rounds);
        },
        None => {
            assert_eq!(budget.weapons_budget, weapons_before);
        },
    }
}

#[test]
fn unaffordable_locked_weapon_is_kept_with_an_error() {
    let catalog = catalog_of(vec![weapon("Romero 77", Slot::Large, 30)], vec![], vec![]);
    let mut rng = seeded(2);
    let mut loadout = Loadout::default();
    let mut budget = Budget::default();
    set_budget(&mut budget, 600).unwrap();
    budget.weapons_budget = 10;
    let mut slot = held(weapon("Sparks LRR", Slot::Large, 130), true);
    let check = GenericItemLockable::default();
    initial_weapon(&mut loadout, &mut budget, &mut rng, false, &mut slot, &check, &catalog);
    assert_eq!(slot.item.as_ref().unwrap().name, "Sparks LRR");
    assert_eq!(loadout.errors.len(), 1);
    assert_eq!(budget.weapons_budget, 10);
}

#[test]
fn reset_records_an_error_for_an_unaffordable_locked_consumable() {
    let mut loadout = Loadout::default();
    loadout.consumables[1] = held(tool("Vitality Shot", 25), true);
    let mut budget = Budget::default();
    set_budget(&mut budget, 600).unwrap();
    budget.consumables_budget = 10;
    reset_consumables(&mut loadout, &mut budget);
    assert!(loadout.consumables[1].item.is_some());
    assert_eq!(loadout.errors.len(), 1);
}

#[test]
fn quartermaster_collapse_yields_one_large_one_medium() {
    let catalog = catalog_of(
        vec![
            weapon("Sparks LRR", Slot::Large, 30),
            weapon("Specter 1882", Slot::Medium, 28),
            weapon("Bornheim No. 3", Slot::Small, 25),
        ],
        vec![],
        vec![],
    );
    let mut rng = seeded(17);
    let mut loadout = Loadout::default();
    loadout.weapon_one = held(weapon("Bornheim No. 3", Slot::Small, 25), false);
    loadout.weapon_two = held(weapon("Bornheim No. 3", Slot::Small, 25), false);
    let mut budget = Budget::default();
    set_budget(&mut budget, 600).unwrap();
    always_quartermaster(&mut loadout, &mut budget, &mut rng, &catalog);
    assert_eq!(loadout.weapon_one.item.as_ref().unwrap().get_slot(), Slot::Large);
    assert_eq!(loadout.weapon_two.item.as_ref().unwrap().get_slot(), Slot::Medium);
}

#[test]
fn quartermaster_redraws_only_the_unlocked_slot() {
    // one locked slot: it is kept, and the other is redrawn to a size that
    // pairs with it under quartermaster
    let catalog = catalog_of(
        vec![weapon("Sparks LRR", Slot::Large, 30), weapon("Specter 1882", Slot::Medium, 28)],
        vec![],
        vec![],
    );
    for seed in 0..10u64 {
        let mut rng = seeded(seed);
        let mut loadout = Loadout::default();
        loadout.weapon_one = held(weapon("Sparks LRR", Slot::Large, 30), true);
        let mut budget = Budget::default();
        set_budget(&mut budget, 600).unwrap();
        always_quartermaster(&mut loadout, &mut budget, &mut rng, &catalog);
        assert!(loadout.weapon_one.locked);
        assert_eq!(loadout.weapon_one.item.as_ref().unwrap().name, "Sparks LRR");
        // quartermaster pairs a large weapon with small or medium
        let two = loadout.weapon_two.item.as_ref().unwrap();
        assert_eq!(two.get_slot(), Slot::Medium);
    }
}

#[test]
fn quartermaster_leaves_a_fully_locked_pair_alone() {
    let catalog = catalog_of(vec![weapon("Sparks LRR", Slot::Large, 30)], vec![], vec![]);
    let mut rng = seeded(17);
    let mut loadout = Loadout::default();
    loadout.weapon_one = held(weapon("Bornheim No. 3", Slot::Small, 25), true);
    loadout.weapon_two.locked = true;
    let mut budget = Budget::default();
    set_budget(&mut budget, 600).unwrap();
    let total_before = budget.total_cost;
    always_quartermaster(&mut loadout, &mut budget, &mut rng, &catalog);
    assert_eq!(loadout.weapon_one.item.as_ref().unwrap().name, "Bornheim No. 3");
    assert!(loadout.weapon_two.item.is_none());
    assert_eq!(budget.total_cost, total_before);
}

#[test]
fn ammo_selection_defaults_when_no_priced_rounds_exist() {
    let mut item = weapon("Hunting Bow", Slot::Large, 60);
    item.usage_types = vec![UsageType::Shoot {
        bullet_types: vec![bare_bullet(None, None)],
        bullet_size: BulletSize::Special,
        rate_of_fire: 10,
        reload_speed: 30,
    }];
    let mut slot = held(item, false);
    let mut budget = Budget::default();
    set_budget(&mut budget, 600).unwrap();
    let total_before = budget.total_cost;
    let mut rng = seeded(3);
    custom_ammo(&mut budget, &mut rng, &mut slot, false);
    let item = slot.item.as_ref().unwrap();
    assert_eq!(item.ammo_equipped, vec![(BulletSize::Special, None, 0)]);
    assert_eq!(budget.total_cost, total_before);
}

#[test]
fn select_weapon_rolls_back_when_the_charge_is_not_covered() {
    let mut loadout = Loadout::default();
    let mut budget = Budget::default();
    set_budget(&mut budget, 600).unwrap();
    budget.weapons_budget = 10;
    let log_before = budget.debug_transactions.len();
    select_weapon(&mut loadout, &mut budget, 0, Some(weapon("Sparks LRR", Slot::Large, 130)));
    assert!(loadout.weapon_one.item.is_none());
    assert!(!loadout.weapon_one.locked);
    assert_eq!(budget.weapons_budget, 10);
    assert_eq!(budget.debug_transactions.len(), log_before);
}

#[test]
fn single_slot_randomize_rolls_back_when_the_charge_is_not_covered() {
    // the single-slot draw ignores cost, so the settlement can fail; the
    // edit must then leave slot and ledger exactly as they were
    let catalog = catalog_of(vec![], vec![tool("Dusters", 150)], vec![]);
    let config = Config::default();
    let mut loadout = Loadout::default();
    let mut budget = Budget::default();
    set_budget(&mut budget, 600).unwrap();
    budget.weapons_budget = 10;
    let mut rng = seeded(5);
    random_tool(&mut loadout, &mut budget, &config, 0, &mut rng, &catalog);
    assert!(loadout.tools[0].item.is_none());
    assert_eq!(budget.weapons_budget, 10);
    assert_eq!(budget.total_cost, 0);
}

#[test]
fn select_ammo_rolls_back_when_the_round_is_not_covered() {
    let mut loadout = Loadout::default();
    let mut budget = Budget::default();
    set_budget(&mut budget, 600).unwrap();
    select_weapon(&mut loadout, &mut budget, 0, Some(weapon("Springfield 1866", Slot::Medium, 33)));
    budget.weapons_budget = 5;
    select_ammo(
        &mut loadout,
        &mut budget,
        0,
        0,
        (BulletSize::Long, Some(BulletVariant::DumDum), 20),
    );
    let item = loadout.weapon_one.item.as_ref().unwrap();
    assert_eq!(item.ammo_equipped, vec![(BulletSize::Long, None, 0)]);
    assert_eq!(budget.weapons_budget, 5);
}

#[test]
fn forced_dual_wield_doubles_the_cost() {
    let catalog = catalog_of(
        vec![weapon("Scottfield Model 3", Slot::Small, 40)],
        vec![],
        vec![],
    );
    let mut rng = seeded(23);
    let mut budget = Budget::default();
    set_budget(&mut budget, 600).unwrap();
    let weapons_start = budget.weapons_budget;
    let mut slot = held(weapon("Scottfield Model 3", Slot::Small, 40), false);
    always_dual_wield(&mut budget, &mut rng, &mut slot, &catalog);
    let item = slot.item.as_ref().unwrap();
    assert!(item.dual_wield);
    assert_eq!(item.get_cost(), 80);
    // the old weapon was never charged, so the refund raises the sub-budget
    // before the doubled charge lands
    assert_eq!(budget.weapons_budget, weapons_start + 40 - 80);
}

#[test]
fn forced_duplication_clones_into_the_unlocked_slot() {
    let mut loadout = Loadout::default();
    loadout.weapon_one = held(weapon("Specter 1882", Slot::Medium, 28), true);
    let mut budget = Budget::default();
    set_budget(&mut budget, 600).unwrap();
    always_duplicate_weapons(&mut loadout, &mut budget);
    let two = loadout.weapon_two.item.as_ref().unwrap();
    assert_eq!(two.name, "Specter 1882");
    // cloning copies the whole slot, lock included
    assert!(loadout.weapon_two.locked);
}

#[test]
fn forced_duplication_never_clones_a_large_weapon() {
    let mut loadout = Loadout::default();
    loadout.weapon_one = held(weapon("Sparks LRR", Slot::Large, 130), false);
    let mut budget = Budget::default();
    set_budget(&mut budget, 600).unwrap();
    always_duplicate_weapons(&mut loadout, &mut budget);
    assert!(loadout.weapon_two.item.is_none());
}

#[test]
fn consumable_fill_draws_only_affordable_entries() {
    let catalog = catalog_of(
        vec![],
        vec![],
        vec![tool("Vitality Shot", 25), tool("Weak Vitality Shot", 12), tool("Flash Bomb", 40)],
    );
    for seed in 0..20u64 {
        let mut rng = seeded(seed);
        let mut loadout = Loadout::default();
        let mut budget = Budget::default();
        set_budget(&mut budget, 600).unwrap();
        budget.consumables_budget = 30;
        random_consumables(&mut loadout, &mut budget, &mut rng, &catalog);
        for slot in &loadout.consumables {
            if let Some(item) = &slot.item {
                assert!(item.get_cost() <= 30);
            }
        }
    }
}

#[test]
fn single_consumable_randomize_commits_through_the_snapshot() {
    let catalog = catalog_of(vec![], vec![], vec![tool("Vitality Shot", 25)]);
    let mut loadout = Loadout::default();
    let mut budget = Budget::default();
    set_budget(&mut budget, 600).unwrap();
    let weapons_before = budget.weapons_budget;
    let mut rng = seeded(31);
    random_consumable(&mut loadout, &mut budget, 3, &mut rng, &catalog);
    assert_eq!(loadout.consumables[3].item.as_ref().unwrap().name, "Vitality Shot");
    // the snapshot settles through the generic item transaction, which
    // charges the weapons sub-budget
    assert_eq!(budget.weapons_budget, weapons_before - 25);
}

#[test]
fn select_and_delete_consumable_round_trip_the_ledger() {
    let mut loadout = Loadout::default();
    let mut budget = Budget::default();
    set_budget(&mut budget, 600).unwrap();
    let weapons_before = budget.weapons_budget;
    select_consumable(&mut loadout, &mut budget, 0, Some(tool("Vitality Shot", 25)));
    assert!(loadout.consumables[0].locked);
    delete_consumable(&mut loadout, &mut budget, 0);
    assert!(loadout.consumables[0].item.is_none());
    assert_eq!(budget.weapons_budget, weapons_before);
}

#[test]
fn delete_tool_empties_and_refunds() {
    let mut loadout = Loadout::default();
    let mut budget = Budget::default();
    set_budget(&mut budget, 600).unwrap();
    let weapons_before = budget.weapons_budget;
    select_tool(&mut loadout, &mut budget, 1, Some(tool("Dusters", 15)));
    delete_tool(&mut loadout, &mut budget, 1);
    assert!(loadout.tools[1].item.is_none());
    assert!(!loadout.tools[1].locked);
    assert_eq!(budget.weapons_budget, weapons_before);
}

#[test]
fn toggle_tool_lock_flips_only_the_lock() {
    let mut loadout = Loadout::default();
    toggle_tool_lock(&mut loadout, 3);
    assert!(loadout.tools[3].locked);
    assert!(loadout.tools[3].item.is_none());
    toggle_tool_lock(&mut loadout, 3);
    assert!(!loadout.tools[3].locked);
}

#[test]
fn second_slot_randomize_leaves_the_first_alone() {
    let catalog = catalog_of(
        vec![weapon("Romero 77", Slot::Large, 30), weapon("Bornheim No. 3", Slot::Small, 25)],
        vec![],
        vec![],
    );
    let config = Config::default();
    let mut loadout = Loadout::default();
    loadout.weapon_one = held(weapon("Romero 77", Slot::Large, 30), true);
    let mut budget = Budget::default();
    set_budget(&mut budget, 600).unwrap();
    let mut rng = seeded(19);
    random_weapon_two(&mut loadout, &mut budget, &config, &mut rng, &catalog);
    assert_eq!(loadout.weapon_one.item.as_ref().unwrap().name, "Romero 77");
    assert!(loadout.weapon_one.locked);
}

