//! The weapon assignment engine: the initial fill of a weapon slot, the
//! quartermaster normalization, forced dual-wield, weapon de-duplication,
//! forced duplication, per-weapon ammunition selection, and the final
//! ordering of the pair.

use vstd::prelude::*;

use crate::budget::{apply_transaction, apply_transactions, balances_eq, transaction_ok, Budget,
    BudgetView, TransactionView};
use crate::content::{BulletSize, Slot};
use crate::core_search_util::{dual_wieldable_of, items_view, weapon_item_wf,
    weapons_of_sizes, CatalogView, CoreSearchUtil};
use crate::generic_item::{bullet_variant_choices, effective_cost, first_bullet_size,
    occupied_slot, CustomAmmo, GenericItem, GenericItemLockable, ItemView, LockableItemView};
use crate::rng::rng_index;
use crate::loadout::{ammo_cost_sum, ammo_tx, get_valid_slots, item_lte_cost,
    locked_funds_message, slot_cost_ok, slot_size_ok, transaction_from_weapon, valid_paired_sizes,
    weapon_tx, with_default_ammo, Loadout, LoadoutError, LoadoutErrorView, LoadoutView};

verus! {

/// The budget after refunding an item's own cost, if one is there.
pub open spec fn apply_opt_refund(b: BudgetView, item: Option<ItemView>) -> BudgetView {
    match item {
        Some(v) => apply_transaction(b, weapon_tx(v, true)),
        None => b,
    }
}

/// The budget after charging an item's own cost, if one is there.
pub open spec fn apply_opt_purchase(b: BudgetView, item: Option<ItemView>) -> BudgetView {
    match item {
        Some(v) => apply_transaction(b, weapon_tx(v, false)),
        None => b,
    }
}

/// The pool the initial fill draws from: weapons of a size that pairs with
/// the checked slot's item, or the whole weapon catalog when the checked
/// slot is empty.
pub open spec fn initial_pool(
    catalog: CatalogView,
    quartermaster: bool,
    check: LockableItemView,
) -> Seq<ItemView> {
    match check.item {
        Some(c) => weapons_of_sizes(
            catalog.weapons,
            valid_paired_sizes(quartermaster, occupied_slot(c)),
        ),
        None => catalog.weapons,
    }
}

/// The loadout with an insufficient-funds error recorded against a weapon
/// slot.
pub open spec fn with_weapon_error(l: LoadoutView, slot: u8) -> LoadoutView {
    LoadoutView {
        errors: l.errors.push(
            LoadoutErrorView::Weapon { error: locked_funds_message(), slot },
        ),
        ..l
    }
}

/// Every member of a pool of catalog weapons is a well-formed catalog
/// entry.
proof fn lemma_pool_items_wf(catalog: CatalogView, pool: Seq<ItemView>)
    requires
        catalog.wf(),
        forall|j: int| 0 <= j < pool.len() ==> catalog.weapons.contains(#[trigger] pool[j]),
    ensures
        forall|j: int| 0 <= j < pool.len() ==> weapon_item_wf(#[trigger] pool[j]),
{
    assert forall|j: int| 0 <= j < pool.len() implies weapon_item_wf(#[trigger] pool[j]) by {
        let k = choose|k: int|
            0 <= k < catalog.weapons.len() && catalog.weapons[k] == pool[j];
        assert(weapon_item_wf(catalog.weapons[k]));
    }
}

/// Fills one weapon slot. A locked, occupied slot is re-charged and kept,
/// an error being recorded if the budget cannot cover it. An unlocked slot
/// draws uniformly from the weapons whose size pairs with the checked
/// slot's item (or from the whole catalog), among those the weapons
/// sub-budget can afford, and charges the draw; it is left empty exactly
/// when no candidate is affordable.
pub fn initial_weapon(
    loadout: &mut Loadout,
    budget: &mut Budget,
    rng: &mut rand::rngs::StdRng,
    quartermaster: bool,
    weapon: &mut GenericItemLockable,
    check: &GenericItemLockable,
    catalog: &CoreSearchUtil,
)
    requires
        catalog@.wf(),
        slot_cost_ok(old(weapon)@),
        slot_size_ok(check@),
    ensures
        old(weapon)@.locked && old(weapon)@.item is Some ==> final(weapon)@ == old(weapon)@
            && final(budget)@ == apply_transaction(
            old(budget)@,
            weapon_tx(old(weapon)@.item->Some_0, false),
        ) && (if transaction_ok(old(budget)@, weapon_tx(old(weapon)@.item->Some_0, false)) {
            final(loadout)@ == old(loadout)@
        } else {
            final(loadout)@ == with_weapon_error(old(loadout)@, 0)
        }),
        old(weapon)@.locked && old(weapon)@.item is None ==> final(weapon)@ == old(weapon)@
            && final(budget)@ == old(budget)@ && final(loadout)@ == old(loadout)@,
        !old(weapon)@.locked ==> final(loadout)@ == old(loadout)@ && !final(weapon)@.locked
            && (match final(weapon)@.item {
            Some(w) => initial_pool(catalog@, quartermaster, check@).contains(w)
                && weapon_item_wf(w) && effective_cost(w) <= old(budget)@.weapons_budget
                && final(budget)@ == apply_transaction(old(budget)@, weapon_tx(w, false)),
            None => final(budget)@ == old(budget)@ && (forall|k: int|
                0 <= k < initial_pool(catalog@, quartermaster, check@).len()
                    ==> effective_cost(#[trigger] initial_pool(catalog@, quartermaster, check@)[k])
                    > old(budget)@.weapons_budget),
        }),
{
    if weapon.locked {
        match &weapon.item {
            Some(w) => {
                let tx_res = transaction_from_weapon(budget, w, false);
                match tx_res {
                    Ok(_) => {},
                    Err(_) => {
                        loadout.errors.push(
                            LoadoutError::Weapon {
                                error:
                                    "Insufficient Funds, try unlocking this item or increase your budget.".to_owned(),
                                slot: 0,
                            },
                        );
                        proof {
                            assert(crate::loadout::errors_view(loadout.errors@)
                                =~= old(loadout)@.errors.push(
                                LoadoutErrorView::Weapon {
                                    error: locked_funds_message(),
                                    slot: 0,
                                },
                            ));
                        }
                    },
                }
            },
            None => {},
        }
    } else {
        let new_weapon = match &check.item {
            Some(check_weapon) => {
                let slot = check_weapon.get_slot();
                let valid_slots = get_valid_slots(quartermaster, &slot);
                let weapons = catalog.get_weapons_by_sizes(&valid_slots);
                proof {
                    lemma_pool_items_wf(catalog@, items_view(weapons@));
                }
                item_lte_cost(&weapons, budget.weapons_budget, rng)
            },
            None => {
                proof {
                    assert forall|k: int|
                        0 <= k < items_view(catalog.weapons@).len() implies effective_cost(
                        #[trigger] items_view(catalog.weapons@)[k],
                    ) <= 65535 by {
                        assert(weapon_item_wf(catalog@.weapons[k]));
                    }
                }
                item_lte_cost(&catalog.weapons, budget.weapons_budget, rng)
            },
        };
        match &new_weapon {
            Some(new_check_weapon) => {
                proof {
                    let pool = initial_pool(catalog@, quartermaster, check@);
                    let j = choose|j: int|
                        0 <= j < pool.len() && pool[j] == new_check_weapon@;
                    if check@.item is Some {
                        lemma_pool_items_wf(catalog@, pool);
                    }
                    assert(weapon_item_wf(new_check_weapon@));
                }
                let _tx = transaction_from_weapon(budget, new_check_weapon, false);
            },
            None => {},
        }
        weapon.item = new_weapon;
    }
}

/// Refunds whatever a weapon slot holds and redraws it from the weapons
/// of the given sizes, under the weapons sub-budget; the slot ends empty
/// exactly when no candidate is affordable after the refund.
fn refund_and_redraw(
    budget: &mut Budget,
    rng: &mut rand::rngs::StdRng,
    catalog: &CoreSearchUtil,
    slot: &mut GenericItemLockable,
    sizes: &Vec<Slot>,
)
    requires
        catalog@.wf(),
        slot_cost_ok(old(slot)@),
    ensures
        final(slot)@.locked == old(slot)@.locked,
        match final(slot)@.item {
            Some(w) => weapons_of_sizes(catalog@.weapons, sizes@).contains(w) && weapon_item_wf(w)
                && effective_cost(w) <= apply_opt_refund(
                old(budget)@,
                old(slot)@.item,
            ).weapons_budget && final(budget)@ == apply_transaction(
                apply_opt_refund(old(budget)@, old(slot)@.item),
                weapon_tx(w, false),
            ),
            None => final(budget)@ == apply_opt_refund(old(budget)@, old(slot)@.item) && (forall|
                k: int,
            |
                0 <= k < weapons_of_sizes(catalog@.weapons, sizes@).len() ==> effective_cost(
                    #[trigger] weapons_of_sizes(catalog@.weapons, sizes@)[k],
                ) > apply_opt_refund(old(budget)@, old(slot)@.item).weapons_budget),
        },
{
    match &slot.item {
        Some(held) => {
            let _tx = transaction_from_weapon(budget, held, true);
        },
        None => {},
    }
    let weapons = catalog.get_weapons_by_sizes(sizes);
    proof {
        lemma_pool_items_wf(catalog@, items_view(weapons@));
    }
    let new_weapon = item_lte_cost(&weapons, budget.weapons_budget, rng);
    match &new_weapon {
        Some(new_check_weapon) => {
            let _tx = transaction_from_weapon(budget, new_check_weapon, false);
        },
        None => {},
    }
    slot.item = new_weapon;
}

/// The pool a one-locked quartermaster redraw uses: weapons of a size
/// pairing (under quartermaster) with the locked slot's item, or of the
/// redrawn slot's canonical size when the locked slot is empty.
pub open spec fn quartermaster_pair_pool(
    catalog: CatalogView,
    locked: LockableItemView,
    canonical: Slot,
) -> Seq<ItemView> {
    match locked.item {
        Some(v) => weapons_of_sizes(catalog.weapons, valid_paired_sizes(true, occupied_slot(v))),
        None => weapons_of_sizes(catalog.weapons, seq![canonical]),
    }
}

fn quartermaster_pair_sizes(locked: &GenericItemLockable, canonical: Slot) -> (r: Vec<Slot>)
    requires
        slot_size_ok(locked@),
    ensures
        r@ == (match locked@.item {
            Some(v) => valid_paired_sizes(true, occupied_slot(v)),
            None => seq![canonical],
        }),
{
    match &locked.item {
        Some(it) => {
            let slot = it.get_slot();
            get_valid_slots(true, &slot)
        },
        None => {
            let mut sizes: Vec<Slot> = Vec::new();
            sizes.push(canonical);
            proof {
                assert(sizes@ =~= seq![canonical]);
            }
            sizes
        },
    }
}

/// Forces the pair into a valid quartermaster shape. With both slots
/// unlocked, the pair collapses to the canonical form: the first slot is
/// refunded and redrawn from the large weapons, the second from the medium
/// ones, each under the weapons sub-budget at its turn and empty exactly
/// when nothing is affordable. With exactly one slot locked, the locked
/// slot is left untouched and the other is refunded and redrawn from the
/// sizes pairing with the locked item (or from its canonical size when the
/// locked slot is empty). A fully locked pair is untouched.
pub fn always_quartermaster(
    loadout: &mut Loadout,
    budget: &mut Budget,
    rng: &mut rand::rngs::StdRng,
    catalog: &CoreSearchUtil,
)
    requires
        catalog@.wf(),
        old(loadout)@.wf(),
    ensures
        final(loadout)@.errors == old(loadout)@.errors,
        final(loadout)@.tools == old(loadout)@.tools,
        final(loadout)@.consumables == old(loadout)@.consumables,
        final(loadout)@.weapon_one.locked == old(loadout)@.weapon_one.locked,
        final(loadout)@.weapon_two.locked == old(loadout)@.weapon_two.locked,
        final(loadout)@.wf(),
        old(loadout)@.weapon_one.locked && old(loadout)@.weapon_two.locked ==> final(loadout)@
            == old(loadout)@ && final(budget)@ == old(budget)@,
        !old(loadout)@.weapon_one.locked && !old(loadout)@.weapon_two.locked ==> {
            &&& (match final(loadout)@.weapon_one.item {
                Some(w) => weapons_of_sizes(catalog@.weapons, seq![Slot::Large]).contains(w)
                    && weapon_item_wf(w) && effective_cost(w) <= apply_opt_refund(
                    old(budget)@,
                    old(loadout)@.weapon_one.item,
                ).weapons_budget,
                None => forall|k: int|
                    0 <= k < weapons_of_sizes(catalog@.weapons, seq![Slot::Large]).len()
                        ==> effective_cost(
                        #[trigger] weapons_of_sizes(catalog@.weapons, seq![Slot::Large])[k],
                    ) > apply_opt_refund(
                        old(budget)@,
                        old(loadout)@.weapon_one.item,
                    ).weapons_budget,
            })
            &&& (match final(loadout)@.weapon_two.item {
                Some(w) => weapons_of_sizes(catalog@.weapons, seq![Slot::Medium]).contains(w)
                    && weapon_item_wf(w) && effective_cost(w) <= apply_opt_refund(
                    apply_opt_purchase(
                        apply_opt_refund(old(budget)@, old(loadout)@.weapon_one.item),
                        final(loadout)@.weapon_one.item,
                    ),
                    old(loadout)@.weapon_two.item,
                ).weapons_budget,
                None => forall|k: int|
                    0 <= k < weapons_of_sizes(catalog@.weapons, seq![Slot::Medium]).len()
                        ==> effective_cost(
                        #[trigger] weapons_of_sizes(catalog@.weapons, seq![Slot::Medium])[k],
                    ) > apply_opt_refund(
                        apply_opt_purchase(
                            apply_opt_refund(old(budget)@, old(loadout)@.weapon_one.item),
                            final(loadout)@.weapon_one.item,
                        ),
                        old(loadout)@.weapon_two.item,
                    ).weapons_budget,
            })
            &&& final(budget)@ == apply_opt_purchase(
                apply_opt_refund(
                    apply_opt_purchase(
                        apply_opt_refund(old(budget)@, old(loadout)@.weapon_one.item),
                        final(loadout)@.weapon_one.item,
                    ),
                    old(loadout)@.weapon_two.item,
                ),
                final(loadout)@.weapon_two.item,
            )
        },
        old(loadout)@.weapon_one.locked && !old(loadout)@.weapon_two.locked ==> final(loadout)@.weapon_one == old(loadout)@.weapon_one && (match final(loadout)@.weapon_two.item {
            Some(w) => quartermaster_pair_pool(
                catalog@,
                old(loadout)@.weapon_one,
                Slot::Medium,
            ).contains(w) && weapon_item_wf(w) && effective_cost(w) <= apply_opt_refund(
                old(budget)@,
                old(loadout)@.weapon_two.item,
            ).weapons_budget && final(budget)@ == apply_transaction(
                apply_opt_refund(old(budget)@, old(loadout)@.weapon_two.item),
                weapon_tx(w, false),
            ),
            None => final(budget)@ == apply_opt_refund(
                old(budget)@,
                old(loadout)@.weapon_two.item,
            ) && forall|k: int|
                0 <= k < quartermaster_pair_pool(
                    catalog@,
                    old(loadout)@.weapon_one,
                    Slot::Medium,
                ).len() ==> effective_cost(
                    #[trigger] quartermaster_pair_pool(
                        catalog@,
                        old(loadout)@.weapon_one,
                        Slot::Medium,
                    )[k],
                ) > apply_opt_refund(
                    old(budget)@,
                    old(loadout)@.weapon_two.item,
                ).weapons_budget,
        }),
        !old(loadout)@.weapon_one.locked && old(loadout)@.weapon_two.locked ==> final(loadout)@.weapon_two == old(loadout)@.weapon_two && (match final(loadout)@.weapon_one.item {
            Some(w) => quartermaster_pair_pool(
                catalog@,
                old(loadout)@.weapon_two,
                Slot::Large,
            ).contains(w) && weapon_item_wf(w) && effective_cost(w) <= apply_opt_refund(
                old(budget)@,
                old(loadout)@.weapon_one.item,
            ).weapons_budget && final(budget)@ == apply_transaction(
                apply_opt_refund(old(budget)@, old(loadout)@.weapon_one.item),
                weapon_tx(w, false),
            ),
            None => final(budget)@ == apply_opt_refund(
                old(budget)@,
                old(loadout)@.weapon_one.item,
            ) && forall|k: int|
                0 <= k < quartermaster_pair_pool(
                    catalog@,
                    old(loadout)@.weapon_two,
                    Slot::Large,
                ).len() ==> effective_cost(
                    #[trigger] quartermaster_pair_pool(
                        catalog@,
                        old(loadout)@.weapon_two,
                        Slot::Large,
                    )[k],
                ) > apply_opt_refund(
                    old(budget)@,
                    old(loadout)@.weapon_one.item,
                ).weapons_budget,
        }),
{
    if loadout.weapon_one.locked && loadout.weapon_two.locked {
        return ;
    }
    if !loadout.weapon_one.locked && !loadout.weapon_two.locked {
        let mut large_sizes: Vec<Slot> = Vec::new();
        large_sizes.push(Slot::Large);
        proof {
            assert(large_sizes@ =~= seq![Slot::Large]);
        }
        refund_and_redraw(budget, rng, catalog, &mut loadout.weapon_one, &large_sizes);

        let mut medium_sizes: Vec<Slot> = Vec::new();
        medium_sizes.push(Slot::Medium);
        proof {
            assert(medium_sizes@ =~= seq![Slot::Medium]);
        }
        refund_and_redraw(budget, rng, catalog, &mut loadout.weapon_two, &medium_sizes);
        return ;
    }
    if loadout.weapon_one.locked {
        let sizes = quartermaster_pair_sizes(&loadout.weapon_one, Slot::Medium);
        refund_and_redraw(budget, rng, catalog, &mut loadout.weapon_two, &sizes);
    } else {
        let sizes = quartermaster_pair_sizes(&loadout.weapon_two, Slot::Large);
        refund_and_redraw(budget, rng, catalog, &mut loadout.weapon_one, &sizes);
    }
}

/// An item flagged as dual-wielded.
pub open spec fn as_dual_wield(v: ItemView) -> ItemView {
    ItemView { dual_wield: true, ..v }
}

/// The dual-wield draw pool: every dual-wieldable catalog weapon, flagged
/// as dual-wielded, which doubles its effective cost.
pub open spec fn dual_pool(catalog: CatalogView) -> Seq<ItemView> {
    dual_wieldable_of(catalog.weapons).map_values(|v: ItemView| as_dual_wield(v))
}

/// Replaces an unlocked, held, not-yet-dual-wielded weapon by a random
/// dual-wieldable weapon flagged as dual-wielded, refunding the old weapon
/// and charging the doubled cost of the new one; the slot is left empty
/// when no dual-wield candidate is affordable. Locked, empty or already
/// dual-wielded slots are untouched.
pub fn always_dual_wield(
    budget: &mut Budget,
    rng: &mut rand::rngs::StdRng,
    weapon: &mut GenericItemLockable,
    catalog: &CoreSearchUtil,
)
    requires
        catalog@.wf(),
        slot_cost_ok(old(weapon)@),
    ensures
        old(weapon)@.locked || old(weapon)@.item is None
            || old(weapon)@.item->Some_0.dual_wield ==> final(weapon)@ == old(weapon)@
            && final(budget)@ == old(budget)@,
        !old(weapon)@.locked && old(weapon)@.item is Some
            && !old(weapon)@.item->Some_0.dual_wield ==> !final(weapon)@.locked
            && (match final(weapon)@.item {
            Some(w) => dual_pool(catalog@).contains(w) && w.dual_wield && effective_cost(w)
                <= apply_opt_refund(old(budget)@, old(weapon)@.item).weapons_budget
                && final(budget)@ == apply_transaction(
                apply_opt_refund(old(budget)@, old(weapon)@.item),
                weapon_tx(w, false),
            ),
            None => final(budget)@ == apply_opt_refund(old(budget)@, old(weapon)@.item) && (
            forall|k: int|
                0 <= k < dual_pool(catalog@).len() ==> effective_cost(
                    #[trigger] dual_pool(catalog@)[k],
                ) > apply_opt_refund(old(budget)@, old(weapon)@.item).weapons_budget),
        }),
{
    if weapon.locked {
        return ;
    }
    let is_held = match &weapon.item {
        Some(w) => !w.dual_wield,
        None => false,
    };
    if !is_held {
        return ;
    }

    let base = catalog.get_dual_wield_weapons();
    let mut search_weapons: Vec<GenericItem> = Vec::new();
    let mut i: usize = 0;
    while i < base.len()
        invariant
            i <= base@.len(),
            search_weapons@.len() == i,
            forall|k: int|
                0 <= k < i ==> (#[trigger] items_view(search_weapons@)[k]) == as_dual_wield(
                    items_view(base@)[k],
                ),
        decreases base@.len() - i,
    {
        let mut w = base[i].clone();
        w.dual_wield = true;
        let ghost prev = search_weapons@;
        search_weapons.push(w);
        proof {
            assert forall|k: int|
                0 <= k < i + 1 implies (#[trigger] items_view(search_weapons@)[k])
                == as_dual_wield(items_view(base@)[k]) by {
                if k < i {
                    assert(search_weapons@[k] == prev[k]);
                    assert(items_view(prev)[k] == as_dual_wield(items_view(base@)[k]));
                } else {
                    assert(items_view(search_weapons@)[k] == search_weapons@[k]@);
                    assert(items_view(base@)[k] == base@[k]@);
                }
            }
        }
        i = i + 1;
    }
    proof {
        assert(items_view(search_weapons@) =~= dual_pool(catalog@));
        lemma_pool_items_wf(catalog@, items_view(base@));
        assert forall|k: int|
            0 <= k < items_view(search_weapons@).len() implies effective_cost(
            #[trigger] items_view(search_weapons@)[k],
        ) <= 65535 by {
            assert(items_view(search_weapons@)[k] == as_dual_wield(items_view(base@)[k]));
            assert(weapon_item_wf(items_view(base@)[k]));
        }
    }

    match &weapon.item {
        Some(weapon_check) => {
            let _tx = transaction_from_weapon(budget, weapon_check, true);
        },
        None => {},
    }

    let new_weapon = item_lte_cost(&search_weapons, budget.weapons_budget, rng);
    match &new_weapon {
        Some(new_check_weapon) => {
            let _tx = transaction_from_weapon(budget, new_check_weapon, false);
        },
        None => {},
    }
    weapon.item = new_weapon;
}

/// The loadout after the weapon pair is put in display order: with both
/// slots unlocked, a large weapon moves to the first slot ahead of a
/// smaller one, two same-size weapons are ordered long-ammunition first,
/// and a lone weapon moves to the first slot. Locked pairs keep their
/// order.
pub open spec fn sorted_weapon_pair(l: LoadoutView) -> LoadoutView {
    if !l.weapon_one.locked && !l.weapon_two.locked {
        match (l.weapon_one.item, l.weapon_two.item) {
            (Some(a), Some(b)) => {
                let swapped = LoadoutView {
                    weapon_one: LockableItemView { item: Some(b), ..l.weapon_one },
                    weapon_two: LockableItemView { item: Some(a), ..l.weapon_two },
                    ..l
                };
                match (occupied_slot(a), occupied_slot(b)) {
                    (Slot::Small, Slot::Large) => swapped,
                    (Slot::Medium, Slot::Large) => swapped,
                    (Slot::Medium, Slot::Medium) | (Slot::Small, Slot::Small) => match (
                        first_bullet_size(a.usage_types),
                        first_bullet_size(b.usage_types),
                    ) {
                        (Some(BulletSize::Compact), Some(_)) => swapped,
                        (Some(BulletSize::Medium), Some(_)) => swapped,
                        (Some(BulletSize::Special), Some(_)) => swapped,
                        _ => l,
                    },
                    _ => l,
                }
            },
            (None, Some(b)) => LoadoutView {
                weapon_one: LockableItemView { item: Some(b), ..l.weapon_one },
                weapon_two: LockableItemView { item: None, ..l.weapon_two },
                ..l
            },
            _ => l,
        }
    } else {
        l
    }
}

/// Puts the weapon pair in display order; see `sorted_weapon_pair`.
pub fn sort_weapons(loadout: &mut Loadout)
    requires
        slot_size_ok(old(loadout)@.weapon_one),
        slot_size_ok(old(loadout)@.weapon_two),
    ensures
        final(loadout)@ == sorted_weapon_pair(old(loadout)@),
{
    if !loadout.weapon_one.locked && !loadout.weapon_two.locked {
        let has_one = match &loadout.weapon_one.item {
            Some(_) => true,
            None => false,
        };
        let has_two = match &loadout.weapon_two.item {
            Some(_) => true,
            None => false,
        };
        if has_one && has_two {
            let mut swap = false;
            match (&loadout.weapon_one.item, &loadout.weapon_two.item) {
                (Some(weapon_one), Some(weapon_two)) => {
                    let slot_one = weapon_one.get_slot();
                    let slot_two = weapon_two.get_slot();
                    match (slot_one, slot_two) {
                        (Slot::Small, Slot::Large) | (Slot::Medium, Slot::Large) => {
                            swap = true;
                        },
                        (Slot::Medium, Slot::Medium) | (Slot::Small, Slot::Small) => {
                            match (weapon_one.get_bullet_size(), weapon_two.get_bullet_size()) {
                                (Some(BulletSize::Compact), Some(_))
                                | (Some(BulletSize::Medium), Some(_))
                                | (Some(BulletSize::Special), Some(_)) => {
                                    swap = true;
                                },
                                _ => {},
                            }
                        },
                        _ => {},
                    }
                },
                _ => {},
            }
            if swap {
                let weapon_one_clone = match &loadout.weapon_one.item {
                    Some(w) => Some(w.clone()),
                    None => None,
                };
                let weapon_two_clone = match &loadout.weapon_two.item {
                    Some(w) => Some(w.clone()),
                    None => None,
                };
                loadout.weapon_one.item = weapon_two_clone;
                loadout.weapon_two.item = weapon_one_clone;
            }
        } else if !has_one && has_two {
            let weapon_two_clone = match &loadout.weapon_two.item {
                Some(w) => Some(w.clone()),
                None => None,
            };
            loadout.weapon_one.item = weapon_two_clone;
            loadout.weapon_two.item = None;
        }
    }
}


/// The pool de-duplication redraws from: weapons whose size pairs with the
/// kept weapon's size.
pub open spec fn dedupe_pool(catalog: CatalogView, quartermaster: bool, keep: ItemView) -> Seq<
    ItemView,
> {
    weapons_of_sizes(catalog.weapons, valid_paired_sizes(quartermaster, occupied_slot(keep)))
}

/// Whether the de-duplication pass replaces the second slot: both slots
/// hold items and the second is unlocked.
pub open spec fn dedupe_replaces_two(l: LoadoutView) -> bool {
    l.weapon_one.item is Some && l.weapon_two.item is Some && !l.weapon_two.locked
}

/// Whether the de-duplication pass replaces the first slot instead: the
/// second is locked and the first is not.
pub open spec fn dedupe_replaces_one(l: LoadoutView) -> bool {
    l.weapon_one.item is Some && l.weapon_two.item is Some && l.weapon_two.locked
        && !l.weapon_one.locked
}

fn dedupe_redraw(
    budget: &mut Budget,
    rng: &mut rand::rngs::StdRng,
    quartermaster: bool,
    catalog: &CoreSearchUtil,
    keep: &GenericItem,
    old_item: &GenericItem,
) -> (r: GenericItem)
    requires
        catalog@.wf(),
        keep@.dual_wield || keep@.slot is Some,
        effective_cost(old_item@) <= 65535,
    ensures
        final(budget)@ == old(budget)@,
        r@ == old_item@ || (dedupe_pool(catalog@, quartermaster, keep@).contains(r@)
            && weapon_item_wf(r@) && effective_cost(r@) <= old(budget)@.weapons_budget),
        (exists|k: int|
            0 <= k < dedupe_pool(catalog@, quartermaster, keep@).len() && effective_cost(
                #[trigger] dedupe_pool(catalog@, quartermaster, keep@)[k],
            ) <= old(budget)@.weapons_budget) && (forall|k: int|
            0 <= k < dedupe_pool(catalog@, quartermaster, keep@).len()
                ==> !crate::generic_item::same_item_spec(
                #[trigger] dedupe_pool(catalog@, quartermaster, keep@)[k],
                keep@,
            )) ==> !crate::generic_item::same_item_spec(r@, keep@),
{
    let mut attempts: usize = 0;
    let mut new_weapon = old_item.clone();
    let ghost pool = dedupe_pool(catalog@, quartermaster, keep@);
    while keep.same_item(&new_weapon) && attempts != 10
        invariant
            catalog@.wf(),
            keep@.dual_wield || keep@.slot is Some,
            pool == dedupe_pool(catalog@, quartermaster, keep@),
            budget@ == old(budget)@,
            attempts <= 10,
            new_weapon@ == old_item@ || (pool.contains(new_weapon@) && weapon_item_wf(new_weapon@)
                && effective_cost(new_weapon@) <= old(budget)@.weapons_budget),
            attempts > 0 && (exists|k: int|
                0 <= k < pool.len() && effective_cost(#[trigger] pool[k])
                    <= old(budget)@.weapons_budget) ==> pool.contains(new_weapon@),
        decreases 10 - attempts,
    {
        let slot = keep.get_slot();
        let valid_slots = get_valid_slots(quartermaster, &slot);
        let weapons = catalog.get_weapons_by_sizes(&valid_slots);
        proof {
            lemma_pool_items_wf(catalog@, items_view(weapons@));
        }
        let rand_weapon = item_lte_cost(&weapons, budget.weapons_budget, rng);
        match rand_weapon {
            Some(new_check_weapon) => {
                proof {
                    let j = choose|j: int|
                        0 <= j < items_view(weapons@).len() && items_view(weapons@)[j]
                            == new_check_weapon@;
                    assert(pool.contains(new_check_weapon@));
                    assert(weapon_item_wf(new_check_weapon@));
                }
                new_weapon = new_check_weapon;
            },
            None => {},
        }
        attempts = attempts + 1;
    }
    new_weapon
}

/// When the two slots hold the same item (and at most one is locked), the
/// unlocked slot is refunded and redrawn, up to ten times, from the
/// weapons whose size pairs with the kept weapon, under the weapons
/// sub-budget; an exhausted retry keeps the duplicate. If some candidate
/// is affordable and no candidate equals the kept weapon, the pair ends
/// distinct. Pairs that are not duplicates, or with no replaceable slot,
/// are untouched.
pub fn dedupe_weapons(
    loadout: &mut Loadout,
    budget: &mut Budget,
    rng: &mut rand::rngs::StdRng,
    quartermaster: bool,
    catalog: &CoreSearchUtil,
)
    requires
        catalog@.wf(),
        old(loadout)@.wf(),
    ensures
        dedupe_replaces_two(old(loadout)@) && crate::generic_item::same_item_spec(
            old(loadout)@.weapon_one.item->Some_0,
            old(loadout)@.weapon_two.item->Some_0,
        ) ==> final(loadout)@.weapon_two.item is Some && (final(loadout)@ == (LoadoutView {
            weapon_two: LockableItemView {
                item: final(loadout)@.weapon_two.item,
                ..old(loadout)@.weapon_two
            },
            ..old(loadout)@
        })) && final(budget)@ == apply_transaction(
            apply_opt_refund(old(budget)@, old(loadout)@.weapon_two.item),
            weapon_tx(final(loadout)@.weapon_two.item->Some_0, false),
        ) && transaction_ok(
            apply_opt_refund(old(budget)@, old(loadout)@.weapon_two.item),
            weapon_tx(final(loadout)@.weapon_two.item->Some_0, false),
        ) && (final(loadout)@.weapon_two.item->Some_0 == old(loadout)@.weapon_two.item->Some_0
            || (dedupe_pool(
            catalog@,
            quartermaster,
            old(loadout)@.weapon_one.item->Some_0,
        ).contains(final(loadout)@.weapon_two.item->Some_0) && weapon_item_wf(
            final(loadout)@.weapon_two.item->Some_0,
        ) && effective_cost(final(loadout)@.weapon_two.item->Some_0) <= apply_opt_refund(
            old(budget)@,
            old(loadout)@.weapon_two.item,
        ).weapons_budget)) && ((exists|k: int|
            0 <= k < dedupe_pool(
                catalog@,
                quartermaster,
                old(loadout)@.weapon_one.item->Some_0,
            ).len() && effective_cost(
                #[trigger] dedupe_pool(
                    catalog@,
                    quartermaster,
                    old(loadout)@.weapon_one.item->Some_0,
                )[k],
            ) <= apply_opt_refund(
                old(budget)@,
                old(loadout)@.weapon_two.item,
            ).weapons_budget) && (forall|k: int|
            0 <= k < dedupe_pool(
                catalog@,
                quartermaster,
                old(loadout)@.weapon_one.item->Some_0,
            ).len() ==> !crate::generic_item::same_item_spec(
                #[trigger] dedupe_pool(
                    catalog@,
                    quartermaster,
                    old(loadout)@.weapon_one.item->Some_0,
                )[k],
                old(loadout)@.weapon_one.item->Some_0,
            )) ==> !crate::generic_item::same_item_spec(
            final(loadout)@.weapon_two.item->Some_0,
            old(loadout)@.weapon_one.item->Some_0,
        )),
        dedupe_replaces_two(old(loadout)@) && !crate::generic_item::same_item_spec(
            old(loadout)@.weapon_one.item->Some_0,
            old(loadout)@.weapon_two.item->Some_0,
        ) ==> final(loadout)@ == old(loadout)@ && final(budget)@ == old(budget)@,
        dedupe_replaces_one(old(loadout)@) && crate::generic_item::same_item_spec(
            old(loadout)@.weapon_one.item->Some_0,
            old(loadout)@.weapon_two.item->Some_0,
        ) ==> final(loadout)@.weapon_one.item is Some && (final(loadout)@ == (LoadoutView {
            weapon_one: LockableItemView {
                item: final(loadout)@.weapon_one.item,
                ..old(loadout)@.weapon_one
            },
            ..old(loadout)@
        })) && final(budget)@ == apply_transaction(
            apply_opt_refund(old(budget)@, old(loadout)@.weapon_one.item),
            weapon_tx(final(loadout)@.weapon_one.item->Some_0, false),
        ) && transaction_ok(
            apply_opt_refund(old(budget)@, old(loadout)@.weapon_one.item),
            weapon_tx(final(loadout)@.weapon_one.item->Some_0, false),
        ) && (final(loadout)@.weapon_one.item->Some_0 == old(loadout)@.weapon_one.item->Some_0
            || (dedupe_pool(
            catalog@,
            quartermaster,
            old(loadout)@.weapon_two.item->Some_0,
        ).contains(final(loadout)@.weapon_one.item->Some_0) && weapon_item_wf(
            final(loadout)@.weapon_one.item->Some_0,
        ) && effective_cost(final(loadout)@.weapon_one.item->Some_0) <= apply_opt_refund(
            old(budget)@,
            old(loadout)@.weapon_one.item,
        ).weapons_budget)),
        dedupe_replaces_one(old(loadout)@) && !crate::generic_item::same_item_spec(
            old(loadout)@.weapon_one.item->Some_0,
            old(loadout)@.weapon_two.item->Some_0,
        ) ==> final(loadout)@ == old(loadout)@ && final(budget)@ == old(budget)@,
        !dedupe_replaces_two(old(loadout)@) && !dedupe_replaces_one(old(loadout)@) ==> final(loadout)@
            == old(loadout)@ && final(budget)@ == old(budget)@,
{
    if !loadout.weapon_two.locked {
        let pair = match (&loadout.weapon_one.item, &loadout.weapon_two.item) {
            (Some(weapon_one), Some(weapon_two)) => Some(
                (weapon_one.clone(), weapon_two.clone()),
            ),
            _ => None,
        };
        match pair {
            Some((weapon_one, weapon_two)) => {
                if !weapon_one.same_item(&weapon_two) {
                    return ;
                }
                let _tx = transaction_from_weapon(budget, &weapon_two, true);
                let new_weapon = dedupe_redraw(
                    budget,
                    rng,
                    quartermaster,
                    catalog,
                    &weapon_one,
                    &weapon_two,
                );
                let tx_res = transaction_from_weapon(budget, &new_weapon, false);
                match tx_res {
                    Ok(_) => {},
                    Err(_) => {
                        proof {
                            assert(false);
                        }
                    },
                }
                loadout.weapon_two.item = Some(new_weapon);
            },
            None => {},
        }
        return ;
    }
    if !loadout.weapon_one.locked {
        let pair = match (&loadout.weapon_one.item, &loadout.weapon_two.item) {
            (Some(weapon_one), Some(weapon_two)) => Some(
                (weapon_one.clone(), weapon_two.clone()),
            ),
            _ => None,
        };
        match pair {
            Some((weapon_one, weapon_two)) => {
                if !weapon_two.same_item(&weapon_one) {
                    proof {
                        assert(!crate::generic_item::same_item_spec(
                            old(loadout)@.weapon_one.item->Some_0,
                            old(loadout)@.weapon_two.item->Some_0,
                        ));
                    }
                    return ;
                }
                let _tx = transaction_from_weapon(budget, &weapon_one, true);
                let new_weapon = dedupe_redraw(
                    budget,
                    rng,
                    quartermaster,
                    catalog,
                    &weapon_two,
                    &weapon_one,
                );
                let tx_res = transaction_from_weapon(budget, &new_weapon, false);
                match tx_res {
                    Ok(_) => {},
                    Err(_) => {
                        proof {
                            assert(false);
                        }
                    },
                }
                loadout.weapon_one.item = Some(new_weapon);
            },
            None => {},
        }
    }
}


/// Whether the forced-duplication pass clones the first weapon into the
/// second slot: the first slot holds a small or medium weapon and the
/// second is unlocked.
pub open spec fn dup_into_two(l: LoadoutView) -> bool {
    !l.weapon_two.locked && l.weapon_one.item is Some && occupied_slot(l.weapon_one.item->Some_0)
        != Slot::Large
}

/// Whether the forced-duplication pass clones the second weapon into the
/// first slot instead.
pub open spec fn dup_into_one(l: LoadoutView) -> bool {
    !l.weapon_one.locked && l.weapon_two.item is Some && occupied_slot(l.weapon_two.item->Some_0)
        != Slot::Large
}

/// Clones one held small or medium weapon into the other, unlocked slot:
/// the target's old item is refunded and the source's cost is charged a
/// second time. If that charge cannot be covered, the refund is reversed
/// and the loadout is left as it was. A large source, or a locked target,
/// leaves everything untouched.
pub fn always_duplicate_weapons(loadout: &mut Loadout, budget: &mut Budget)
    requires
        old(loadout)@.wf(),
    ensures
        dup_into_two(old(loadout)@) ==> (if transaction_ok(
            apply_opt_refund(old(budget)@, old(loadout)@.weapon_two.item),
            weapon_tx(old(loadout)@.weapon_one.item->Some_0, false),
        ) {
            final(loadout)@ == (LoadoutView {
                weapon_two: old(loadout)@.weapon_one,
                ..old(loadout)@
            }) && final(budget)@ == apply_transaction(
                apply_opt_refund(old(budget)@, old(loadout)@.weapon_two.item),
                weapon_tx(old(loadout)@.weapon_one.item->Some_0, false),
            )
        } else {
            final(loadout)@ == old(loadout)@ && final(budget)@ == apply_opt_purchase(
                apply_transaction(
                    apply_opt_refund(old(budget)@, old(loadout)@.weapon_two.item),
                    weapon_tx(old(loadout)@.weapon_one.item->Some_0, false),
                ),
                old(loadout)@.weapon_two.item,
            )
        }),
        !dup_into_two(old(loadout)@) && dup_into_one(old(loadout)@) ==> (if transaction_ok(
            apply_opt_refund(old(budget)@, old(loadout)@.weapon_one.item),
            weapon_tx(old(loadout)@.weapon_two.item->Some_0, false),
        ) {
            final(loadout)@ == (LoadoutView {
                weapon_one: old(loadout)@.weapon_two,
                ..old(loadout)@
            }) && final(budget)@ == apply_transaction(
                apply_opt_refund(old(budget)@, old(loadout)@.weapon_one.item),
                weapon_tx(old(loadout)@.weapon_two.item->Some_0, false),
            )
        } else {
            final(loadout)@ == old(loadout)@ && final(budget)@ == apply_opt_purchase(
                apply_transaction(
                    apply_opt_refund(old(budget)@, old(loadout)@.weapon_one.item),
                    weapon_tx(old(loadout)@.weapon_two.item->Some_0, false),
                ),
                old(loadout)@.weapon_one.item,
            )
        }),
        !dup_into_two(old(loadout)@) && !dup_into_one(old(loadout)@) ==> final(loadout)@ == old(loadout)@ && final(budget)@ == old(budget)@,
{
    if !loadout.weapon_two.locked {
        let source = match &loadout.weapon_one.item {
            Some(weapon_one) => Some(weapon_one.clone()),
            None => None,
        };
        match source {
            Some(weapon_one) => {
                match weapon_one.get_slot() {
                    Slot::Small | Slot::Medium => {
                        match &loadout.weapon_two.item {
                            Some(weapon_two) => {
                                let _tx = transaction_from_weapon(budget, weapon_two, true);
                            },
                            None => {},
                        }
                        let tx_res = transaction_from_weapon(budget, &weapon_one, false);
                        match tx_res {
                            Ok(_) => {
                                loadout.weapon_two = loadout.weapon_one.clone();
                            },
                            Err(_) => {
                                let rollback = match &loadout.weapon_two.item {
                                    Some(weapon_two) => Some(weapon_two.clone()),
                                    None => None,
                                };
                                match rollback {
                                    Some(weapon_two) => {
                                        let _tx = transaction_from_weapon(
                                            budget,
                                            &weapon_two,
                                            false,
                                        );
                                    },
                                    None => {},
                                }
                            },
                        }
                        return ;
                    },
                    Slot::Large => {},
                }
            },
            None => {},
        }
    }

    if !loadout.weapon_one.locked {
        let source = match &loadout.weapon_two.item {
            Some(weapon_two) => Some(weapon_two.clone()),
            None => None,
        };
        match source {
            Some(weapon_two) => {
                match weapon_two.get_slot() {
                    Slot::Small | Slot::Medium => {
                        match &loadout.weapon_one.item {
                            Some(weapon_one) => {
                                let _tx = transaction_from_weapon(budget, weapon_one, true);
                            },
                            None => {},
                        }
                        let tx_res = transaction_from_weapon(budget, &weapon_two, false);
                        match tx_res {
                            Ok(_) => {
                                loadout.weapon_one = loadout.weapon_two.clone();
                            },
                            Err(_) => {
                                let rollback = match &loadout.weapon_one.item {
                                    Some(weapon_one) => Some(weapon_one.clone()),
                                    None => None,
                                };
                                match rollback {
                                    Some(weapon_one) => {
                                        let _tx = transaction_from_weapon(
                                            budget,
                                            &weapon_one,
                                            false,
                                        );
                                    },
                                    None => {},
                                }
                            },
                        }
                    },
                    Slot::Large => {},
                }
            },
            None => {},
        }
    }
}


/// The purchase transactions for the rounds of an item that name a custom
/// variant, in order.
pub open spec fn variant_ammo_txs(ammo: Seq<CustomAmmo>) -> Seq<TransactionView>
    decreases ammo.len(),
{
    if ammo.len() == 0 {
        Seq::empty()
    } else {
        variant_ammo_txs(ammo.drop_last()) + (if ammo.last().1 is Some {
            seq![ammo_tx(ammo.last(), false)]
        } else {
            Seq::<TransactionView>::empty()
        })
    }
}

proof fn lemma_variant_txs_push(s: Seq<CustomAmmo>, a: CustomAmmo)
    ensures
        variant_ammo_txs(s.push(a)) == variant_ammo_txs(s) + (if a.1 is Some {
            seq![ammo_tx(a, false)]
        } else {
            Seq::<TransactionView>::empty()
        }),
{
    assert(s.push(a).drop_last() =~= s);
    assert(s.push(a).last() == a);
}

proof fn lemma_variant_txs_take_step(ammo: Seq<CustomAmmo>, i: int)
    requires
        0 <= i < ammo.len(),
    ensures
        variant_ammo_txs(ammo.take(i + 1)) == variant_ammo_txs(ammo.take(i)) + (if ammo[i].1
            is Some {
            seq![ammo_tx(ammo[i], false)]
        } else {
            Seq::<TransactionView>::empty()
        }),
{
    assert(ammo.take(i + 1).drop_last() =~= ammo.take(i));
    assert(ammo.take(i + 1).last() == ammo[i]);
}

proof fn lemma_cost_sum_push(s: Seq<CustomAmmo>, a: CustomAmmo)
    ensures
        ammo_cost_sum(s.push(a)) == ammo_cost_sum(s) + a.2,
{
    assert(s.push(a).drop_last() =~= s);
    assert(s.push(a).last() == a);
}

/// Applying one transaction to two budgets with equal balances keeps the
/// balances equal, and it succeeds on one exactly when it succeeds on the
/// other.
proof fn lemma_apply_tx_balances(x: BudgetView, y: BudgetView, t: TransactionView)
    requires
        balances_eq(x, y),
    ensures
        balances_eq(apply_transaction(x, t), apply_transaction(y, t)),
        transaction_ok(x, t) == transaction_ok(y, t),
{
}

/// The free default round of a weapon.
pub open spec fn default_round(v: ItemView) -> CustomAmmo {
    (first_bullet_size(v.usage_types)->Some_0, None, 0u16)
}

/// Whether every equipped round is either one of the weapon's offered
/// priced variants or its free default round.
pub open spec fn rounds_from_choices(ammo: Seq<CustomAmmo>, v: ItemView) -> bool {
    forall|k: int|
        0 <= k < ammo.len() ==> (bullet_variant_choices(v).contains(#[trigger] ammo[k]) || ammo[k]
            == default_round(v))
}

proof fn lemma_choices_bullets_variants(
    bs: Seq<crate::generic_item::BulletView>,
    size: BulletSize,
    halved: bool,
)
    ensures
        forall|k: int|
            0 <= k < crate::generic_item::choices_of_bullets(bs, size, halved).len() ==> (
            #[trigger] crate::generic_item::choices_of_bullets(bs, size, halved)[k]).1 is Some,
    decreases bs.len(),
{
    if bs.len() > 0 {
        lemma_choices_bullets_variants(bs.drop_last(), size, halved);
    }
}

proof fn lemma_choices_usages_variants(us: Seq<crate::generic_item::UsageView>, halved: bool)
    ensures
        forall|k: int|
            0 <= k < crate::generic_item::choices_of_usages(us, halved).len() ==> (
            #[trigger] crate::generic_item::choices_of_usages(us, halved)[k]).1 is Some,
    decreases us.len(),
{
    if us.len() > 0 {
        lemma_choices_usages_variants(us.drop_last(), halved);
        match us.last() {
            crate::generic_item::UsageView::Shoot { bullet_size, bullets } => {
                lemma_choices_bullets_variants(bullets, bullet_size, halved);
            },
            _ => {},
        }
    }
}

/// Every offered round choice names a custom variant.
proof fn lemma_choices_have_variants(v: ItemView)
    ensures
        forall|k: int|
            0 <= k < bullet_variant_choices(v).len()
                ==> (#[trigger] bullet_variant_choices(v)[k]).1 is Some,
{
    lemma_choices_usages_variants(v.usage_types, v.additional_ammo_slots == Some(true));
}

/// One ammo-slot draw: picks a random priced variant, charges it, and
/// keeps it when the charge is covered. Maintains the ledger relation
/// between the budget and the rounds kept so far.
fn draw_and_charge_round(
    budget: &mut Budget,
    rng: &mut rand::rngs::StdRng,
    bullet_types: &Vec<CustomAmmo>,
    new_ammo: &mut Vec<CustomAmmo>,
    Ghost(v): Ghost<ItemView>,
    Ghost(b0): Ghost<BudgetView>,
)
    requires
        bullet_types@ == bullet_variant_choices(v),
        bullet_types@.len() > 0,
        balances_eq(old(budget)@, apply_transactions(b0, variant_ammo_txs(old(new_ammo)@))),
        old(budget)@.weapons_budget == b0.weapons_budget - ammo_cost_sum(old(new_ammo)@),
        rounds_from_choices(old(new_ammo)@, v),
    ensures
        balances_eq(final(budget)@, apply_transactions(b0, variant_ammo_txs(final(new_ammo)@))),
        final(budget)@.weapons_budget == b0.weapons_budget - ammo_cost_sum(final(new_ammo)@),
        rounds_from_choices(final(new_ammo)@, v),
        old(new_ammo)@.len() <= final(new_ammo)@.len() <= old(new_ammo)@.len() + 1,
        forall|k: int| 0 <= k < old(new_ammo)@.len() ==> final(new_ammo)@[k] == old(new_ammo)@[k],
        final(new_ammo)@.len() > old(new_ammo)@.len() ==> final(new_ammo)@.last().1 is Some,
        final(new_ammo)@.len() == old(new_ammo)@.len() ==> exists|k: int|
            0 <= k < bullet_variant_choices(v).len() && (#[trigger] bullet_variant_choices(v)[
                k]).2 > final(budget)@.weapons_budget,
{
    let idx = rng_index(rng, bullet_types.len());
    let ammo_type = bullet_types[idx];
    proof {
        assert(bullet_types@[idx as int] == ammo_type);
        assert(bullet_variant_choices(v).contains(ammo_type));
        lemma_choices_have_variants(v);
        assert(ammo_type.1 is Some);
    }
    let ghost fold_prev = apply_transactions(b0, variant_ammo_txs(new_ammo@));
    let tx_res = crate::loadout::transaction_from_custom_ammo(budget, &ammo_type);
    proof {
        lemma_apply_tx_balances(old(budget)@, fold_prev, ammo_tx(ammo_type, false));
    }
    match tx_res {
        Ok(_) => {
            let ghost prev = new_ammo@;
            new_ammo.push(ammo_type);
            proof {
                lemma_variant_txs_push(prev, ammo_type);
                lemma_cost_sum_push(prev, ammo_type);
                crate::budget::lemma_apply_transactions_concat(
                    b0,
                    variant_ammo_txs(prev),
                    seq![ammo_tx(ammo_type, false)],
                );
                crate::loadout::lemma_apply_one_tx(fold_prev, ammo_tx(ammo_type, false));
                assert forall|k: int|
                    0 <= k < new_ammo@.len() implies (bullet_variant_choices(v).contains(
                    #[trigger] new_ammo@[k],
                ) || new_ammo@[k] == default_round(v)) by {
                    if k < prev.len() {
                        assert(new_ammo@[k] == prev[k]);
                    } else {
                        assert(new_ammo@[k] == ammo_type);
                    }
                }
            }
        },
        Err(_) => {
            proof {
                assert(!crate::budget::transaction_ok(old(budget)@, ammo_tx(ammo_type, false)));
                assert(budget@.weapons_budget < ammo_type.2);
                let k = choose|k: int|
                    0 <= k < bullet_variant_choices(v).len() && bullet_variant_choices(v)[k]
                        == ammo_type;
                assert(bullet_variant_choices(v)[k].2 > budget@.weapons_budget);
            }
        },
    }
}

fn push_default_round(
    new_ammo: &mut Vec<CustomAmmo>,
    size: BulletSize,
    Ghost(v): Ghost<ItemView>,
)
    requires
        first_bullet_size(v.usage_types) == Some(size),
        rounds_from_choices(old(new_ammo)@, v),
    ensures
        final(new_ammo)@ == old(new_ammo)@.push((size, None::<crate::content::BulletVariant>, 0u16)),
        variant_ammo_txs(final(new_ammo)@) == variant_ammo_txs(old(new_ammo)@),
        ammo_cost_sum(final(new_ammo)@) == ammo_cost_sum(old(new_ammo)@),
        rounds_from_choices(final(new_ammo)@, v),
{
    let ghost prev = new_ammo@;
    new_ammo.push((size, None, 0));
    proof {
        lemma_variant_txs_push(prev, (size, None::<crate::content::BulletVariant>, 0u16));
        lemma_cost_sum_push(prev, (size, None::<crate::content::BulletVariant>, 0u16));
        assert(variant_ammo_txs(new_ammo@) =~= variant_ammo_txs(prev));
        assert forall|k: int|
            0 <= k < new_ammo@.len() implies (bullet_variant_choices(v).contains(
            #[trigger] new_ammo@[k],
        ) || new_ammo@[k] == default_round(v)) by {
            if k < prev.len() {
                assert(new_ammo@[k] == prev[k]);
            } else {
                assert(new_ammo@[k] == (size, None::<crate::content::BulletVariant>, 0u16));
                assert(new_ammo@[k] == default_round(v));
            }
        }
    }
}

/// Selects the ammunition of one weapon slot and charges for it.
///
/// A locked slot keeps its selection: unset rounds get the free defaults,
/// and already-equipped custom rounds are re-charged (after cloning or
/// re-locking), each charge logged whether or not it is covered.
///
/// An unlocked held weapon has its rounds redrawn: per ammo slot, a random
/// priced variant is drawn and charged (always when `always` is set,
/// otherwise with one chance in four), the free default round standing in
/// wherever no priced round was drawn or its charge failed; a weapon
/// without priced variants ends with no rounds. Every charged round came
/// from the weapon's own offer, the weapons sub-budget falls by exactly
/// the cost of the rounds kept, and every balance agrees with replaying
/// the kept custom rounds' purchases against the starting budget.
pub fn custom_ammo(
    budget: &mut Budget,
    rng: &mut rand::rngs::StdRng,
    weapon: &mut GenericItemLockable,
    always: bool,
)
    ensures
        old(weapon)@.locked ==> final(weapon)@ == with_default_ammo(old(weapon)@) && (
        if old(weapon)@.item is Some && old(weapon)@.item->Some_0.ammo_equipped.len() > 0 {
            final(budget)@ == apply_transactions(
                old(budget)@,
                variant_ammo_txs(old(weapon)@.item->Some_0.ammo_equipped),
            )
        } else {
            final(budget)@ == old(budget)@
        }),
        !old(weapon)@.locked && old(weapon)@.item is None ==> final(weapon)@ == old(weapon)@
            && final(budget)@ == old(budget)@,
        !old(weapon)@.locked && old(weapon)@.item is Some ==> !final(weapon)@.locked
            && final(weapon)@.item is Some && (final(weapon)@.item->Some_0 == (ItemView {
            ammo_equipped: final(weapon)@.item->Some_0.ammo_equipped,
            ..old(weapon)@.item->Some_0
        })) && (if bullet_variant_choices(old(weapon)@.item->Some_0).len() == 0 {
            final(budget)@ == old(budget)@ && final(weapon)@.item->Some_0.ammo_equipped == (
            match first_bullet_size(old(weapon)@.item->Some_0.usage_types) {
                Some(size) => crate::loadout::default_ammo_for(old(weapon)@.item->Some_0, size),
                None => Seq::<CustomAmmo>::empty(),
            })
        } else {
            rounds_from_choices(
                final(weapon)@.item->Some_0.ammo_equipped,
                old(weapon)@.item->Some_0,
            ) && (first_bullet_size(old(weapon)@.item->Some_0.usage_types) is Some
                ==> final(weapon)@.item->Some_0.ammo_equipped.len() == (
            if old(weapon)@.item->Some_0.additional_ammo_slots == Some(true) {
                2int
            } else {
                1int
            })) && balances_eq(
                final(budget)@,
                apply_transactions(
                    old(budget)@,
                    variant_ammo_txs(final(weapon)@.item->Some_0.ammo_equipped),
                ),
            ) && final(budget)@.weapons_budget == old(budget)@.weapons_budget - ammo_cost_sum(
                final(weapon)@.item->Some_0.ammo_equipped,
            ) && ammo_cost_sum(final(weapon)@.item->Some_0.ammo_equipped)
                <= old(budget)@.weapons_budget && (always ==> (forall|k: int|
                0 <= k < final(weapon)@.item->Some_0.ammo_equipped.len()
                    ==> (#[trigger] final(weapon)@.item->Some_0.ammo_equipped[k]).1 is Some) || (
            exists|k: int|
                0 <= k < bullet_variant_choices(old(weapon)@.item->Some_0).len()
                    && (#[trigger] bullet_variant_choices(old(weapon)@.item->Some_0)[k]).2
                    > final(budget)@.weapons_budget))
        }),
{
    if weapon.locked {
        if crate::loadout::set_default_ammo(weapon) {
            return ;
        }
        match &weapon.item {
            Some(w) => {
                let ghost ammo = w@.ammo_equipped;
                let mut i: usize = 0;
                proof {
                    assert(ammo.take(0) =~= Seq::<CustomAmmo>::empty());
                    assert(apply_transactions(old(budget)@, variant_ammo_txs(ammo.take(0)))
                        == old(budget)@);
                }
                while i < w.ammo_equipped.len()
                    invariant
                        i <= w.ammo_equipped@.len(),
                        ammo == w@.ammo_equipped,
                        budget@ == apply_transactions(
                            old(budget)@,
                            variant_ammo_txs(ammo.take(i as int)),
                        ),
                    decreases w.ammo_equipped@.len() - i,
                {
                    let ammo_type = w.ammo_equipped[i];
                    proof {
                        lemma_variant_txs_take_step(ammo, i as int);
                    }
                    let has_variant = match &ammo_type.1 {
                        Some(_) => true,
                        None => false,
                    };
                    if has_variant {
                        let _tx = crate::loadout::transaction_from_custom_ammo(budget, &ammo_type);
                        proof {
                            crate::budget::lemma_apply_transactions_concat(
                                old(budget)@,
                                variant_ammo_txs(ammo.take(i as int)),
                                seq![ammo_tx(ammo[i as int], false)],
                            );
                            crate::loadout::lemma_apply_one_tx(
                                apply_transactions(
                                    old(budget)@,
                                    variant_ammo_txs(ammo.take(i as int)),
                                ),
                                ammo_tx(ammo[i as int], false),
                            );
                        }
                    } else {
                        proof {
                            assert(variant_ammo_txs(ammo.take(i as int))
                                + Seq::<TransactionView>::empty() =~= variant_ammo_txs(
                                ammo.take(i as int),
                            ));
                        }
                    }
                    i = i + 1;
                }
                proof {
                    assert(ammo.take(ammo.len() as int) =~= ammo);
                }
            },
            None => {},
        }
        return ;
    }

    match &mut weapon.item {
        Some(w) => {
            let ghost v = w@;
            let bullet_types = w.get_bullet_variants();
            if bullet_types.len() == 0 {
                match w.get_bullet_size() {
                    Some(bullet_size) => {
                        let additional = match w.additional_ammo_slots {
                            Some(b) => b,
                            None => false,
                        };
                        let mut defaults: Vec<CustomAmmo> = Vec::new();
                        defaults.push((bullet_size, None, 0));
                        if additional {
                            defaults.push((bullet_size, None, 0));
                        }
                        proof {
                            assert(defaults@ =~= crate::loadout::default_ammo_for(
                                v,
                                first_bullet_size(v.usage_types)->Some_0,
                            ));
                        }
                        w.ammo_equipped = defaults;
                    },
                    None => {
                        w.ammo_equipped = Vec::new();
                    },
                }
                return ;
            }
            let additional = match w.additional_ammo_slots {
                Some(b) => b,
                None => false,
            };
            let size_opt = w.get_bullet_size();
            let ghost b0 = budget@;
            let mut new_ammo: Vec<CustomAmmo> = Vec::new();
            proof {
                assert(variant_ammo_txs(new_ammo@) =~= Seq::<TransactionView>::empty());
                assert(apply_transactions(b0, variant_ammo_txs(new_ammo@)) == b0);
            }

            let ghost choices = bullet_variant_choices(v);
            if always {
                let ghost a0 = new_ammo@;
                draw_and_charge_round(budget, rng, &bullet_types, &mut new_ammo, Ghost(v), Ghost(b0));
                let ghost a1 = new_ammo@;
                proof {
                    if a1.len() > a0.len() {
                        assert(a1 =~= a0.push(a1.last()));
                    }
                    assert((a1.len() == 1 && (forall|k: int|
                        0 <= k < a1.len() ==> (#[trigger] a1[k]).1 is Some)) || (exists|k: int|
                        0 <= k < choices.len() && (#[trigger] choices[k]).2
                            > budget@.weapons_budget));
                }
                if additional {
                    let ghost w1bud = budget@.weapons_budget;
                    draw_and_charge_round(
                        budget,
                        rng,
                        &bullet_types,
                        &mut new_ammo,
                        Ghost(v),
                        Ghost(b0),
                    );
                    proof {
                        if new_ammo@.len() > a1.len() {
                            assert(new_ammo@ =~= a1.push(new_ammo@.last()));
                            lemma_cost_sum_push(a1, new_ammo@.last());
                        } else {
                            assert(new_ammo@ =~= a1);
                        }
                        assert(budget@.weapons_budget <= w1bud);
                        assert((new_ammo@.len() == 2 && (forall|k: int|
                            0 <= k < new_ammo@.len() ==> (#[trigger] new_ammo@[k]).1 is Some)) || (
                        exists|k: int|
                            0 <= k < choices.len() && (#[trigger] choices[k]).2
                                > budget@.weapons_budget));
                    }
                }
            } else {
                let chance1 = rng_index(rng, 4) == 0;
                if chance1 {
                    draw_and_charge_round(
                        budget,
                        rng,
                        &bullet_types,
                        &mut new_ammo,
                        Ghost(v),
                        Ghost(b0),
                    );
                } else {
                    match &size_opt {
                        Some(bullet_size) => {
                            push_default_round(&mut new_ammo, *bullet_size, Ghost(v));
                        },
                        None => {},
                    }
                }
                let chance2 = rng_index(rng, 4) == 0;
                if chance2 && additional {
                    draw_and_charge_round(
                        budget,
                        rng,
                        &bullet_types,
                        &mut new_ammo,
                        Ghost(v),
                        Ghost(b0),
                    );
                } else if additional {
                    match &size_opt {
                        Some(bullet_size) => {
                            push_default_round(&mut new_ammo, *bullet_size, Ghost(v));
                        },
                        None => {},
                    }
                }
            }

            let ghost pre_fill = new_ammo@;
            let ghost pre_fill_budget = budget@;
            match &size_opt {
                Some(bullet_size) => {
                    if new_ammo.len() == 0 {
                        push_default_round(&mut new_ammo, *bullet_size, Ghost(v));
                        if additional {
                            push_default_round(&mut new_ammo, *bullet_size, Ghost(v));
                        }
                    } else if new_ammo.len() == 1 && additional {
                        push_default_round(&mut new_ammo, *bullet_size, Ghost(v));
                    }
                },
                None => {},
            }
            proof {
                if always {
                    assert(budget@ == pre_fill_budget);
                    if new_ammo@ == pre_fill {
                        assert((forall|k: int|
                            0 <= k < new_ammo@.len() ==> (#[trigger] new_ammo@[k]).1 is Some) || (
                        exists|k: int|
                            0 <= k < choices.len() && (#[trigger] choices[k]).2
                                > budget@.weapons_budget));
                    } else {
                        assert(pre_fill.len() < (if additional {
                            2int
                        } else {
                            1int
                        }));
                        assert(exists|k: int|
                            0 <= k < choices.len() && (#[trigger] choices[k]).2
                                > budget@.weapons_budget);
                    }
                }
            }

            w.ammo_equipped = new_ammo;
        },
        None => {},
    }
}

} // verus!
