//! The top-level operations: re-randomizing one weapon slot through the
//! whole weapon engine behind a budget snapshot, and generating a full
//! loadout — reset, weapons, cascade, tools, cascade, consumables, order.

use vstd::prelude::*;

use crate::budget::{apply_transactions, set_budget, transfer_tools_to_consumables,
    transfer_weapons_to_tools, Budget, BudgetView};
use crate::config::{Config, ConfigView, ToggleOption};
use crate::core_search_util::CoreSearchUtil;
use crate::gear::{all_no_preference, cleared_slots, lemma_blocked_weaken_entry, preference_pool,
    random_consumables, random_tools, reset_consumables, reset_tools, tool_draw_blocked,
    tools_distinct};
use crate::generic_item::{effective_cost, ItemView, LockableItemView};
use crate::loadout::{ammo_cost_sum, lemma_default_ammo_free, lemma_item_purchase_covered,
    lemma_refund_keeps_weapons, purchase_item_checked, purchases_covered, refund_item,
    slot_cost_ok, slot_size_ok, slot_txs, Loadout};
use crate::weapons::{always_dual_wield, always_duplicate_weapons, always_quartermaster,
    custom_ammo, dedupe_weapons, initial_pool, initial_weapon, sort_weapons};

verus! {

/// Whether the rule set leaves the weapon refill plain: none of the
/// always-on passes that replace or empty a freshly drawn weapon is
/// enabled.
pub open spec fn plain_refill(c: ConfigView) -> bool {
    &&& !c.has(ToggleOption::AlwaysQuartermaster)
    &&& !c.has(ToggleOption::AlwaysDualWield)
    &&& !c.has(ToggleOption::AlwaysDuplicateWeapons)
}

/// Whether some member of a pool costs no more than the limit.
pub open spec fn pool_affordable(pool: Seq<ItemView>, limit: u16) -> bool {
    exists|k: int| 0 <= k < pool.len() && effective_cost(#[trigger] pool[k]) <= limit
}

/// The slot holds an unlocked weapon whose full cost fits under `base`,
/// and the scratch ledger has spent exactly that much of its weapons
/// sub-budget.
pub open spec fn refill_track(slotv: LockableItemView, b: BudgetView, base: u16) -> bool {
    &&& slotv.item is Some
    &&& !slotv.locked
    &&& effective_cost(slotv.item->Some_0) <= 65535
    &&& effective_cost(slotv.item->Some_0) + ammo_cost_sum(slotv.item->Some_0.ammo_equipped)
        <= base
    &&& b.weapons_budget == base - effective_cost(slotv.item->Some_0) - ammo_cost_sum(
        slotv.item->Some_0.ammo_equipped,
    )
}

/// Re-randomizes the first weapon slot: the initial fill, the always-on
/// passes and the ammunition pick run against a scratch ledger, while the
/// real edit — refund the old contents, charge the new — settles against a
/// snapshot of the budget taken before the edit. Only when every charge of
/// the new contents is covered does the snapshot become the live budget;
/// otherwise slot and budget roll back whole. With no always-on pass
/// enabled, an unlocked slot is refilled whenever the size-compatible pool
/// has an affordable candidate. The second weapon slot, the tools and the
/// consumables are left as they were.
#[verifier::rlimit(100)]
#[verifier::spinoff_prover]
pub fn random_weapon_one(
    loadout: &mut Loadout,
    budget: &mut Budget,
    config: &Config,
    rng: &mut rand::rngs::StdRng,
    catalog: &CoreSearchUtil,
)
    requires
        catalog@.wf(),
        old(loadout)@.wf(),
        config@.wf(),
    ensures
        final(loadout)@.wf(),
        final(loadout)@.weapon_two == old(loadout)@.weapon_two,
        final(loadout)@.tools == old(loadout)@.tools,
        final(loadout)@.consumables == old(loadout)@.consumables,
        (final(budget)@ == apply_transactions(
            apply_transactions(old(budget)@, slot_txs(old(loadout)@.weapon_one, true)),
            slot_txs(final(loadout)@.weapon_one, false),
        ) && purchases_covered(
            apply_transactions(old(budget)@, slot_txs(old(loadout)@.weapon_one, true)),
            slot_txs(final(loadout)@.weapon_one, false),
        )) || (final(loadout)@.weapon_one == old(loadout)@.weapon_one && final(budget)@ == old(budget)@),
        plain_refill(config@) && !old(loadout)@.weapon_one.locked && pool_affordable(
            initial_pool(
                catalog@,
                config@.has(ToggleOption::Quartermaster),
                old(loadout)@.weapon_two,
            ),
            old(budget)@.weapons_budget,
        ) ==> final(loadout)@.weapon_one.item is Some,
{
    let mut previous_budget = budget.clone();
    let pristine_budget = budget.clone();
    let previous_weapon = loadout.weapon_one.clone();

    let initial_weapon_two_lock = loadout.weapon_two.locked;
    let quartermaster = config.option_exists(ToggleOption::Quartermaster);
    let ghost b0w = old(budget)@.weapons_budget;
    let ghost fill = plain_refill(config@) && !old(loadout)@.weapon_one.locked && pool_affordable(
        initial_pool(catalog@, config@.has(ToggleOption::Quartermaster), old(loadout)@.weapon_two),
        b0w,
    );

    let mut weapon_one = loadout.weapon_one.clone();
    let weapon_two = loadout.weapon_two.clone();
    initial_weapon(loadout, budget, rng, quartermaster, &mut weapon_one, &weapon_two, catalog);
    loadout.weapon_one = weapon_one;
    proof {
        assert(loadout@.weapon_two == old(loadout)@.weapon_two);
        assert(loadout@.tools == old(loadout)@.tools);
        assert(loadout@.consumables == old(loadout)@.consumables);
        assert(slot_cost_ok(loadout@.weapon_one) && slot_size_ok(loadout@.weapon_one));
        assert(loadout@.wf());
        if fill {
            assert(refill_track(loadout@.weapon_one, budget@, b0w));
            assert(ammo_cost_sum(loadout@.weapon_one.item->Some_0.ammo_equipped) == 0);
        }
    }

    if quartermaster && config.option_exists(ToggleOption::AlwaysQuartermaster) {
        loadout.weapon_two.locked = true;
        quartermaster_pass(loadout, budget, rng, catalog);
        loadout.weapon_two.locked = initial_weapon_two_lock;
    }
    proof {
        assert(loadout@.weapon_two == old(loadout)@.weapon_two);
        assert(loadout@.tools == old(loadout)@.tools);
        assert(loadout@.consumables == old(loadout)@.consumables);
        assert(slot_cost_ok(loadout@.weapon_one) && slot_size_ok(loadout@.weapon_one));
        assert(loadout@.wf());
        if fill {
            assert(refill_track(loadout@.weapon_one, budget@, b0w));
            assert(ammo_cost_sum(loadout@.weapon_one.item->Some_0.ammo_equipped) == 0);
        }
    }

    if config.option_exists(ToggleOption::AlwaysDualWield) {
        let mut weapon_one = loadout.weapon_one.clone();
        always_dual_wield(budget, rng, &mut weapon_one, catalog);
        loadout.weapon_one = weapon_one;
    }
    proof {
        assert(loadout@.weapon_two == old(loadout)@.weapon_two);
        assert(loadout@.tools == old(loadout)@.tools);
        assert(loadout@.consumables == old(loadout)@.consumables);
        assert(slot_cost_ok(loadout@.weapon_one) && slot_size_ok(loadout@.weapon_one));
        assert(loadout@.wf());
        if fill {
            assert(refill_track(loadout@.weapon_one, budget@, b0w));
            assert(ammo_cost_sum(loadout@.weapon_one.item->Some_0.ammo_equipped) == 0);
        }
    }

    if !config.option_exists(ToggleOption::DuplicateWeapons) {
        loadout.weapon_two.locked = true;
        dedupe_weapons(loadout, budget, rng, quartermaster, catalog);
        loadout.weapon_two.locked = initial_weapon_two_lock;
    }
    proof {
        assert(loadout@.weapon_two == old(loadout)@.weapon_two);
        assert(loadout@.tools == old(loadout)@.tools);
        assert(loadout@.consumables == old(loadout)@.consumables);
        assert(slot_cost_ok(loadout@.weapon_one) && slot_size_ok(loadout@.weapon_one));
        assert(loadout@.wf());
        if fill {
            assert(refill_track(loadout@.weapon_one, budget@, b0w));
            assert(ammo_cost_sum(loadout@.weapon_one.item->Some_0.ammo_equipped) == 0);
        }
    }

    if config.option_exists(ToggleOption::CustomAmmo) {
        let mut weapon_one = loadout.weapon_one.clone();
        let ghost pre_ammo_budget = budget@;
        custom_ammo(
            budget,
            rng,
            &mut weapon_one,
            config.option_exists(ToggleOption::AlwaysCustomAmmo),
        );
        proof {
            if fill {
                let v = loadout@.weapon_one.item->Some_0;
                if crate::generic_item::bullet_variant_choices(v).len() == 0
                    && crate::generic_item::first_bullet_size(v.usage_types) is Some {
                    lemma_default_ammo_free(
                        v,
                        crate::generic_item::first_bullet_size(v.usage_types)->Some_0,
                    );
                }
            }
        }
        loadout.weapon_one = weapon_one;
    }
    proof {
        assert(loadout@.weapon_two == old(loadout)@.weapon_two);
        assert(loadout@.tools == old(loadout)@.tools);
        assert(loadout@.consumables == old(loadout)@.consumables);
        assert(slot_cost_ok(loadout@.weapon_one) && slot_size_ok(loadout@.weapon_one));
        assert(loadout@.wf());
        if fill {
            assert(refill_track(loadout@.weapon_one, budget@, b0w));
        }
    }

    if config.option_exists(ToggleOption::DuplicateWeapons) && config.option_exists(
        ToggleOption::AlwaysDuplicateWeapons,
    ) {
        loadout.weapon_two.locked = true;
        always_duplicate_weapons(loadout, budget);
        loadout.weapon_two.locked = initial_weapon_two_lock;
    }
    proof {
        assert(loadout@.weapon_two == old(loadout)@.weapon_two);
        assert(loadout@.tools == old(loadout)@.tools);
        assert(loadout@.consumables == old(loadout)@.consumables);
        assert(slot_cost_ok(loadout@.weapon_one) && slot_size_ok(loadout@.weapon_one));
        assert(loadout@.wf());
        if fill {
            assert(refill_track(loadout@.weapon_one, budget@, b0w));
        }
    }

    refund_item(&mut previous_budget, &previous_weapon);
    let ghost refunded = previous_budget@;
    proof {
        lemma_refund_keeps_weapons(old(budget)@, old(loadout)@.weapon_one);
    }
    let covered = purchase_item_checked(&mut previous_budget, &loadout.weapon_one);
    proof {
        if fill {
            lemma_item_purchase_covered(refunded, loadout@.weapon_one.item->Some_0);
            assert(covered);
        }
    }
    if covered {
        *budget = previous_budget;
    } else {
        loadout.weapon_one = previous_weapon;
        *budget = pristine_budget;
    }
}

/// Re-randomizes the second weapon slot; the mirror image of
/// `random_weapon_two`.
#[verifier::rlimit(100)]
#[verifier::spinoff_prover]
pub fn random_weapon_two(
    loadout: &mut Loadout,
    budget: &mut Budget,
    config: &Config,
    rng: &mut rand::rngs::StdRng,
    catalog: &CoreSearchUtil,
)
    requires
        catalog@.wf(),
        old(loadout)@.wf(),
        config@.wf(),
    ensures
        final(loadout)@.wf(),
        final(loadout)@.weapon_one == old(loadout)@.weapon_one,
        final(loadout)@.tools == old(loadout)@.tools,
        final(loadout)@.consumables == old(loadout)@.consumables,
        (final(budget)@ == apply_transactions(
            apply_transactions(old(budget)@, slot_txs(old(loadout)@.weapon_two, true)),
            slot_txs(final(loadout)@.weapon_two, false),
        ) && purchases_covered(
            apply_transactions(old(budget)@, slot_txs(old(loadout)@.weapon_two, true)),
            slot_txs(final(loadout)@.weapon_two, false),
        )) || (final(loadout)@.weapon_two == old(loadout)@.weapon_two && final(budget)@ == old(budget)@),
        plain_refill(config@) && !old(loadout)@.weapon_two.locked && pool_affordable(
            initial_pool(
                catalog@,
                config@.has(ToggleOption::Quartermaster),
                old(loadout)@.weapon_one,
            ),
            old(budget)@.weapons_budget,
        ) ==> final(loadout)@.weapon_two.item is Some,
{
    let mut previous_budget = budget.clone();
    let pristine_budget = budget.clone();
    let previous_weapon = loadout.weapon_two.clone();

    let initial_weapon_one_lock = loadout.weapon_one.locked;
    let quartermaster = config.option_exists(ToggleOption::Quartermaster);
    let ghost b0w = old(budget)@.weapons_budget;
    let ghost fill = plain_refill(config@) && !old(loadout)@.weapon_two.locked && pool_affordable(
        initial_pool(catalog@, config@.has(ToggleOption::Quartermaster), old(loadout)@.weapon_one),
        b0w,
    );

    let mut weapon_two = loadout.weapon_two.clone();
    let weapon_one = loadout.weapon_one.clone();
    initial_weapon(loadout, budget, rng, quartermaster, &mut weapon_two, &weapon_one, catalog);
    loadout.weapon_two = weapon_two;
    proof {
        assert(loadout@.weapon_one == old(loadout)@.weapon_one);
        assert(loadout@.tools == old(loadout)@.tools);
        assert(loadout@.consumables == old(loadout)@.consumables);
        assert(slot_cost_ok(loadout@.weapon_two) && slot_size_ok(loadout@.weapon_two));
        assert(loadout@.wf());
        if fill {
            assert(refill_track(loadout@.weapon_two, budget@, b0w));
            assert(ammo_cost_sum(loadout@.weapon_two.item->Some_0.ammo_equipped) == 0);
        }
    }

    if quartermaster && config.option_exists(ToggleOption::AlwaysQuartermaster) {
        loadout.weapon_one.locked = true;
        quartermaster_pass(loadout, budget, rng, catalog);
        loadout.weapon_one.locked = initial_weapon_one_lock;
    }
    proof {
        assert(loadout@.weapon_one == old(loadout)@.weapon_one);
        assert(loadout@.tools == old(loadout)@.tools);
        assert(loadout@.consumables == old(loadout)@.consumables);
        assert(slot_cost_ok(loadout@.weapon_two) && slot_size_ok(loadout@.weapon_two));
        assert(loadout@.wf());
        if fill {
            assert(refill_track(loadout@.weapon_two, budget@, b0w));
            assert(ammo_cost_sum(loadout@.weapon_two.item->Some_0.ammo_equipped) == 0);
        }
    }

    if config.option_exists(ToggleOption::AlwaysDualWield) {
        let mut weapon_two = loadout.weapon_two.clone();
        always_dual_wield(budget, rng, &mut weapon_two, catalog);
        loadout.weapon_two = weapon_two;
    }
    proof {
        assert(loadout@.weapon_one == old(loadout)@.weapon_one);
        assert(loadout@.tools == old(loadout)@.tools);
        assert(loadout@.consumables == old(loadout)@.consumables);
        assert(slot_cost_ok(loadout@.weapon_two) && slot_size_ok(loadout@.weapon_two));
        assert(loadout@.wf());
        if fill {
            assert(refill_track(loadout@.weapon_two, budget@, b0w));
            assert(ammo_cost_sum(loadout@.weapon_two.item->Some_0.ammo_equipped) == 0);
        }
    }

    if !config.option_exists(ToggleOption::DuplicateWeapons) {
        loadout.weapon_one.locked = true;
        dedupe_weapons(loadout, budget, rng, quartermaster, catalog);
        loadout.weapon_one.locked = initial_weapon_one_lock;
    }
    proof {
        assert(loadout@.weapon_one == old(loadout)@.weapon_one);
        assert(loadout@.tools == old(loadout)@.tools);
        assert(loadout@.consumables == old(loadout)@.consumables);
        assert(slot_cost_ok(loadout@.weapon_two) && slot_size_ok(loadout@.weapon_two));
        assert(loadout@.wf());
        if fill {
            assert(refill_track(loadout@.weapon_two, budget@, b0w));
            assert(ammo_cost_sum(loadout@.weapon_two.item->Some_0.ammo_equipped) == 0);
        }
    }

    if config.option_exists(ToggleOption::CustomAmmo) {
        let mut weapon_two = loadout.weapon_two.clone();
        let ghost pre_ammo_budget = budget@;
        custom_ammo(
            budget,
            rng,
            &mut weapon_two,
            config.option_exists(ToggleOption::AlwaysCustomAmmo),
        );
        proof {
            if fill {
                let v = loadout@.weapon_two.item->Some_0;
                if crate::generic_item::bullet_variant_choices(v).len() == 0
                    && crate::generic_item::first_bullet_size(v.usage_types) is Some {
                    lemma_default_ammo_free(
                        v,
                        crate::generic_item::first_bullet_size(v.usage_types)->Some_0,
                    );
                }
            }
        }
        loadout.weapon_two = weapon_two;
    }
    proof {
        assert(loadout@.weapon_one == old(loadout)@.weapon_one);
        assert(loadout@.tools == old(loadout)@.tools);
        assert(loadout@.consumables == old(loadout)@.consumables);
        assert(slot_cost_ok(loadout@.weapon_two) && slot_size_ok(loadout@.weapon_two));
        assert(loadout@.wf());
        if fill {
            assert(refill_track(loadout@.weapon_two, budget@, b0w));
        }
    }

    if config.option_exists(ToggleOption::DuplicateWeapons) && config.option_exists(
        ToggleOption::AlwaysDuplicateWeapons,
    ) {
        loadout.weapon_one.locked = true;
        always_duplicate_weapons(loadout, budget);
        loadout.weapon_one.locked = initial_weapon_one_lock;
    }
    proof {
        assert(loadout@.weapon_one == old(loadout)@.weapon_one);
        assert(loadout@.tools == old(loadout)@.tools);
        assert(loadout@.consumables == old(loadout)@.consumables);
        assert(slot_cost_ok(loadout@.weapon_two) && slot_size_ok(loadout@.weapon_two));
        assert(loadout@.wf());
        if fill {
            assert(refill_track(loadout@.weapon_two, budget@, b0w));
        }
    }

    refund_item(&mut previous_budget, &previous_weapon);
    let ghost refunded = previous_budget@;
    proof {
        lemma_refund_keeps_weapons(old(budget)@, old(loadout)@.weapon_two);
    }
    let covered = purchase_item_checked(&mut previous_budget, &loadout.weapon_two);
    proof {
        if fill {
            lemma_item_purchase_covered(refunded, loadout@.weapon_two.item->Some_0);
            assert(covered);
        }
    }
    if covered {
        *budget = previous_budget;
    } else {
        loadout.weapon_two = previous_weapon;
        *budget = pristine_budget;
    }
}

/// The quartermaster pass with the surrounding bookkeeping the callers
/// need: gear, errors, locks and any locked weapon slot are untouched.
#[verifier::rlimit(100)]
#[verifier::spinoff_prover]
fn quartermaster_pass(
    loadout: &mut Loadout,
    budget: &mut Budget,
    rng: &mut rand::rngs::StdRng,
    catalog: &CoreSearchUtil,
)
    requires
        catalog@.wf(),
        old(loadout)@.wf(),
    ensures
        final(loadout)@.wf(),
        final(loadout)@.tools == old(loadout)@.tools,
        final(loadout)@.consumables == old(loadout)@.consumables,
        final(loadout)@.errors == old(loadout)@.errors,
        final(loadout)@.weapon_one.locked == old(loadout)@.weapon_one.locked,
        final(loadout)@.weapon_two.locked == old(loadout)@.weapon_two.locked,
        old(loadout)@.weapon_one.locked ==> final(loadout)@.weapon_one == old(loadout)@.weapon_one,
        old(loadout)@.weapon_two.locked ==> final(loadout)@.weapon_two == old(loadout)@.weapon_two,
        final(budget)@.initial_budget == old(budget)@.initial_budget,
{
    always_quartermaster(loadout, budget, rng, catalog);
}

/// The initial fill of both weapon slots, the second checked against the
/// first.
#[verifier::rlimit(100)]
#[verifier::spinoff_prover]
fn initial_weapons_pair(
    loadout: &mut Loadout,
    budget: &mut Budget,
    quartermaster: bool,
    rng: &mut rand::rngs::StdRng,
    catalog: &CoreSearchUtil,
)
    requires
        catalog@.wf(),
        old(loadout)@.wf(),
    ensures
        final(loadout)@.wf(),
        final(loadout)@.tools == old(loadout)@.tools,
        final(loadout)@.consumables == old(loadout)@.consumables,
        final(budget)@.initial_budget == old(budget)@.initial_budget,
{
    let mut weapon_one = loadout.weapon_one.clone();
    let mut weapon_two = loadout.weapon_two.clone();
    initial_weapon(loadout, budget, rng, quartermaster, &mut weapon_one, &weapon_two, catalog);
    initial_weapon(loadout, budget, rng, quartermaster, &mut weapon_two, &weapon_one, catalog);
    loadout.weapon_one = weapon_one;
    loadout.weapon_two = weapon_two;
}

/// The forced dual-wield pass over both weapon slots.
#[verifier::rlimit(100)]
#[verifier::spinoff_prover]
fn dual_wield_pair(
    loadout: &mut Loadout,
    budget: &mut Budget,
    rng: &mut rand::rngs::StdRng,
    catalog: &CoreSearchUtil,
)
    requires
        catalog@.wf(),
        old(loadout)@.wf(),
    ensures
        final(loadout)@.wf(),
        final(loadout)@.tools == old(loadout)@.tools,
        final(loadout)@.consumables == old(loadout)@.consumables,
        final(loadout)@.errors == old(loadout)@.errors,
        final(budget)@.initial_budget == old(budget)@.initial_budget,
{
    let mut weapon_one = loadout.weapon_one.clone();
    let mut weapon_two = loadout.weapon_two.clone();
    always_dual_wield(budget, rng, &mut weapon_one, catalog);
    always_dual_wield(budget, rng, &mut weapon_two, catalog);
    loadout.weapon_one = weapon_one;
    loadout.weapon_two = weapon_two;
}

/// The ammunition pass over both weapon slots.
#[verifier::rlimit(100)]
#[verifier::spinoff_prover]
fn custom_ammo_pair(
    loadout: &mut Loadout,
    budget: &mut Budget,
    rng: &mut rand::rngs::StdRng,
    always_custom_ammo: bool,
)
    requires
        old(loadout)@.wf(),
    ensures
        final(loadout)@.wf(),
        final(loadout)@.tools == old(loadout)@.tools,
        final(loadout)@.consumables == old(loadout)@.consumables,
        final(loadout)@.errors == old(loadout)@.errors,
        final(budget)@.initial_budget == old(budget)@.initial_budget,
{
    let mut weapon_one = loadout.weapon_one.clone();
    let mut weapon_two = loadout.weapon_two.clone();
    let ghost w1pre = old(loadout)@.weapon_one;
    let ghost b0 = budget@;
    custom_ammo(budget, rng, &mut weapon_one, always_custom_ammo);
    proof {
        if w1pre.locked {
            if w1pre.item is Some && w1pre.item->Some_0.ammo_equipped.len() > 0 {
                crate::budget::lemma_apply_transactions_keep_initial(
                    b0,
                    crate::weapons::variant_ammo_txs(w1pre.item->Some_0.ammo_equipped),
                );
            }
        } else if w1pre.item is Some {
            if crate::generic_item::bullet_variant_choices(w1pre.item->Some_0).len() > 0 {
                crate::budget::lemma_apply_transactions_keep_initial(
                    b0,
                    crate::weapons::variant_ammo_txs(weapon_one@.item->Some_0.ammo_equipped),
                );
            }
        }
        assert(budget@.initial_budget == b0.initial_budget);
    }
    let ghost w2pre = old(loadout)@.weapon_two;
    let ghost b1 = budget@;
    custom_ammo(budget, rng, &mut weapon_two, always_custom_ammo);
    proof {
        if w2pre.locked {
            if w2pre.item is Some && w2pre.item->Some_0.ammo_equipped.len() > 0 {
                crate::budget::lemma_apply_transactions_keep_initial(
                    b1,
                    crate::weapons::variant_ammo_txs(w2pre.item->Some_0.ammo_equipped),
                );
            }
        } else if w2pre.item is Some {
            if crate::generic_item::bullet_variant_choices(w2pre.item->Some_0).len() > 0 {
                crate::budget::lemma_apply_transactions_keep_initial(
                    b1,
                    crate::weapons::variant_ammo_txs(weapon_two@.item->Some_0.ammo_equipped),
                );
            }
        }
        assert(budget@.initial_budget == b1.initial_budget);
    }
    loadout.weapon_one = weapon_one;
    loadout.weapon_two = weapon_two;
}

/// The weapon phase of full generation: the initial fill of both slots,
/// then the enabled always-on passes in order. Tools and consumables are
/// untouched, and the initial allowance is kept.
#[verifier::rlimit(100)]
#[verifier::spinoff_prover]
fn generate_weapons(
    loadout: &mut Loadout,
    budget: &mut Budget,
    config: &Config,
    rng: &mut rand::rngs::StdRng,
    catalog: &CoreSearchUtil,
)
    requires
        catalog@.wf(),
        old(loadout)@.wf(),
        config@.wf(),
    ensures
        final(loadout)@.wf(),
        final(loadout)@.tools == old(loadout)@.tools,
        final(loadout)@.consumables == old(loadout)@.consumables,
        final(budget)@.initial_budget == old(budget)@.initial_budget,
{
    let quartermaster = config.option_exists(ToggleOption::Quartermaster);

    initial_weapons_pair(loadout, budget, quartermaster, rng, catalog);

    if quartermaster && config.option_exists(ToggleOption::AlwaysQuartermaster) {
        quartermaster_pass(loadout, budget, rng, catalog);
    }

    if config.option_exists(ToggleOption::AlwaysDualWield) {
        dual_wield_pair(loadout, budget, rng, catalog);
    }

    if !config.option_exists(ToggleOption::DuplicateWeapons) {
        dedupe_weapons(loadout, budget, rng, quartermaster, catalog);
        proof {
            assert(loadout@.wf());
            assert(budget@.initial_budget == old(budget)@.initial_budget);
        }
    }

    if config.option_exists(ToggleOption::CustomAmmo) {
        custom_ammo_pair(
            loadout,
            budget,
            rng,
            config.option_exists(ToggleOption::AlwaysCustomAmmo),
        );
    }

    if config.option_exists(ToggleOption::DuplicateWeapons) && config.option_exists(
        ToggleOption::AlwaysDuplicateWeapons,
    ) {
        always_duplicate_weapons(loadout, budget);
    }
}

/// Generates a full loadout: resets the budget to the configured ceiling
/// (or the session maximum), clears unlocked slots re-charging locked
/// ones, fills the weapon pair and runs the enabled always-on passes,
/// cascades the unspent weapons allowance into tools, fills the tool
/// slots, cascades again into consumables, fills those, and finally puts
/// the weapon pair in display order. Locked tool and consumable slots keep
/// their items.
#[verifier::rlimit(100)]
#[verifier::spinoff_prover]
pub fn random(
    loadout: &mut Loadout,
    budget: &mut Budget,
    config: &Config,
    rng: &mut rand::rngs::StdRng,
    catalog: &CoreSearchUtil,
)
    requires
        catalog@.wf(),
        old(loadout)@.wf(),
        config@.wf(),
    ensures
        final(loadout)@.wf(),
        final(budget)@.initial_budget == (match config@.max_cost {
            Some(c) => c,
            None => 65535u16,
        }),
        forall|i: int|
            0 <= i < 4 && old(loadout)@.tools[i].locked ==> final(loadout)@.tools[i] == old(loadout)@.tools[i],
        forall|i: int|
            0 <= i < 4 && old(loadout)@.consumables[i].locked ==> final(loadout)@.consumables[i]
                == old(loadout)@.consumables[i],
        tools_distinct(cleared_slots(old(loadout)@.tools)) ==> tools_distinct(
            final(loadout)@.tools,
        ),
        !all_no_preference(config@) ==> forall|i: int|
            0 <= i < 4 && !old(loadout)@.tools[i].locked && (#[trigger] final(loadout)@.tools[
                i]).item is None ==> tool_draw_blocked(
                preference_pool(catalog@, config@.tool_preferences[i]),
                cleared_slots(old(loadout)@.tools),
                final(loadout)@.tools,
                final(budget)@.tools_budget,
                65535,
            ),
        all_no_preference(config@) ==> forall|i: int|
            0 <= i < 4 && !(#[trigger] final(loadout)@.tools[i]).locked && final(loadout)@.tools[
                i].item is None ==> tool_draw_blocked(
                catalog@.tools,
                cleared_slots(old(loadout)@.tools),
                final(loadout)@.tools,
                final(budget)@.tools_budget,
                65535,
            ),
        forall|i: int|
            0 <= i < 4 && !(#[trigger] final(loadout)@.consumables[i]).locked && final(loadout)@.consumables[i].item is None ==> (forall|k: int|
                0 <= k < catalog@.consumables.len() ==> effective_cost(
                    #[trigger] catalog@.consumables[k],
                ) > final(budget)@.consumables_budget),
{
    match config.max_cost {
        Some(max_cost) => {
            let _status = set_budget(budget, max_cost);
        },
        None => {
            *budget = Budget::default();
        },
    }
    let ghost init0 = budget@.initial_budget;

    let ghost b_reset = budget@;
    reset_tools(loadout, budget);
    proof {
        crate::gear::lemma_reset_gear_keeps_initial(old(loadout)@.tools, b_reset, true, 4);
        assert(budget@.initial_budget == init0);
    }
    let ghost b_after_tools_reset = budget@;
    let ghost l_after_tools_reset = loadout@;
    reset_consumables(loadout, budget);
    proof {
        crate::gear::lemma_reset_gear_keeps_initial(
            l_after_tools_reset.consumables,
            b_after_tools_reset,
            false,
            4,
        );
        assert(budget@.initial_budget == init0);
        assert(forall|i: int|
            0 <= i < 4 && old(loadout)@.tools[i].locked ==> #[trigger] loadout@.tools[i] == old(loadout)@.tools[i]);
        assert(forall|i: int|
            0 <= i < 4 && old(loadout)@.consumables[i].locked ==> #[trigger] loadout@.consumables[i]
                == old(loadout)@.consumables[i]);
    }

    generate_weapons(loadout, budget, config, rng, catalog);

    transfer_weapons_to_tools(budget);

    let ghost l_tools_in = loadout@;
    let ghost b_tools_in = budget@;
    random_tools(loadout, budget, config, rng, catalog);
    let ghost l_tools_out = loadout@;
    let ghost b_tools_out = budget@;
    proof {
        assert(l_tools_in.tools == cleared_slots(old(loadout)@.tools));
        assert(budget@.initial_budget == init0);
        assert(forall|i: int|
            0 <= i < 4 && old(loadout)@.tools[i].locked ==> #[trigger] loadout@.tools[i] == old(loadout)@.tools[i]);
        assert(forall|i: int|
            0 <= i < 4 && old(loadout)@.consumables[i].locked ==> #[trigger] loadout@.consumables[i]
                == old(loadout)@.consumables[i]);
    }

    transfer_tools_to_consumables(budget);

    random_consumables(loadout, budget, rng, catalog);
    proof {
        assert(budget@.initial_budget == init0);
    }
    sort_weapons(loadout);
    proof {
        assert(loadout@.tools == l_tools_out.tools);
        assert(budget@.tools_budget == b_tools_out.tools_budget);
        if !all_no_preference(config@) {
            assert forall|i: int|
                0 <= i < 4 && !old(loadout)@.tools[i].locked && (#[trigger] loadout@.tools[
                i]).item is None implies tool_draw_blocked(
                preference_pool(catalog@, config@.tool_preferences[i]),
                cleared_slots(old(loadout)@.tools),
                loadout@.tools,
                budget@.tools_budget,
                65535,
            ) by {
                assert(!l_tools_in.tools[i].locked);
                lemma_blocked_weaken_entry(
                    preference_pool(catalog@, config@.tool_preferences[i]),
                    cleared_slots(old(loadout)@.tools),
                    loadout@.tools,
                    budget@.tools_budget,
                    b_tools_in.tools_budget,
                );
            }
        } else {
            assert forall|i: int|
                0 <= i < 4 && !(#[trigger] loadout@.tools[i]).locked && loadout@.tools[
                i].item is None implies tool_draw_blocked(
                catalog@.tools,
                cleared_slots(old(loadout)@.tools),
                loadout@.tools,
                budget@.tools_budget,
                65535,
            ) by {
                lemma_blocked_weaken_entry(
                    catalog@.tools,
                    cleared_slots(old(loadout)@.tools),
                    loadout@.tools,
                    budget@.tools_budget,
                    b_tools_in.tools_budget,
                );
            }
        }
    }
}

} // verus!
