//! The single-slot user actions: explicit select, delete, lock toggle,
//! single-slot re-randomize and ammunition re-pick. Each edit refunds the
//! slot's old contents and charges the new ones, so a failed charge can
//! never leave the ledger half-applied.

use vstd::prelude::*;

use crate::budget::{apply_transactions, process_transaction, Budget, BudgetView, Transaction,
    TransactionView};
use crate::config::Config;
use crate::core_search_util::{items_view, CoreSearchUtil};
use crate::gear::{preference_pool, set_slot};
use crate::generic_item::{effective_cost, same_item_spec, CustomAmmo, GenericItem,
    GenericItemLockable, ItemView, LockableItemView};
use crate::loadout::{ammo_label_string, ammo_tx, purchase_item_checked, purchases_covered,
    refund_item, set_default_ammo, slot_cost_ok, slot_txs, slots_view, with_default_ammo, Loadout,
    LoadoutView};
use crate::rng::rng_index;

verus! {

/// The cost of an explicitly handed item fits the ledger's range.
pub open spec fn opt_item_cost_ok(item: Option<ItemView>) -> bool {
    match item {
        Some(v) => effective_cost(v) <= 65535,
        None => true,
    }
}

/// Places an explicitly chosen item (or nothing) in a weapon slot: the
/// slot's old contents are refunded against a snapshot, the slot is
/// locked, unset rounds get the free defaults, and the new contents are
/// charged. Only when every charge is covered does the snapshot become the
/// live budget; otherwise the edit rolls back whole.
pub fn select_weapon(loadout: &mut Loadout, budget: &mut Budget, slot: u8, item: Option<
    GenericItem,
>)
    requires
        slot < 2,
        slot == 0 ==> slot_cost_ok(old(loadout)@.weapon_one),
        slot == 1 ==> slot_cost_ok(old(loadout)@.weapon_two),
        opt_item_cost_ok(crate::generic_item::opt_item_view(item)),
    ensures
        slot == 0 ==> (if purchases_covered(
            apply_transactions(old(budget)@, slot_txs(old(loadout)@.weapon_one, true)),
            slot_txs(
                with_default_ammo(
                    LockableItemView {
                        item: crate::generic_item::opt_item_view(item),
                        locked: true,
                    },
                ),
                false,
            ),
        ) {
            final(loadout)@ == (LoadoutView {
                weapon_one: with_default_ammo(
                    LockableItemView {
                        item: crate::generic_item::opt_item_view(item),
                        locked: true,
                    },
                ),
                ..old(loadout)@
            }) && final(budget)@ == apply_transactions(
                apply_transactions(old(budget)@, slot_txs(old(loadout)@.weapon_one, true)),
                slot_txs(final(loadout)@.weapon_one, false),
            )
        } else {
            final(loadout)@ == old(loadout)@ && final(budget)@ == old(budget)@
        }),
        slot == 1 ==> (if purchases_covered(
            apply_transactions(old(budget)@, slot_txs(old(loadout)@.weapon_two, true)),
            slot_txs(
                with_default_ammo(
                    LockableItemView {
                        item: crate::generic_item::opt_item_view(item),
                        locked: true,
                    },
                ),
                false,
            ),
        ) {
            final(loadout)@ == (LoadoutView {
                weapon_two: with_default_ammo(
                    LockableItemView {
                        item: crate::generic_item::opt_item_view(item),
                        locked: true,
                    },
                ),
                ..old(loadout)@
            }) && final(budget)@ == apply_transactions(
                apply_transactions(old(budget)@, slot_txs(old(loadout)@.weapon_two, true)),
                slot_txs(final(loadout)@.weapon_two, false),
            )
        } else {
            final(loadout)@ == old(loadout)@ && final(budget)@ == old(budget)@
        }),
{
    let mut scratch = budget.clone();
    if slot == 0 {
        let previous = loadout.weapon_one.clone();
        refund_item(&mut scratch, &previous);
        loadout.weapon_one.item = item;
        loadout.weapon_one.locked = true;
        let _filled = set_default_ammo(&mut loadout.weapon_one);
        let covered = purchase_item_checked(&mut scratch, &loadout.weapon_one);
        if covered {
            *budget = scratch;
        } else {
            loadout.weapon_one = previous;
        }
    } else {
        let previous = loadout.weapon_two.clone();
        refund_item(&mut scratch, &previous);
        loadout.weapon_two.item = item;
        loadout.weapon_two.locked = true;
        let _filled = set_default_ammo(&mut loadout.weapon_two);
        let covered = purchase_item_checked(&mut scratch, &loadout.weapon_two);
        if covered {
            *budget = scratch;
        } else {
            loadout.weapon_two = previous;
        }
    }
}

/// Empties and unlocks a weapon slot, refunding whatever it held.
pub fn delete_weapon(loadout: &mut Loadout, budget: &mut Budget, slot: u8)
    requires
        slot < 2,
        slot == 0 ==> slot_cost_ok(old(loadout)@.weapon_one),
        slot == 1 ==> slot_cost_ok(old(loadout)@.weapon_two),
    ensures
        slot == 0 ==> final(loadout)@ == (LoadoutView {
            weapon_one: LockableItemView { item: None, locked: false },
            ..old(loadout)@
        }) && final(budget)@ == apply_transactions(
            old(budget)@,
            slot_txs(old(loadout)@.weapon_one, true),
        ),
        slot == 1 ==> final(loadout)@ == (LoadoutView {
            weapon_two: LockableItemView { item: None, locked: false },
            ..old(loadout)@
        }) && final(budget)@ == apply_transactions(
            old(budget)@,
            slot_txs(old(loadout)@.weapon_two, true),
        ),
{
    if slot == 0 {
        refund_item(budget, &loadout.weapon_one);
        loadout.weapon_one.item = None;
        loadout.weapon_one.locked = false;
    } else {
        refund_item(budget, &loadout.weapon_two);
        loadout.weapon_two.item = None;
        loadout.weapon_two.locked = false;
    }
}

/// Flips the lock of a weapon slot; nothing else changes.
pub fn toggle_weapon_lock(loadout: &mut Loadout, slot: u8)
    requires
        slot < 2,
    ensures
        slot == 0 ==> final(loadout)@ == (LoadoutView {
            weapon_one: LockableItemView {
                locked: !old(loadout)@.weapon_one.locked,
                ..old(loadout)@.weapon_one
            },
            ..old(loadout)@
        }),
        slot == 1 ==> final(loadout)@ == (LoadoutView {
            weapon_two: LockableItemView {
                locked: !old(loadout)@.weapon_two.locked,
                ..old(loadout)@.weapon_two
            },
            ..old(loadout)@
        }),
{
    if slot == 0 {
        loadout.weapon_one.locked = !loadout.weapon_one.locked;
    } else {
        loadout.weapon_two.locked = !loadout.weapon_two.locked;
    }
}

/// Places an explicitly chosen item (or nothing) in a tool slot: the old
/// contents are refunded against a snapshot, the new contents are charged,
/// and the slot is locked. Only when every charge is covered does the
/// snapshot become the live budget; otherwise the edit rolls back whole.
pub fn select_tool(loadout: &mut Loadout, budget: &mut Budget, slot: u8, item: Option<GenericItem>)
    requires
        slot < 4,
        old(loadout)@.wf(),
        opt_item_cost_ok(crate::generic_item::opt_item_view(item)),
    ensures
        (if purchases_covered(
            apply_transactions(old(budget)@, slot_txs(old(loadout)@.tools[slot as int], true)),
            slot_txs(
                LockableItemView { item: crate::generic_item::opt_item_view(item), locked: true },
                false,
            ),
        ) {
            final(loadout)@.tools == old(loadout)@.tools.update(
                slot as int,
                LockableItemView { item: crate::generic_item::opt_item_view(item), locked: true },
            ) && final(loadout)@.weapon_one == old(loadout)@.weapon_one && final(loadout)@.weapon_two == old(loadout)@.weapon_two && final(loadout)@.consumables == old(loadout)@.consumables && final(loadout)@.errors == old(loadout)@.errors && final(budget)@
                == apply_transactions(
                apply_transactions(old(budget)@, slot_txs(old(loadout)@.tools[slot as int], true)),
                slot_txs(final(loadout)@.tools[slot as int], false),
            )
        } else {
            final(loadout)@ == old(loadout)@ && final(budget)@ == old(budget)@
        }),
{
    let slot = slot as usize;
    let mut scratch = budget.clone();
    let previous = loadout.tools[slot].clone();
    proof {
        assert(previous@ == old(loadout)@.tools[slot as int]);
        assert(slot_cost_ok(old(loadout)@.tools[slot as int]));
    }
    refund_item(&mut scratch, &previous);
    set_slot(&mut loadout.tools, slot, GenericItemLockable { item, locked: true });
    proof {
        assert(slots_view(loadout.tools@)[slot as int].item == crate::generic_item::opt_item_view(
            item,
        ));
    }
    let covered = purchase_item_checked(&mut scratch, &loadout.tools[slot]);
    if covered {
        *budget = scratch;
    } else {
        set_slot(&mut loadout.tools, slot, previous);
        proof {
            assert(slots_view(loadout.tools@) =~= old(loadout)@.tools);
        }
    }
}

/// Empties and unlocks a tool slot, refunding whatever it held.
pub fn delete_tool(loadout: &mut Loadout, budget: &mut Budget, slot: u8)
    requires
        slot < 4,
        old(loadout)@.wf(),
    ensures
        final(loadout)@.tools == old(loadout)@.tools.update(
            slot as int,
            LockableItemView { item: None, locked: false },
        ),
        final(loadout)@.weapon_one == old(loadout)@.weapon_one,
        final(loadout)@.weapon_two == old(loadout)@.weapon_two,
        final(loadout)@.consumables == old(loadout)@.consumables,
        final(loadout)@.errors == old(loadout)@.errors,
        final(budget)@ == apply_transactions(
            old(budget)@,
            slot_txs(old(loadout)@.tools[slot as int], true),
        ),
{
    let slot = slot as usize;
    let previous = loadout.tools[slot].clone();
    proof {
        assert(previous@ == old(loadout)@.tools[slot as int]);
        assert(slot_cost_ok(old(loadout)@.tools[slot as int]));
    }
    refund_item(budget, &previous);
    set_slot(&mut loadout.tools, slot, GenericItemLockable { item: None, locked: false });
}

/// Flips the lock of a tool slot; nothing else changes.
pub fn toggle_tool_lock(loadout: &mut Loadout, slot: u8)
    requires
        slot < 4,
        old(loadout)@.wf(),
    ensures
        final(loadout)@.tools == old(loadout)@.tools.update(
            slot as int,
            LockableItemView {
                locked: !old(loadout)@.tools[slot as int].locked,
                ..old(loadout)@.tools[slot as int]
            },
        ),
        final(loadout)@.weapon_one == old(loadout)@.weapon_one,
        final(loadout)@.weapon_two == old(loadout)@.weapon_two,
        final(loadout)@.consumables == old(loadout)@.consumables,
        final(loadout)@.errors == old(loadout)@.errors,
{
    let slot = slot as usize;
    let previous = loadout.tools[slot].clone();
    let flipped = GenericItemLockable { item: previous.item, locked: !previous.locked };
    set_slot(&mut loadout.tools, slot, flipped);
}

/// Places an explicitly chosen item (or nothing) in a consumable slot: the
/// old contents are refunded against a snapshot, the new contents are
/// charged, and the slot is locked. Only when every charge is covered does
/// the snapshot become the live budget; otherwise the edit rolls back
/// whole.
pub fn select_consumable(loadout: &mut Loadout, budget: &mut Budget, slot: u8, item: Option<
    GenericItem,
>)
    requires
        slot < 4,
        old(loadout)@.wf(),
        opt_item_cost_ok(crate::generic_item::opt_item_view(item)),
    ensures
        (if purchases_covered(
            apply_transactions(
                old(budget)@,
                slot_txs(old(loadout)@.consumables[slot as int], true),
            ),
            slot_txs(
                LockableItemView { item: crate::generic_item::opt_item_view(item), locked: true },
                false,
            ),
        ) {
            final(loadout)@.consumables == old(loadout)@.consumables.update(
                slot as int,
                LockableItemView { item: crate::generic_item::opt_item_view(item), locked: true },
            ) && final(loadout)@.weapon_one == old(loadout)@.weapon_one && final(loadout)@.weapon_two == old(loadout)@.weapon_two && final(loadout)@.tools == old(loadout)@.tools && final(loadout)@.errors == old(loadout)@.errors && final(budget)@
                == apply_transactions(
                apply_transactions(
                    old(budget)@,
                    slot_txs(old(loadout)@.consumables[slot as int], true),
                ),
                slot_txs(final(loadout)@.consumables[slot as int], false),
            )
        } else {
            final(loadout)@ == old(loadout)@ && final(budget)@ == old(budget)@
        }),
{
    let slot = slot as usize;
    let mut scratch = budget.clone();
    let previous = loadout.consumables[slot].clone();
    proof {
        assert(previous@ == old(loadout)@.consumables[slot as int]);
        assert(slot_cost_ok(old(loadout)@.consumables[slot as int]));
    }
    refund_item(&mut scratch, &previous);
    set_slot(&mut loadout.consumables, slot, GenericItemLockable { item, locked: true });
    proof {
        assert(slots_view(loadout.consumables@)[slot as int].item
            == crate::generic_item::opt_item_view(item));
    }
    let covered = purchase_item_checked(&mut scratch, &loadout.consumables[slot]);
    if covered {
        *budget = scratch;
    } else {
        set_slot(&mut loadout.consumables, slot, previous);
        proof {
            assert(slots_view(loadout.consumables@) =~= old(loadout)@.consumables);
        }
    }
}

/// Empties and unlocks a consumable slot, refunding whatever it held.
pub fn delete_consumable(loadout: &mut Loadout, budget: &mut Budget, slot: u8)
    requires
        slot < 4,
        old(loadout)@.wf(),
    ensures
        final(loadout)@.consumables == old(loadout)@.consumables.update(
            slot as int,
            LockableItemView { item: None, locked: false },
        ),
        final(loadout)@.weapon_one == old(loadout)@.weapon_one,
        final(loadout)@.weapon_two == old(loadout)@.weapon_two,
        final(loadout)@.tools == old(loadout)@.tools,
        final(loadout)@.errors == old(loadout)@.errors,
        final(budget)@ == apply_transactions(
            old(budget)@,
            slot_txs(old(loadout)@.consumables[slot as int], true),
        ),
{
    let slot = slot as usize;
    let previous = loadout.consumables[slot].clone();
    proof {
        assert(previous@ == old(loadout)@.consumables[slot as int]);
        assert(slot_cost_ok(old(loadout)@.consumables[slot as int]));
    }
    refund_item(budget, &previous);
    set_slot(&mut loadout.consumables, slot, GenericItemLockable { item: None, locked: false });
}

/// Flips the lock of a consumable slot; nothing else changes.
pub fn toggle_consumable_lock(loadout: &mut Loadout, slot: u8)
    requires
        slot < 4,
        old(loadout)@.wf(),
    ensures
        final(loadout)@.consumables == old(loadout)@.consumables.update(
            slot as int,
            LockableItemView {
                locked: !old(loadout)@.consumables[slot as int].locked,
                ..old(loadout)@.consumables[slot as int]
            },
        ),
        final(loadout)@.weapon_one == old(loadout)@.weapon_one,
        final(loadout)@.weapon_two == old(loadout)@.weapon_two,
        final(loadout)@.tools == old(loadout)@.tools,
        final(loadout)@.errors == old(loadout)@.errors,
{
    let slot = slot as usize;
    let previous = loadout.consumables[slot].clone();
    let flipped = GenericItemLockable { item: previous.item, locked: !previous.locked };
    set_slot(&mut loadout.consumables, slot, flipped);
}


/// What one round re-pick does to a weapon slot: the chosen round replaces
/// the one at the given position, and picking a priced variant locks the
/// slot.
pub open spec fn ammo_pick_result(s: LockableItemView, pos: int, choice: CustomAmmo) -> LockableItemView {
    LockableItemView {
        item: Some(
            ItemView {
                ammo_equipped: s.item->Some_0.ammo_equipped.update(pos, choice),
                ..s.item->Some_0
            },
        ),
        locked: s.locked || choice.1 is Some,
    }
}

/// The refund half of a round re-pick: the replaced round is refunded when
/// it was priced.
pub open spec fn ammo_pick_refund_txs(s: LockableItemView, pos: int) -> Seq<TransactionView> {
    if s.item->Some_0.ammo_equipped[pos].2 > 0 {
        seq![ammo_tx(s.item->Some_0.ammo_equipped[pos], true)]
    } else {
        Seq::<TransactionView>::empty()
    }
}

/// The ledger transactions of one round re-pick: the old round is
/// refunded when it was priced, and a priced replacement is charged.
pub open spec fn ammo_pick_txs(s: LockableItemView, pos: int, choice: CustomAmmo) -> Seq<
    TransactionView,
> {
    ammo_pick_refund_txs(s, pos) + (if choice.1 is Some {
        seq![ammo_tx(choice, false)]
    } else {
        Seq::<TransactionView>::empty()
    })
}

/// Whether the charge of a round re-pick is covered: a free choice always
/// is; a priced one must fit the weapons sub-budget after the refund.
pub open spec fn ammo_pick_covered(
    b: BudgetView,
    s: LockableItemView,
    pos: int,
    choice: CustomAmmo,
) -> bool {
    choice.1 is Some ==> crate::budget::transaction_ok(
        apply_transactions(b, ammo_pick_refund_txs(s, pos)),
        ammo_tx(choice, false),
    )
}

/// Re-picks one equipped round of a held weapon against a snapshot:
/// refunds the round it replaces when that one was priced and charges the
/// new round when it names a priced variant (which also locks the slot).
/// Only a covered charge commits; otherwise the edit rolls back whole.
pub fn select_ammo(
    loadout: &mut Loadout,
    budget: &mut Budget,
    slot: u8,
    ammo_slot: usize,
    choice: CustomAmmo,
)
    requires
        slot < 2,
        slot == 0 ==> old(loadout)@.weapon_one.item is Some && ammo_slot < old(
            loadout,
        )@.weapon_one.item->Some_0.ammo_equipped.len(),
        slot == 1 ==> old(loadout)@.weapon_two.item is Some && ammo_slot < old(
            loadout,
        )@.weapon_two.item->Some_0.ammo_equipped.len(),
    ensures
        slot == 0 ==> (if ammo_pick_covered(
            old(budget)@,
            old(loadout)@.weapon_one,
            ammo_slot as int,
            choice,
        ) {
            final(loadout)@ == (LoadoutView {
                weapon_one: ammo_pick_result(old(loadout)@.weapon_one, ammo_slot as int, choice),
                ..old(loadout)@
            }) && final(budget)@ == apply_transactions(
                old(budget)@,
                ammo_pick_txs(old(loadout)@.weapon_one, ammo_slot as int, choice),
            )
        } else {
            final(loadout)@ == old(loadout)@ && final(budget)@ == old(budget)@
        }),
        slot == 1 ==> (if ammo_pick_covered(
            old(budget)@,
            old(loadout)@.weapon_two,
            ammo_slot as int,
            choice,
        ) {
            final(loadout)@ == (LoadoutView {
                weapon_two: ammo_pick_result(old(loadout)@.weapon_two, ammo_slot as int, choice),
                ..old(loadout)@
            }) && final(budget)@ == apply_transactions(
                old(budget)@,
                ammo_pick_txs(old(loadout)@.weapon_two, ammo_slot as int, choice),
            )
        } else {
            final(loadout)@ == old(loadout)@ && final(budget)@ == old(budget)@
        }),
{
    let has_variant = match &choice.1 {
        Some(_) => true,
        None => false,
    };
    let mut scratch = budget.clone();
    let mut committed = true;
    if slot == 0 {
        match &mut loadout.weapon_one.item {
            Some(w) => {
                let current = w.ammo_equipped[ammo_slot];
                let ghost first_txs = ammo_pick_refund_txs(old(loadout)@.weapon_one, ammo_slot as int);
                if current.2 > 0 {
                    let label = ammo_label_string(&current);
                    let _tx = process_transaction(
                        &mut scratch,
                        Transaction::Bullet(true, current.2, label),
                    );
                    proof {
                        crate::loadout::lemma_apply_one_tx(old(budget)@, ammo_tx(current, true));
                    }
                } else {
                    proof {
                        assert(apply_transactions(old(budget)@, first_txs) == old(budget)@);
                    }
                }
                if has_variant {
                    let label = ammo_label_string(&choice);
                    let tx_res = process_transaction(
                        &mut scratch,
                        Transaction::Bullet(false, choice.2, label),
                    );
                    proof {
                        crate::budget::lemma_apply_transactions_concat(
                            old(budget)@,
                            first_txs,
                            seq![ammo_tx(choice, false)],
                        );
                        crate::loadout::lemma_apply_one_tx(
                            apply_transactions(old(budget)@, first_txs),
                            ammo_tx(choice, false),
                        );
                    }
                    match tx_res {
                        Ok(_) => {
                            w.ammo_equipped.set(ammo_slot, choice);
                        },
                        Err(_) => {
                            committed = false;
                        },
                    }
                } else {
                    proof {
                        assert(first_txs + Seq::<TransactionView>::empty() =~= first_txs);
                    }
                    w.ammo_equipped.set(ammo_slot, choice);
                }
            },
            None => {},
        }
        if committed {
            if has_variant {
                loadout.weapon_one.locked = true;
            }
            *budget = scratch;
        }
    } else {
        match &mut loadout.weapon_two.item {
            Some(w) => {
                let current = w.ammo_equipped[ammo_slot];
                let ghost first_txs = ammo_pick_refund_txs(old(loadout)@.weapon_two, ammo_slot as int);
                if current.2 > 0 {
                    let label = ammo_label_string(&current);
                    let _tx = process_transaction(
                        &mut scratch,
                        Transaction::Bullet(true, current.2, label),
                    );
                    proof {
                        crate::loadout::lemma_apply_one_tx(old(budget)@, ammo_tx(current, true));
                    }
                } else {
                    proof {
                        assert(apply_transactions(old(budget)@, first_txs) == old(budget)@);
                    }
                }
                if has_variant {
                    let label = ammo_label_string(&choice);
                    let tx_res = process_transaction(
                        &mut scratch,
                        Transaction::Bullet(false, choice.2, label),
                    );
                    proof {
                        crate::budget::lemma_apply_transactions_concat(
                            old(budget)@,
                            first_txs,
                            seq![ammo_tx(choice, false)],
                        );
                        crate::loadout::lemma_apply_one_tx(
                            apply_transactions(old(budget)@, first_txs),
                            ammo_tx(choice, false),
                        );
                    }
                    match tx_res {
                        Ok(_) => {
                            w.ammo_equipped.set(ammo_slot, choice);
                        },
                        Err(_) => {
                            committed = false;
                        },
                    }
                } else {
                    proof {
                        assert(first_txs + Seq::<TransactionView>::empty() =~= first_txs);
                    }
                    w.ammo_equipped.set(ammo_slot, choice);
                }
            },
            None => {},
        }
        if committed {
            if has_variant {
                loadout.weapon_two.locked = true;
            }
            *budget = scratch;
        }
    }
}

/// Whether an item already occupies another tool slot, under the
/// structural item identity.
pub open spec fn tool_excluded(v: ItemView, l: LoadoutView, slot: int) -> bool {
    exists|j: int|
        0 <= j < l.tools.len() && j != slot && (#[trigger] l.tools[j]).item is Some
            && same_item_spec(l.tools[j].item->Some_0, v)
}

/// The members of a candidate pool not already slotted elsewhere.
pub open spec fn available_of(s: Seq<ItemView>, l: LoadoutView, slot: int) -> Seq<ItemView> {
    s.filter(|v: ItemView| !tool_excluded(v, l, slot))
}

proof fn lemma_available_step(s: Seq<ItemView>, l: LoadoutView, slot: int, i: int)
    requires
        0 <= i < s.len(),
    ensures
        available_of(s.take(i + 1), l, slot) == (if !tool_excluded(s[i], l, slot) {
            available_of(s.take(i), l, slot).push(s[i])
        } else {
            available_of(s.take(i), l, slot)
        }),
        available_of(s.take(0), l, slot) == Seq::<ItemView>::empty(),
{
    reveal(Seq::filter);
    assert(s.take(i + 1).drop_last() =~= s.take(i));
    assert(s.take(i + 1).last() == s[i]);
    assert(s.take(0) =~= Seq::<ItemView>::empty());
    assert(available_of(s.take(0), l, slot) =~= Seq::<ItemView>::empty());
}

fn tool_is_excluded(loadout: &Loadout, slot: usize, item: &GenericItem) -> (r: bool)
    requires
        loadout@.wf(),
        slot < 4,
    ensures
        r == tool_excluded(item@, loadout@, slot as int),
{
    let mut j: usize = 0;
    while j < loadout.tools.len()
        invariant
            loadout@.tools.len() == 4,
            j <= 4,
            loadout.tools@.len() == 4,
            forall|k: int|
                0 <= k < j && k != slot ==> !((#[trigger] loadout@.tools[k]).item is Some
                    && same_item_spec(loadout@.tools[k].item->Some_0, item@)),
        decreases 4 - j,
    {
        if j != slot {
            match &loadout.tools[j].item {
                Some(existing) => {
                    if existing.same_item(item) {
                        proof {
                            assert(loadout@.tools[j as int].item is Some && same_item_spec(
                                loadout@.tools[j as int].item->Some_0,
                                item@,
                            ));
                        }
                        return true;
                    }
                },
                None => {},
            }
        }
        j = j + 1;
    }
    false
}

/// Re-randomizes one tool slot: draws uniformly among the slot's
/// preference pool, excluding items already slotted elsewhere (the draw
/// ignores cost), then refunds the old contents and charges the new
/// against a snapshot that becomes the live budget. When no candidate is
/// left the slot and the ledger are untouched.
pub fn random_tool(
    loadout: &mut Loadout,
    budget: &mut Budget,
    config: &Config,
    slot: u8,
    rng: &mut rand::rngs::StdRng,
    catalog: &CoreSearchUtil,
)
    requires
        slot < 4,
        catalog@.wf(),
        old(loadout)@.wf(),
        config@.wf(),
    ensures
        available_of(
            preference_pool(catalog@, config@.tool_preferences[slot as int]),
            old(loadout)@,
            slot as int,
        ).len() == 0 ==> final(loadout)@ == old(loadout)@ && final(budget)@ == old(budget)@,
        available_of(
            preference_pool(catalog@, config@.tool_preferences[slot as int]),
            old(loadout)@,
            slot as int,
        ).len() > 0 ==> (final(loadout)@.tools[slot as int].item is Some && available_of(
            preference_pool(catalog@, config@.tool_preferences[slot as int]),
            old(loadout)@,
            slot as int,
        ).contains(final(loadout)@.tools[slot as int].item->Some_0) && (final(loadout)@
            == (LoadoutView {
            tools: old(loadout)@.tools.update(
                slot as int,
                LockableItemView {
                    item: final(loadout)@.tools[slot as int].item,
                    locked: old(loadout)@.tools[slot as int].locked,
                },
            ),
            ..old(loadout)@
        })) && final(budget)@ == apply_transactions(
            apply_transactions(old(budget)@, slot_txs(old(loadout)@.tools[slot as int], true)),
            slot_txs(final(loadout)@.tools[slot as int], false),
        ) && purchases_covered(
            apply_transactions(old(budget)@, slot_txs(old(loadout)@.tools[slot as int], true)),
            slot_txs(final(loadout)@.tools[slot as int], false),
        )) || (final(loadout)@ == old(loadout)@ && final(budget)@ == old(budget)@),
{
    let sloti = slot as usize;
    let pref = config.tool_preferences[sloti];
    let random_tools = crate::gear::preference_candidates(catalog, pref);
    let ghost pool = items_view(random_tools@);
    let ghost l0 = old(loadout)@;

    let mut candidates: Vec<GenericItem> = Vec::new();
    let mut i: usize = 0;
    proof {
        reveal(Seq::filter);
        assert(pool.take(0) =~= Seq::<ItemView>::empty());
        assert(available_of(pool.take(0), l0, slot as int) =~= Seq::<ItemView>::empty());
        assert(items_view(candidates@) =~= available_of(pool.take(0), l0, slot as int));
    }
    while i < random_tools.len()
        invariant
            loadout@ == l0,
            loadout@.wf(),
            slot < 4,
            sloti == slot,
            pool == items_view(random_tools@),
            items_view(candidates@) == available_of(pool.take(i as int), l0, slot as int),
            i <= random_tools@.len(),
            forall|j: int|
                0 <= j < candidates@.len() ==> catalog@.tools.contains(
                    #[trigger] items_view(candidates@)[j],
                ),
            forall|j: int|
                0 <= j < random_tools@.len() ==> catalog@.tools.contains(
                    #[trigger] items_view(random_tools@)[j],
                ),
        decreases random_tools@.len() - i,
    {
        let excluded = tool_is_excluded(loadout, sloti, &random_tools[i]);
        proof {
            lemma_available_step(pool, l0, slot as int, i as int);
            assert(pool[i as int] == random_tools@[i as int]@);
        }
        if !excluded {
            candidates.push(random_tools[i].clone());
            proof {
                assert(items_view(candidates@) =~= available_of(
                    pool.take(i as int + 1),
                    l0,
                    slot as int,
                ));
                assert(items_view(candidates@)[candidates@.len() - 1] == pool[i as int]);
            }
        }
        i = i + 1;
    }
    proof {
        assert(pool.take(pool.len() as int) =~= pool);
    }

    if candidates.len() > 0 {
        let idx = rng_index(rng, candidates.len());
        let new_tool = candidates[idx].clone();
        proof {
            assert(items_view(candidates@)[idx as int] == candidates@[idx as int]@);
            let j = choose|j: int|
                0 <= j < catalog@.tools.len() && catalog@.tools[j] == new_tool@;
            assert(crate::core_search_util::catalog_item_wf(catalog@.tools[j]));
        }
        let mut previous_budget = budget.clone();
        let previous_tool = loadout.tools[sloti].clone();
        proof {
            assert(previous_tool@ == old(loadout)@.tools[slot as int]);
            assert(slot_cost_ok(old(loadout)@.tools[slot as int]));
        }
        let kept_lock = previous_tool.locked;
        set_slot(
            &mut loadout.tools,
            sloti,
            GenericItemLockable { item: Some(new_tool), locked: kept_lock },
        );
        refund_item(&mut previous_budget, &previous_tool);
        proof {
            assert(slots_view(loadout.tools@)[slot as int].item is Some);
            assert(effective_cost(slots_view(loadout.tools@)[slot as int].item->Some_0) <= 65535);
        }
        let covered = purchase_item_checked(&mut previous_budget, &loadout.tools[sloti]);
        if covered {
            *budget = previous_budget;
        } else {
            set_slot(&mut loadout.tools, sloti, previous_tool);
            proof {
                assert(slots_view(loadout.tools@) =~= old(loadout)@.tools);
            }
        }
    }
}

/// Re-randomizes one consumable slot: draws uniformly over the whole
/// consumable catalog (the draw ignores cost), then refunds the old
/// contents and charges the new against a snapshot that becomes the live
/// budget. With an empty catalog nothing changes.
pub fn random_consumable(
    loadout: &mut Loadout,
    budget: &mut Budget,
    slot: u8,
    rng: &mut rand::rngs::StdRng,
    catalog: &CoreSearchUtil,
)
    requires
        slot < 4,
        catalog@.wf(),
        old(loadout)@.wf(),
    ensures
        catalog@.consumables.len() == 0 ==> final(loadout)@ == old(loadout)@ && final(budget)@
            == old(budget)@,
        catalog@.consumables.len() > 0 ==> (final(loadout)@.consumables[slot as int].item is Some
            && catalog@.consumables.contains(final(loadout)@.consumables[slot as int].item->Some_0)
            && (final(loadout)@ == (LoadoutView {
            consumables: old(loadout)@.consumables.update(
                slot as int,
                LockableItemView {
                    item: final(loadout)@.consumables[slot as int].item,
                    locked: old(loadout)@.consumables[slot as int].locked,
                },
            ),
            ..old(loadout)@
        })) && final(budget)@ == apply_transactions(
            apply_transactions(
                old(budget)@,
                slot_txs(old(loadout)@.consumables[slot as int], true),
            ),
            slot_txs(final(loadout)@.consumables[slot as int], false),
        ) && purchases_covered(
            apply_transactions(
                old(budget)@,
                slot_txs(old(loadout)@.consumables[slot as int], true),
            ),
            slot_txs(final(loadout)@.consumables[slot as int], false),
        )) || (final(loadout)@ == old(loadout)@ && final(budget)@ == old(budget)@),
{
    let sloti = slot as usize;
    if catalog.consumables.len() > 0 {
        let idx = rng_index(rng, catalog.consumables.len());
        let new_consumable = catalog.consumables[idx].clone();
        proof {
            assert(catalog@.consumables[idx as int] == catalog.consumables@[idx as int]@);
            assert(catalog@.consumables.contains(new_consumable@));
            assert(crate::core_search_util::catalog_item_wf(catalog@.consumables[idx as int]));
        }
        let mut previous_budget = budget.clone();
        let previous_consumable = loadout.consumables[sloti].clone();
        proof {
            assert(previous_consumable@ == old(loadout)@.consumables[slot as int]);
            assert(slot_cost_ok(old(loadout)@.consumables[slot as int]));
        }
        let kept_lock = previous_consumable.locked;
        set_slot(
            &mut loadout.consumables,
            sloti,
            GenericItemLockable { item: Some(new_consumable), locked: kept_lock },
        );
        refund_item(&mut previous_budget, &previous_consumable);
        proof {
            assert(slots_view(loadout.consumables@)[slot as int].item is Some);
            assert(effective_cost(slots_view(loadout.consumables@)[slot as int].item->Some_0)
                <= 65535);
        }
        let covered = purchase_item_checked(&mut previous_budget, &loadout.consumables[sloti]);
        if covered {
            *budget = previous_budget;
        } else {
            set_slot(&mut loadout.consumables, sloti, previous_consumable);
            proof {
                assert(slots_view(loadout.consumables@) =~= old(loadout)@.consumables);
            }
        }
    }
}

} // verus!
