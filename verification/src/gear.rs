//! The tool and consumable assignment engine: the reset passes that clear
//! unlocked slots and re-charge locked ones, the preference-filtered
//! random fills, and the pass that sinks empty unlocked slots to the end.

use vstd::prelude::*;
use vstd::pervasive::VecAdditionalExecFns;

use crate::budget::{apply_transaction, process_transaction, transaction_ok, Budget, BudgetView,
    Transaction, TransactionKind, TransactionView};
use crate::content::ToolSlotPreference;
use crate::core_search_util::{items_view, CatalogView, CoreSearchUtil};
use crate::generic_item::{effective_cost, full_name, opt_item_view, same_item_spec,
    same_opt_item_spec, GenericItem, GenericItemLockable, ItemView, LockableItemView};
use crate::loadout::{item_lte_cost, locked_funds_message, slot_cost_ok, slots_view, Loadout,
    LoadoutError, LoadoutErrorView};

verus! {

/// The ledger transaction that charges for a kept tool or consumable.
pub open spec fn gear_tx(v: ItemView, is_tool: bool) -> TransactionView {
    TransactionView {
        kind: if is_tool {
            TransactionKind::Tool
        } else {
            TransactionKind::Consumable
        },
        refund: false,
        amount: effective_cost(v) as u16,
        label: full_name(v),
    }
}

/// The slots after a reset pass: unlocked slots are emptied, locked slots
/// are kept.
pub open spec fn cleared_slots(slots: Seq<LockableItemView>) -> Seq<LockableItemView> {
    Seq::new(
        slots.len(),
        |i: int|
            if slots[i].locked {
                slots[i]
            } else {
                LockableItemView { item: None, locked: false }
            },
    )
}

/// The budget after the first `upto` slots of a reset pass: each locked,
/// occupied slot is re-charged in slot order.
pub open spec fn reset_gear_budget(
    slots: Seq<LockableItemView>,
    b: BudgetView,
    is_tool: bool,
    upto: int,
) -> BudgetView
    decreases upto,
{
    if upto <= 0 {
        b
    } else {
        let prev = reset_gear_budget(slots, b, is_tool, upto - 1);
        if slots[upto - 1].locked && slots[upto - 1].item is Some {
            apply_transaction(prev, gear_tx(slots[upto - 1].item->Some_0, is_tool))
        } else {
            prev
        }
    }
}

/// The errors recorded over the first `upto` slots of a reset pass: one
/// per locked item whose re-charge the sub-budget cannot cover.
pub open spec fn reset_gear_errors(
    slots: Seq<LockableItemView>,
    b: BudgetView,
    is_tool: bool,
    upto: int,
) -> Seq<LoadoutErrorView>
    decreases upto,
{
    if upto <= 0 {
        Seq::empty()
    } else {
        let errs = reset_gear_errors(slots, b, is_tool, upto - 1);
        if slots[upto - 1].locked && slots[upto - 1].item is Some && !transaction_ok(
            reset_gear_budget(slots, b, is_tool, upto - 1),
            gear_tx(slots[upto - 1].item->Some_0, is_tool),
        ) {
            errs.push(
                if is_tool {
                    LoadoutErrorView::Tool {
                        error: locked_funds_message(),
                        slot: (upto - 1) as u8,
                    }
                } else {
                    LoadoutErrorView::Consumable {
                        error: locked_funds_message(),
                        slot: (upto - 1) as u8,
                    }
                },
            )
        } else {
            errs
        }
    }
}

/// A reset pass never changes the initial allowance.
pub proof fn lemma_reset_gear_keeps_initial(
    slots: Seq<LockableItemView>,
    b: BudgetView,
    is_tool: bool,
    upto: int,
)
    ensures
        reset_gear_budget(slots, b, is_tool, upto).initial_budget == b.initial_budget,
    decreases upto,
{
    if upto > 0 {
        lemma_reset_gear_keeps_initial(slots, b, is_tool, upto - 1);
    }
}

/// Clears every unlocked tool slot and re-charges every locked tool, in
/// slot order, recording a non-fatal error for each locked tool the tools
/// sub-budget can no longer cover (the item is kept).
pub fn reset_tools(loadout: &mut Loadout, budget: &mut Budget)
    requires
        old(loadout)@.wf(),
    ensures
        final(loadout)@.tools == cleared_slots(old(loadout)@.tools),
        final(budget)@ == reset_gear_budget(
            old(loadout)@.tools,
            old(budget)@,
            true,
            old(loadout)@.tools.len() as int,
        ),
        final(loadout)@.errors == old(loadout)@.errors + reset_gear_errors(
            old(loadout)@.tools,
            old(budget)@,
            true,
            old(loadout)@.tools.len() as int,
        ),
        final(loadout)@.weapon_one == old(loadout)@.weapon_one,
        final(loadout)@.weapon_two == old(loadout)@.weapon_two,
        final(loadout)@.consumables == old(loadout)@.consumables,
        final(loadout)@.wf(),
{
    let ghost s = slots_view(old(loadout).tools@);
    let ghost b0 = old(budget)@;
    let mut slot: usize = 0;
    proof {
        assert(old(loadout)@.errors + reset_gear_errors(s, b0, true, 0) =~= old(loadout)@.errors);
    }
    while slot < loadout.tools.len()
        invariant
            old(loadout)@.wf(),
            slot <= loadout.tools@.len(),
            loadout.tools@.len() == s.len(),
            s == slots_view(old(loadout).tools@),
            b0 == old(budget)@,
            forall|k: int|
                0 <= k < slot ==> slots_view(loadout.tools@)[k] == cleared_slots(s)[k],
            forall|k: int| slot <= k < s.len() ==> slots_view(loadout.tools@)[k] == s[k],
            budget@ == reset_gear_budget(s, b0, true, slot as int),
            crate::loadout::errors_view(loadout.errors@) == old(loadout)@.errors
                + reset_gear_errors(s, b0, true, slot as int),
            loadout.weapon_one@ == old(loadout)@.weapon_one,
            loadout.weapon_two@ == old(loadout)@.weapon_two,
            slots_view(loadout.consumables@) == old(loadout)@.consumables,
        decreases loadout.tools@.len() - slot,
    {
        let locked = loadout.tools[slot].locked;
        if !locked {
            loadout.tools.set(slot, GenericItemLockable { item: None, locked: false });
            proof {
                assert forall|k: int|
                    0 <= k < slot + 1 implies slots_view(loadout.tools@)[k] == cleared_slots(s)[k]
                by {
                    if k < slot {
                        assert(loadout.tools@[k] == old(loadout).tools@[k]
                            || slots_view(loadout.tools@)[k] == cleared_slots(s)[k]);
                    }
                }
            }
        } else {
            let item_opt = match &loadout.tools[slot].item {
                Some(t) => Some(t.clone()),
                None => None,
            };
            match item_opt {
                Some(tool) => {
                    proof {
                        assert(slot_cost_ok(s[slot as int]));
                        assert(tool@ == s[slot as int].item->Some_0);
                    }
                    let tx_res = process_transaction(
                        budget,
                        Transaction::Tool(false, tool.get_cost(), tool.to_full_name()),
                    );
                    match tx_res {
                        Ok(_) => {},
                        Err(_) => {
                            let ghost pre = loadout.errors@;
                            loadout.errors.push(
                                LoadoutError::Tool {
                                    error:
                                        "Insufficient Funds, try unlocking this item or increase your budget.".to_owned(),
                                    slot: slot as u8,
                                },
                            );
                            proof {
                                let entry = LoadoutErrorView::Tool {
                                    error: locked_funds_message(),
                                    slot: slot as u8,
                                };
                                let e = loadout.errors@.last();
                                assert(loadout.errors@ == pre.push(e));
                                assert(e@ == entry);
                                crate::loadout::lemma_errors_view_push(pre, e);
                                assert(crate::loadout::errors_view(loadout.errors@)
                                    =~= old(loadout)@.errors + reset_gear_errors(
                                    s,
                                    b0,
                                    true,
                                    slot as int,
                                ).push(entry));
                            }
                        },
                    }
                },
                None => {},
            }
        }
        slot = slot + 1;
    }
    proof {
        assert(slots_view(loadout.tools@) =~= cleared_slots(s));
    }
}

/// Clears every unlocked consumable slot and re-charges every locked
/// consumable, in slot order, recording a non-fatal error for each locked
/// consumable the consumables sub-budget can no longer cover.
pub fn reset_consumables(loadout: &mut Loadout, budget: &mut Budget)
    requires
        old(loadout)@.wf(),
    ensures
        final(loadout)@.consumables == cleared_slots(old(loadout)@.consumables),
        final(budget)@ == reset_gear_budget(
            old(loadout)@.consumables,
            old(budget)@,
            false,
            old(loadout)@.consumables.len() as int,
        ),
        final(loadout)@.errors == old(loadout)@.errors + reset_gear_errors(
            old(loadout)@.consumables,
            old(budget)@,
            false,
            old(loadout)@.consumables.len() as int,
        ),
        final(loadout)@.weapon_one == old(loadout)@.weapon_one,
        final(loadout)@.weapon_two == old(loadout)@.weapon_two,
        final(loadout)@.tools == old(loadout)@.tools,
        final(loadout)@.wf(),
{
    let ghost s = slots_view(old(loadout).consumables@);
    let ghost b0 = old(budget)@;
    let mut slot: usize = 0;
    proof {
        assert(old(loadout)@.errors + reset_gear_errors(s, b0, false, 0) =~= old(loadout)@.errors);
    }
    while slot < loadout.consumables.len()
        invariant
            old(loadout)@.wf(),
            slot <= loadout.consumables@.len(),
            loadout.consumables@.len() == s.len(),
            s == slots_view(old(loadout).consumables@),
            b0 == old(budget)@,
            forall|k: int|
                0 <= k < slot ==> slots_view(loadout.consumables@)[k] == cleared_slots(s)[k],
            forall|k: int| slot <= k < s.len() ==> slots_view(loadout.consumables@)[k] == s[k],
            budget@ == reset_gear_budget(s, b0, false, slot as int),
            crate::loadout::errors_view(loadout.errors@) == old(loadout)@.errors
                + reset_gear_errors(s, b0, false, slot as int),
            loadout.weapon_one@ == old(loadout)@.weapon_one,
            loadout.weapon_two@ == old(loadout)@.weapon_two,
            slots_view(loadout.tools@) == old(loadout)@.tools,
        decreases loadout.consumables@.len() - slot,
    {
        let locked = loadout.consumables[slot].locked;
        if !locked {
            loadout.consumables.set(slot, GenericItemLockable { item: None, locked: false });
            proof {
                assert forall|k: int|
                    0 <= k < slot + 1 implies slots_view(loadout.consumables@)[k] == cleared_slots(
                    s,
                )[k] by {
                    if k < slot {
                        assert(loadout.consumables@[k] == old(loadout).consumables@[k]
                            || slots_view(loadout.consumables@)[k] == cleared_slots(s)[k]);
                    }
                }
            }
        } else {
            let item_opt = match &loadout.consumables[slot].item {
                Some(c) => Some(c.clone()),
                None => None,
            };
            match item_opt {
                Some(consumable) => {
                    proof {
                        assert(slot_cost_ok(s[slot as int]));
                        assert(consumable@ == s[slot as int].item->Some_0);
                    }
                    let tx_res = process_transaction(
                        budget,
                        Transaction::Consumable(
                            false,
                            consumable.get_cost(),
                            consumable.to_full_name(),
                        ),
                    );
                    match tx_res {
                        Ok(_) => {},
                        Err(_) => {
                            let ghost pre = loadout.errors@;
                            loadout.errors.push(
                                LoadoutError::Consumable {
                                    error:
                                        "Insufficient Funds, try unlocking this item or increase your budget.".to_owned(),
                                    slot: slot as u8,
                                },
                            );
                            proof {
                                let entry = LoadoutErrorView::Consumable {
                                    error: locked_funds_message(),
                                    slot: slot as u8,
                                };
                                let e = loadout.errors@.last();
                                assert(loadout.errors@ == pre.push(e));
                                assert(e@ == entry);
                                crate::loadout::lemma_errors_view_push(pre, e);
                                assert(crate::loadout::errors_view(loadout.errors@)
                                    =~= old(loadout)@.errors + reset_gear_errors(
                                    s,
                                    b0,
                                    false,
                                    slot as int,
                                ).push(entry));
                            }
                        },
                    }
                },
                None => {},
            }
        }
        slot = slot + 1;
    }
    proof {
        assert(slots_view(loadout.consumables@) =~= cleared_slots(s));
    }
}

/// How many of the slots in `[from, to)` hold an item.
pub open spec fn count_full(s: Seq<LockableItemView>, from: int, to: int) -> int
    decreases to - from,
{
    if to <= from {
        0
    } else {
        count_full(s, from, to - 1) + (if s[to - 1].item is Some {
            1int
        } else {
            0int
        })
    }
}

/// How many of the slots in `[from, to)` are empty.
pub open spec fn count_empty(s: Seq<LockableItemView>, from: int, to: int) -> int
    decreases to - from,
{
    if to <= from {
        0
    } else {
        count_empty(s, from, to - 1) + (if s[to - 1].item is None {
            1int
        } else {
            0int
        })
    }
}

proof fn lemma_counts_sum(s: Seq<LockableItemView>, from: int, to: int)
    requires
        from <= to,
    ensures
        count_full(s, from, to) + count_empty(s, from, to) == to - from,
    decreases to - from,
{
    if to > from {
        lemma_counts_sum(s, from, to - 1);
    }
}

/// Whether some position of a slot sequence holds exactly this value.
pub open spec fn value_kept(after: Seq<LockableItemView>, v: LockableItemView) -> bool {
    exists|m: int| 0 <= m < after.len() && (#[trigger] after[m]) == v
}

proof fn lemma_value_kept_grow(a: Seq<LockableItemView>, b: Seq<LockableItemView>, v: LockableItemView)
    requires
        value_kept(a, v),
        a.len() <= b.len(),
        forall|m: int| 0 <= m < a.len() ==> a[m] == b[m],
    ensures
        value_kept(b, v),
{
    let m0 = choose|m0: int| 0 <= m0 < a.len() && a[m0] == v;
    assert(b[m0] == v);
}

/// One sequence of slots is a re-ordering of another, witnessed by the
/// source index of each position, with held slots keeping their relative
/// order.
pub open spec fn slots_permuted(
    after: Seq<LockableItemView>,
    before: Seq<LockableItemView>,
    src: Seq<int>,
) -> bool {
    &&& src.len() == before.len()
    &&& after.len() == before.len()
    &&& src.no_duplicates()
    &&& forall|m: int|
        0 <= m < src.len() ==> 0 <= #[trigger] src[m] < src.len() && after[m] == before[src[m]]
    &&& forall|a: int, b: int|
        0 <= a < b < src.len() && after[a].item is Some && after[b].item is Some ==> src[a]
            < src[b]
}

/// Sinks empty unlocked slots behind held ones within every run of
/// unlocked slots; locked slots never move, and held slots keep their
/// relative order. Comparisons involving a locked slot report equality, so
/// a locked slot is a barrier the pass does not cross.
pub fn sink_empty_slots(slots: &mut Vec<GenericItemLockable>)
    ensures
        final(slots)@.len() == old(slots)@.len(),
        forall|i: int|
            0 <= i < old(slots)@.len() && old(slots)@[i]@.locked ==> slots_view(final(slots)@)[i]
                == slots_view(old(slots)@)[i],
        exists|src: Seq<int>|
            #[trigger] slots_permuted(slots_view(final(slots)@), slots_view(old(slots)@), src),
        forall|q: int|
            0 <= q < old(slots)@.len() ==> #[trigger] value_kept(
                slots_view(final(slots)@),
                slots_view(old(slots)@)[q],
            ),
        (forall|i: int| 0 <= i < old(slots)@.len() ==> !(#[trigger] old(slots)@[i]@.locked))
            ==> (forall|a: int, b: int|
            0 <= a < b < old(slots)@.len() && slots_view(final(slots)@)[a].item is None
                ==> slots_view(final(slots)@)[b].item is None),
{
    let ghost s = slots_view(old(slots)@);
    let n = slots.len();
    let mut result: Vec<GenericItemLockable> = Vec::new();
    let ghost mut src = Seq::<int>::empty();
    let mut i: usize = 0;
    while i < n
        invariant
            i <= n,
            n == slots@.len(),
            slots@ == old(slots)@,
            s == slots_view(old(slots)@),
            result@.len() == i,
            src.len() == i,
            forall|m: int| 0 <= m < i ==> 0 <= #[trigger] src[m] < i,
            forall|m: int| 0 <= m < i ==> (#[trigger] result@[m])@ == s[src[m]],
            src.no_duplicates(),
            forall|a: int, b: int|
                0 <= a < b < i && (#[trigger] result@[a])@.item is Some && (
                #[trigger] result@[b])@.item is Some ==> src[a] < src[b],
            forall|k: int| 0 <= k < i && s[k].locked ==> (#[trigger] result@[k])@ == s[k],
            forall|q: int| 0 <= q < i ==> #[trigger] value_kept(slots_view(result@), s[q]),
            (forall|k: int| 0 <= k < s.len() ==> !s[k].locked) ==> (i == 0 || i == n),
            (forall|k: int| 0 <= k < s.len() ==> !s[k].locked) ==> (forall|a: int, b: int|
                0 <= a < b < i && (#[trigger] result@[a])@.item is None ==> (
                #[trigger] result@[b])@.item is None),
        decreases n - i,
    {
        if slots[i].locked {
            let ghost pre_view = slots_view(result@);
            result.push(slots[i].clone());
            proof {
                assert forall|m: int|
                    0 <= m < pre_view.len() implies pre_view[m] == slots_view(result@)[m] by {
                    assert(slots_view(result@)[m] == result@[m]@);
                }
                src = src.push(i as int);
                assert(result@[i as int]@ == s[i as int]);
                assert(s[i as int].locked);
                assert forall|q: int|
                    0 <= q < i + 1 implies #[trigger] value_kept(slots_view(result@), s[q]) by {
                    if q == i as int {
                        assert(slots_view(result@)[i as int] == s[q]);
                    } else {
                        lemma_value_kept_grow(pre_view, slots_view(result@), s[q]);
                    }
                }
                assert forall|a: int, b: int| 0 <= a < b < src.len() implies src[a] != src[b] by {
                    if b == src.len() - 1 {
                        assert(src[a] < i as int);
                    }
                }
            }
            i = i + 1;
        } else {
            let start = i;
            let mut j = i;
            while j < n && !slots[j].locked
                invariant
                    start <= j <= n,
                    n == slots@.len(),
                    slots@ == old(slots)@,
                    s == slots_view(old(slots)@),
                    forall|k: int| start <= k < j ==> !(#[trigger] s[k]).locked,
                decreases n - j,
            {
                proof {
                    assert(s[j as int] == slots@[j as int]@);
                }
                j = j + 1;
            }
            let mut k = start;
            while k < j
                invariant
                    start <= k <= j <= n,
                    n == slots@.len(),
                    slots@ == old(slots)@,
                    s == slots_view(old(slots)@),
                    forall|m: int| start <= m < j ==> !(#[trigger] s[m]).locked,
                    0 <= count_full(s, start as int, k as int) <= k - start,
                    result@.len() == start + count_full(s, start as int, k as int),
                    src.len() == result@.len(),
                    forall|m: int| 0 <= m < start ==> 0 <= #[trigger] src[m] < start,
                    forall|m: int|
                        start <= m < src.len() ==> start <= #[trigger] src[m] < k && s[src[
                            m]].item is Some,
                    forall|m: int| 0 <= m < src.len() ==> (#[trigger] result@[m])@ == s[src[m]],
                    src.no_duplicates(),
                    forall|a: int, b: int|
                        0 <= a < b < src.len() && (#[trigger] result@[a])@.item is Some && (
                        #[trigger] result@[b])@.item is Some ==> src[a] < src[b],
                    forall|a: int, b: int|
                        start <= a < b < src.len() ==> #[trigger] src[a] < #[trigger] src[b],
                    forall|m: int|
                        start <= m < result@.len() ==> !(#[trigger] result@[m])@.locked
                            && result@[m]@.item is Some,
                    forall|m: int|
                        0 <= m < start && s[m].locked ==> (#[trigger] result@[m])@ == s[m],
                    forall|q: int|
                        0 <= q < start || (start <= q < k && s[q].item is Some)
                            ==> #[trigger] value_kept(slots_view(result@), s[q]),
                    (forall|m: int| 0 <= m < s.len() ==> !s[m].locked) ==> start == 0,
                    (forall|m: int| 0 <= m < s.len() ==> !s[m].locked) ==> (forall|a: int, b: int|
                        0 <= a < b < start && (#[trigger] result@[a])@.item is None ==> (
                        #[trigger] result@[b])@.item is None),
                decreases j - k,
            {
                let has_item = match &slots[k].item {
                    Some(_) => true,
                    None => false,
                };
                if has_item {
                    let ghost pre_view = slots_view(result@);
                    result.push(slots[k].clone());
                    proof {
                        assert forall|m: int|
                            0 <= m < pre_view.len() implies pre_view[m] == slots_view(result@)[m]
                        by {
                            assert(slots_view(result@)[m] == result@[m]@);
                        }
                        src = src.push(k as int);
                        assert(result@[result@.len() - 1]@ == s[k as int]);
                        assert forall|a: int, b: int|
                            0 <= a < b < src.len() implies src[a] != src[b] by {
                            if b == src.len() - 1 {
                                assert(src[a] < k as int);
                            }
                        }
                        assert forall|q: int|
                            0 <= q < start || (start <= q < k + 1 && s[q].item is Some)
                            implies #[trigger] value_kept(slots_view(result@), s[q]) by {
                            if q == k as int {
                                assert(slots_view(result@)[result@.len() - 1] == s[q]);
                            } else {
                                lemma_value_kept_grow(pre_view, slots_view(result@), s[q]);
                            }
                        }
                    }
                }
                k = k + 1;
            }
            let ghost full_len = result@.len();
            let mut k2 = start;
            while k2 < j
                invariant
                    start <= k2 <= j <= n,
                    n == slots@.len(),
                    slots@ == old(slots)@,
                    s == slots_view(old(slots)@),
                    forall|m: int| start <= m < j ==> !(#[trigger] s[m]).locked,
                    full_len == start + count_full(s, start as int, j as int),
                    0 <= count_full(s, start as int, j as int) <= j - start,
                    0 <= count_empty(s, start as int, k2 as int) <= k2 - start,
                    result@.len() == full_len + count_empty(s, start as int, k2 as int),
                    src.len() == result@.len(),
                    forall|m: int| 0 <= m < start ==> 0 <= #[trigger] src[m] < start,
                    forall|m: int|
                        start <= m < full_len ==> start <= #[trigger] src[m] < j && s[src[
                            m]].item is Some,
                    forall|m: int|
                        full_len <= m < src.len() ==> start <= #[trigger] src[m] < k2 && s[src[
                            m]].item is None,
                    forall|m: int| 0 <= m < src.len() ==> (#[trigger] result@[m])@ == s[src[m]],
                    src.no_duplicates(),
                    forall|a: int, b: int|
                        0 <= a < b < src.len() && (#[trigger] result@[a])@.item is Some && (
                        #[trigger] result@[b])@.item is Some ==> src[a] < src[b],
                    forall|a: int, b: int|
                        full_len <= a < b < src.len() ==> #[trigger] src[a] < #[trigger] src[b],
                    forall|m: int|
                        full_len <= m < result@.len() ==> !(#[trigger] result@[m])@.locked
                            && result@[m]@.item is None,
                    forall|m: int|
                        start <= m < full_len ==> !(#[trigger] result@[m])@.locked
                            && result@[m]@.item is Some,
                    forall|m: int|
                        0 <= m < start && s[m].locked ==> (#[trigger] result@[m])@ == s[m],
                    forall|q: int|
                        0 <= q < start || (start <= q < j && s[q].item is Some) || (start <= q < k2
                            && s[q].item is None) ==> #[trigger] value_kept(
                            slots_view(result@),
                            s[q],
                        ),
                    (forall|m: int| 0 <= m < s.len() ==> !s[m].locked) ==> start == 0,
                    (forall|m: int| 0 <= m < s.len() ==> !s[m].locked) ==> (forall|a: int, b: int|
                        0 <= a < b < start && (#[trigger] result@[a])@.item is None ==> (
                        #[trigger] result@[b])@.item is None),
                decreases j - k2,
            {
                let is_empty = match &slots[k2].item {
                    Some(_) => false,
                    None => true,
                };
                if is_empty {
                    let ghost pre_view = slots_view(result@);
                    result.push(slots[k2].clone());
                    proof {
                        assert forall|m: int|
                            0 <= m < pre_view.len() implies pre_view[m] == slots_view(result@)[m]
                        by {
                            assert(slots_view(result@)[m] == result@[m]@);
                        }
                        src = src.push(k2 as int);
                        assert(result@[result@.len() - 1]@ == s[k2 as int]);
                        assert forall|q: int|
                            0 <= q < start || (start <= q < j && s[q].item is Some) || (start <= q
                                < k2 + 1 && s[q].item is None) implies #[trigger] value_kept(
                            slots_view(result@),
                            s[q],
                        ) by {
                            if q == k2 as int {
                                assert(slots_view(result@)[result@.len() - 1] == s[q]);
                            } else {
                                lemma_value_kept_grow(pre_view, slots_view(result@), s[q]);
                            }
                        }
                        assert forall|a: int, b: int|
                            0 <= a < b < src.len() implies src[a] != src[b] by {
                            if b == src.len() - 1 {
                                if a < start {
                                    assert(src[a] < start);
                                } else if a < full_len {
                                    assert(s[src[a]].item is Some);
                                    assert(s[k2 as int].item is None);
                                } else {
                                    assert(src[a] < k2 as int);
                                }
                            }
                        }
                    }
                }
                k2 = k2 + 1;
            }
            proof {
                lemma_counts_sum(s, start as int, j as int);
                assert(result@.len() == j);
                if j < n {
                    assert(s[j as int] == slots@[j as int]@);
                    assert(s[j as int].locked);
                }
                if forall|m: int| 0 <= m < s.len() ==> !(#[trigger] s[m]).locked {
                    assert(start == 0);
                    assert forall|a: int, b: int|
                        0 <= a < b < j && (#[trigger] result@[a])@.item is None implies (
                    #[trigger] result@[b])@.item is None by {
                        assert(a >= full_len);
                    }
                }
            }
            i = j;
        }
    }
    proof {
        assert(result@.len() == n);
    }
    *slots = result;
    proof {
        let ghost witness = src;
        assert forall|m: int|
            0 <= m < n implies slots_view(slots@)[m] == s[witness[m]] by {
            assert(slots_view(slots@)[m] == slots@[m]@);
        }
        assert forall|ii: int|
            0 <= ii < s.len() && s[ii].locked implies slots_view(slots@)[ii] == s[ii] by {
            assert(slots_view(slots@)[ii] == slots@[ii]@);
        }
        assert(slots_permuted(slots_view(slots@), s, witness));
        assert forall|q: int|
            0 <= q < n implies #[trigger] value_kept(slots_view(slots@), s[q]) by {
            assert(value_kept(slots_view(result@), s[q]));
        }
        if forall|k: int| 0 <= k < s.len() ==> !(#[trigger] old(slots)@[k]@.locked) {
            assert forall|a: int, b: int|
                0 <= a < b < s.len() && slots_view(slots@)[a].item is None implies slots_view(
                slots@,
            )[b].item is None by {
                assert(forall|k: int| 0 <= k < s.len() ==> !(#[trigger] s[k]).locked);
                assert(slots_view(slots@)[a] == slots@[a]@);
                assert(slots_view(slots@)[b] == slots@[b]@);
            }
        }
    }
}

/// The candidate pool a tool slot draws from, by its preference.
pub open spec fn preference_pool(catalog: CatalogView, pref: ToolSlotPreference) -> Seq<ItemView> {
    match pref {
        ToolSlotPreference::NoPreference => catalog.tools,
        ToolSlotPreference::Decoys => crate::core_search_util::decoy_tools_of(catalog.tools),
        ToolSlotPreference::Tripmines => crate::core_search_util::trip_mines_of(catalog.tools),
        ToolSlotPreference::Melee => crate::core_search_util::melee_tools_of(catalog.tools),
        ToolSlotPreference::Throwable => crate::core_search_util::throwables_of(catalog.tools),
        ToolSlotPreference::Medkit => crate::core_search_util::medkits_of(catalog.tools),
        ToolSlotPreference::Others => crate::core_search_util::other_tools_of(catalog.tools),
    }
}

fn clone_items(v: &Vec<GenericItem>) -> (r: Vec<GenericItem>)
    ensures
        items_view(r@) == items_view(v@),
{
    let mut r: Vec<GenericItem> = Vec::new();
    let mut i: usize = 0;
    while i < v.len()
        invariant
            i <= v.len(),
            r@.len() == i,
            forall|k: int| 0 <= k < i ==> (#[trigger] r@[k])@ == v@[k]@,
        decreases v.len() - i,
    {
        r.push(v[i].clone());
        i = i + 1;
    }
    proof {
        assert forall|k: int| 0 <= k < v@.len() implies items_view(r@)[k] == items_view(v@)[k] by {
            assert(r@[k]@ == v@[k]@);
        }
        assert(items_view(r@) =~= items_view(v@));
    }
    r
}

pub(crate) fn preference_candidates(catalog: &CoreSearchUtil, pref: ToolSlotPreference) -> (r: Vec<
    GenericItem,
>)
    ensures
        items_view(r@) == preference_pool(catalog@, pref),
        forall|j: int| 0 <= j < r@.len() ==> catalog@.tools.contains(#[trigger] items_view(r@)[j]),
{
    match pref {
        ToolSlotPreference::NoPreference => {
            let r = clone_items(&catalog.tools);
            proof {
                assert forall|j: int|
                    0 <= j < r@.len() implies catalog@.tools.contains(
                    #[trigger] items_view(r@)[j],
                ) by {
                    assert(items_view(r@)[j] == catalog@.tools[j]);
                }
            }
            r
        },
        ToolSlotPreference::Decoys => catalog.get_decoy_tools(),
        ToolSlotPreference::Tripmines => catalog.get_trip_mines(),
        ToolSlotPreference::Melee => catalog.get_melee_tools(),
        ToolSlotPreference::Throwable => catalog.get_throwables(),
        ToolSlotPreference::Medkit => catalog.get_medkits(),
        ToolSlotPreference::Others => catalog.get_other_tools(),
    }
}

pub(crate) fn set_slot(slots: &mut Vec<GenericItemLockable>, i: usize, value: GenericItemLockable)
    requires
        i < old(slots)@.len(),
    ensures
        final(slots)@.len() == old(slots)@.len(),
        slots_view(final(slots)@) == slots_view(old(slots)@).update(i as int, value@),
{
    let ghost pre = slots@;
    let ghost v = value@;
    slots.set(i, value);
    proof {
        assert forall|k: int|
            0 <= k < slots@.len() implies slots_view(slots@)[k] == slots_view(pre).update(
            i as int,
            v,
        )[k] by {
            if k != i {
                assert(slots@[k] == pre[k]);
                assert(slots_view(pre)[k] == pre[k]@);
            }
        }
        assert(slots_view(slots@) =~= slots_view(pre).update(i as int, v));
    }
}

/// No two occupied slots hold the same item, under the structural item
/// identity.
pub open spec fn tools_distinct(tools: Seq<LockableItemView>) -> bool {
    forall|a: int, b: int|
        0 <= a < b < tools.len() && (#[trigger] tools[a]).item is Some && (
        #[trigger] tools[b]).item is Some ==> !same_item_spec(
            tools[a].item->Some_0,
            tools[b].item->Some_0,
        )
}

/// Whether some slot holds an item equal to this one.
pub open spec fn slot_holds_equal(slots: Seq<LockableItemView>, v: ItemView) -> bool {
    exists|j: int|
        0 <= j < slots.len() && (#[trigger] slots[j]).item is Some && same_item_spec(
            slots[j].item->Some_0,
            v,
        )
}

/// Why a slot can end a fill pass empty: every pool candidate costs more
/// than what remains of the sub-budget, or some candidate affordable at
/// entry duplicates an item held before or after the pass (a drawn
/// duplicate is discarded).
pub open spec fn tool_draw_blocked(
    pool: Seq<ItemView>,
    before: Seq<LockableItemView>,
    after: Seq<LockableItemView>,
    remaining: u16,
    entry: u16,
) -> bool {
    (forall|k: int| 0 <= k < pool.len() ==> effective_cost(#[trigger] pool[k]) > remaining) || (
    exists|k: int|
        0 <= k < pool.len() && effective_cost(#[trigger] pool[k]) <= entry && (slot_holds_equal(
            before,
            pool[k],
        ) || slot_holds_equal(after, pool[k])))
}

proof fn lemma_blocked_step(
    pool: Seq<ItemView>,
    before: Seq<LockableItemView>,
    a1: Seq<LockableItemView>,
    a2: Seq<LockableItemView>,
    r1: u16,
    r2: u16,
    entry: u16,
)
    requires
        tool_draw_blocked(pool, before, a1, r1, entry),
        r2 <= r1,
        a1.len() == a2.len(),
        before.len() == a1.len(),
        forall|j: int| 0 <= j < a1.len() ==> (#[trigger] a2[j]) == a1[j] || a1[j] == before[j],
    ensures
        tool_draw_blocked(pool, before, a2, r2, entry),
{
    if !(forall|k: int| 0 <= k < pool.len() ==> effective_cost(#[trigger] pool[k]) > r1) {
        let k = choose|k: int|
            0 <= k < pool.len() && effective_cost(#[trigger] pool[k]) <= entry && (
            slot_holds_equal(before, pool[k]) || slot_holds_equal(a1, pool[k]));
        if slot_holds_equal(a1, pool[k]) {
            let j = choose|j: int|
                0 <= j < a1.len() && (#[trigger] a1[j]).item is Some && same_item_spec(
                    a1[j].item->Some_0,
                    pool[k],
                );
            if a2[j] == a1[j] {
                assert(slot_holds_equal(a2, pool[k]));
            } else {
                assert(before[j] == a1[j]);
                assert(slot_holds_equal(before, pool[k]));
            }
        }
    } else {
        assert forall|k: int| 0 <= k < pool.len() implies effective_cost(#[trigger] pool[k]) > r2
        by {
            assert(effective_cost(pool[k]) > r1);
        }
    }
}

/// A draw-blocked verdict keeps holding when the entry bound is dropped.
pub proof fn lemma_blocked_weaken_entry(
    pool: Seq<ItemView>,
    before: Seq<LockableItemView>,
    after: Seq<LockableItemView>,
    remaining: u16,
    e1: u16,
)
    requires
        tool_draw_blocked(pool, before, after, remaining, e1),
    ensures
        tool_draw_blocked(pool, before, after, remaining, 65535),
{
    if !(forall|k: int| 0 <= k < pool.len() ==> effective_cost(#[trigger] pool[k]) > remaining) {
        let k = choose|k: int|
            0 <= k < pool.len() && effective_cost(#[trigger] pool[k]) <= e1 && (slot_holds_equal(
                before,
                pool[k],
            ) || slot_holds_equal(after, pool[k]));
        assert(effective_cost(pool[k]) <= 65535);
    }
}

/// Whether every tool slot preference is left at no preference; only then
/// are the tool slots re-ordered after the fill.
pub open spec fn all_no_preference(c: crate::config::ConfigView) -> bool {
    forall|i: int|
        0 <= i < c.tool_preferences.len() ==> (#[trigger] c.tool_preferences[i])
            == ToolSlotPreference::NoPreference
}

/// Fills each unlocked tool slot from the pool its preference selects,
/// drawing uniformly among the candidates the tools sub-budget can afford,
/// skipping a draw that duplicates an item already slotted. After the
/// fill, if every preference is no-preference, empty unlocked slots sink
/// behind held ones. A locked slot is never touched. Only the tools
/// sub-budget ever falls, and only the spent total ever rises.
pub fn random_tools(
    loadout: &mut Loadout,
    budget: &mut Budget,
    config: &crate::config::Config,
    rng: &mut rand::rngs::StdRng,
    catalog: &CoreSearchUtil,
)
    requires
        catalog@.wf(),
        old(loadout)@.wf(),
        config@.wf(),
    ensures
        final(loadout)@.wf(),
        final(loadout)@.errors == old(loadout)@.errors,
        final(loadout)@.weapon_one == old(loadout)@.weapon_one,
        final(loadout)@.weapon_two == old(loadout)@.weapon_two,
        final(loadout)@.consumables == old(loadout)@.consumables,
        forall|i: int|
            0 <= i < 4 && old(loadout)@.tools[i].locked ==> final(loadout)@.tools[i] == old(loadout)@.tools[i],
        final(budget)@.weapons_budget == old(budget)@.weapons_budget,
        final(budget)@.consumables_budget == old(budget)@.consumables_budget,
        final(budget)@.initial_budget == old(budget)@.initial_budget,
        final(budget)@.tools_budget <= old(budget)@.tools_budget,
        old(budget)@.total_cost <= final(budget)@.total_cost,
        !all_no_preference(config@) ==> forall|i: int|
            0 <= i < 4 && !old(loadout)@.tools[i].locked ==> !(
            #[trigger] final(loadout)@.tools[i]).locked && (final(loadout)@.tools[i].item == old(loadout)@.tools[i].item || final(loadout)@.tools[i].item is None || (final(loadout)@.tools[i].item is Some && preference_pool(
                catalog@,
                config@.tool_preferences[i],
            ).contains(final(loadout)@.tools[i].item->Some_0) && effective_cost(
                final(loadout)@.tools[i].item->Some_0,
            ) <= old(budget)@.tools_budget)),
        all_no_preference(config@) ==> forall|i: int|
            0 <= i < 4 && !(#[trigger] final(loadout)@.tools[i]).locked ==> (final(loadout)@.tools[i].item is None || (exists|j: int|
                0 <= j < 4 && !old(loadout)@.tools[j].locked && (#[trigger] old(loadout)@.tools[j]).item == final(loadout)@.tools[i].item) || (final(loadout)@.tools[i].item is Some && catalog@.tools.contains(
                final(loadout)@.tools[i].item->Some_0,
            ) && effective_cost(final(loadout)@.tools[i].item->Some_0) <= old(budget)@.tools_budget)),
        tools_distinct(old(loadout)@.tools) ==> tools_distinct(final(loadout)@.tools),
        !all_no_preference(config@) ==> forall|i: int|
            0 <= i < 4 && !old(loadout)@.tools[i].locked && (#[trigger] final(loadout)@.tools[
                i]).item is None ==> tool_draw_blocked(
                preference_pool(catalog@, config@.tool_preferences[i]),
                old(loadout)@.tools,
                final(loadout)@.tools,
                final(budget)@.tools_budget,
                old(budget)@.tools_budget,
            ),
        all_no_preference(config@) ==> forall|i: int|
            0 <= i < 4 && !(#[trigger] final(loadout)@.tools[i]).locked && final(loadout)@.tools[
                i].item is None ==> tool_draw_blocked(
                catalog@.tools,
                old(loadout)@.tools,
                final(loadout)@.tools,
                final(budget)@.tools_budget,
                old(budget)@.tools_budget,
            ),
{
    let ghost olds = slots_view(old(loadout).tools@);
    let ghost b0 = old(budget)@;
    let mut slot: usize = 0;
    while slot < loadout.tools.len()
        invariant
            catalog@.wf(),
            old(loadout)@.wf(),
            config@.wf(),
            slot <= loadout.tools@.len(),
            loadout.tools@.len() == 4,
            olds == slots_view(old(loadout).tools@),
            b0 == old(budget)@,
            crate::loadout::errors_view(loadout.errors@) == old(loadout)@.errors,
            loadout.weapon_one@ == old(loadout)@.weapon_one,
            loadout.weapon_two@ == old(loadout)@.weapon_two,
            slots_view(loadout.consumables@) == old(loadout)@.consumables,
            forall|k: int| slot <= k < 4 ==> slots_view(loadout.tools@)[k] == olds[k],
            forall|k: int|
                0 <= k < 4 && olds[k].locked ==> slots_view(loadout.tools@)[k] == olds[k],
            budget@.weapons_budget == b0.weapons_budget,
            budget@.consumables_budget == b0.consumables_budget,
            budget@.initial_budget == b0.initial_budget,
            budget@.tools_budget <= b0.tools_budget,
            b0.total_cost <= budget@.total_cost,
            forall|k: int|
                0 <= k < slot && !olds[k].locked ==> !(
                #[trigger] slots_view(loadout.tools@)[k]).locked && (slots_view(
                    loadout.tools@,
                )[k].item == olds[k].item || slots_view(loadout.tools@)[k].item is None
                    || (slots_view(loadout.tools@)[k].item is Some && preference_pool(
                    catalog@,
                    config@.tool_preferences[k],
                ).contains(slots_view(loadout.tools@)[k].item->Some_0) && effective_cost(
                    slots_view(loadout.tools@)[k].item->Some_0,
                ) <= b0.tools_budget)),
            forall|k: int|
                0 <= k < 4 ==> slot_cost_ok(#[trigger] slots_view(loadout.tools@)[k]),
            tools_distinct(olds) ==> tools_distinct(slots_view(loadout.tools@)),
            forall|k: int|
                0 <= k < slot && !olds[k].locked && (#[trigger] slots_view(loadout.tools@)[
                    k]).item is None ==> tool_draw_blocked(
                    preference_pool(catalog@, config@.tool_preferences[k]),
                    olds,
                    slots_view(loadout.tools@),
                    budget@.tools_budget,
                    b0.tools_budget,
                ),
        decreases loadout.tools@.len() - slot,
    {
        let ghost view0 = slots_view(loadout.tools@);
        let ghost bud0 = budget@;
        if !loadout.tools[slot].locked {
            let pref = config.tool_preferences[slot];
            let random_tools = preference_candidates(catalog, pref);
            proof {
                assert forall|k: int|
                    0 <= k < items_view(random_tools@).len() implies effective_cost(
                    #[trigger] items_view(random_tools@)[k],
                ) <= 65535 by {
                    let j = choose|j: int|
                        0 <= j < catalog@.tools.len() && catalog@.tools[j] == items_view(
                            random_tools@,
                        )[k];
                    assert(crate::core_search_util::catalog_item_wf(catalog@.tools[j]));
                }
            }
            let random_tool = item_lte_cost(&random_tools, budget.tools_budget, rng);

            let mut all_differ = true;
            let mut t: usize = 0;
            while t < loadout.tools.len()
                invariant
                    t <= loadout.tools@.len(),
                    loadout.tools@.len() == 4,
                    all_differ ==> forall|q: int|
                        0 <= q < t ==> !same_opt_item_spec(
                            (#[trigger] slots_view(loadout.tools@)[q]).item,
                            opt_item_view(random_tool),
                        ),
                    !all_differ ==> exists|q: int|
                        0 <= q < 4 && same_opt_item_spec(
                            (#[trigger] slots_view(loadout.tools@)[q]).item,
                            opt_item_view(random_tool),
                        ),
                decreases loadout.tools@.len() - t,
            {
                let existing = match &loadout.tools[t].item {
                    Some(it) => Some(it.clone()),
                    None => None,
                };
                proof {
                    assert(same_opt_item_spec(
                        opt_item_view(existing),
                        slots_view(loadout.tools@)[t as int].item,
                    ) && same_opt_item_spec(
                        slots_view(loadout.tools@)[t as int].item,
                        opt_item_view(existing),
                    ));
                }
                if crate::generic_item::same_opt_item(&existing, &random_tool) {
                    proof {
                        assert(same_opt_item_spec(
                            slots_view(loadout.tools@)[t as int].item,
                            opt_item_view(random_tool),
                        ));
                    }
                    all_differ = false;
                }
                t = t + 1;
            }

            if all_differ {
                match &random_tool {
                    Some(check_tool) => {
                        proof {
                            let k = choose|k: int|
                                0 <= k < random_tools@.len() && items_view(random_tools@)[k]
                                    == check_tool@;
                            assert(catalog@.tools.contains(items_view(random_tools@)[k]));
                            assert(catalog@.tools.contains(check_tool@));
                            let j = choose|j: int|
                                0 <= j < catalog@.tools.len() && catalog@.tools[j] == check_tool@;
                            assert(crate::core_search_util::catalog_item_wf(catalog@.tools[j]));
                            assert(crate::core_search_util::catalog_item_wf(check_tool@));
                            assert(preference_pool(catalog@, config@.tool_preferences[slot as int])[
                                k] == check_tool@);
                            assert(preference_pool(
                                catalog@,
                                config@.tool_preferences[slot as int],
                            ).contains(check_tool@));
                        }
                        let tx_res = process_transaction(
                            budget,
                            Transaction::Tool(false, check_tool.cost, check_tool.to_full_name()),
                        );
                        match tx_res {
                            Ok(_) => {
                                set_slot(
                                    &mut loadout.tools,
                                    slot,
                                    GenericItemLockable {
                                        item: Some(check_tool.clone()),
                                        locked: false,
                                    },
                                );
                                proof {
                                    assert forall|k: int|
                                        0 <= k < slot + 1 && !olds[k].locked && (
                                        #[trigger] slots_view(loadout.tools@)[k]).item is None
                                        implies tool_draw_blocked(
                                        preference_pool(catalog@, config@.tool_preferences[k]),
                                        olds,
                                        slots_view(loadout.tools@),
                                        budget@.tools_budget,
                                        b0.tools_budget,
                                    ) by {
                                        assert(k < slot);
                                        assert(view0[slot as int] == olds[slot as int]);
                                        lemma_blocked_step(
                                            preference_pool(catalog@, config@.tool_preferences[k]),
                                            olds,
                                            view0,
                                            slots_view(loadout.tools@),
                                            bud0.tools_budget,
                                            budget@.tools_budget,
                                            b0.tools_budget,
                                        );
                                    }
                                }
                            },
                            Err(_) => {
                                proof {
                                    assert(false);
                                }
                                set_slot(
                                    &mut loadout.tools,
                                    slot,
                                    GenericItemLockable { item: None, locked: false },
                                );
                            },
                        }
                    },
                    None => {
                        set_slot(
                            &mut loadout.tools,
                            slot,
                            GenericItemLockable { item: None, locked: false },
                        );
                        proof {
                            assert forall|k: int|
                                0 <= k < slot + 1 && !olds[k].locked && (#[trigger] slots_view(
                                loadout.tools@,
                            )[k]).item is None implies tool_draw_blocked(
                                preference_pool(catalog@, config@.tool_preferences[k]),
                                olds,
                                slots_view(loadout.tools@),
                                budget@.tools_budget,
                                b0.tools_budget,
                            ) by {
                                if k == slot as int {
                                    assert(forall|m: int|
                                        0 <= m < preference_pool(
                                            catalog@,
                                            config@.tool_preferences[k],
                                        ).len() ==> effective_cost(
                                            #[trigger] preference_pool(
                                                catalog@,
                                                config@.tool_preferences[k],
                                            )[m],
                                        ) > budget@.tools_budget);
                                } else {
                                    assert(view0[slot as int] == olds[slot as int]);
                                    lemma_blocked_step(
                                        preference_pool(catalog@, config@.tool_preferences[k]),
                                        olds,
                                        view0,
                                        slots_view(loadout.tools@),
                                        bud0.tools_budget,
                                        budget@.tools_budget,
                                        b0.tools_budget,
                                    );
                                }
                            }
                        }
                    },
                }
            } else {
                proof {
                    assert forall|k: int|
                        0 <= k < slot + 1 && !olds[k].locked && (#[trigger] slots_view(
                        loadout.tools@,
                    )[k]).item is None implies tool_draw_blocked(
                        preference_pool(catalog@, config@.tool_preferences[k]),
                        olds,
                        slots_view(loadout.tools@),
                        budget@.tools_budget,
                        b0.tools_budget,
                    ) by {
                        if k == slot as int {
                            match random_tool {
                                Some(c) => {
                                    let kk = choose|kk: int|
                                        0 <= kk < random_tools@.len() && items_view(random_tools@)[
                                            kk] == c@;
                                    let q = choose|q: int|
                                        0 <= q < 4 && same_opt_item_spec(
                                            (#[trigger] slots_view(loadout.tools@)[q]).item,
                                            opt_item_view(random_tool),
                                        );
                                    assert(slots_view(loadout.tools@)[q].item is Some
                                        && same_item_spec(
                                        slots_view(loadout.tools@)[q].item->Some_0,
                                        c@,
                                    ));
                                    assert(slot_holds_equal(
                                        slots_view(loadout.tools@),
                                        preference_pool(catalog@, config@.tool_preferences[k])[kk],
                                    ));
                                },
                                None => {
                                    assert(forall|m: int|
                                        0 <= m < preference_pool(
                                            catalog@,
                                            config@.tool_preferences[k],
                                        ).len() ==> effective_cost(
                                            #[trigger] preference_pool(
                                                catalog@,
                                                config@.tool_preferences[k],
                                            )[m],
                                        ) > budget@.tools_budget);
                                },
                            }
                        }
                    }
                }
            }
        }
        slot = slot + 1;
    }

    let mut no_pref = true;
    let mut p: usize = 0;
    while p < config.tool_preferences.len()
        invariant
            p <= config@.tool_preferences.len(),
            no_pref == (forall|k: int|
                0 <= k < p ==> (#[trigger] config@.tool_preferences[k])
                    == ToolSlotPreference::NoPreference),
        decreases config@.tool_preferences.len() - p,
    {
        if !(config.tool_preferences[p] == ToolSlotPreference::NoPreference) {
            no_pref = false;
            proof {
                assert(config@.tool_preferences[p as int] != ToolSlotPreference::NoPreference);
            }
        }
        p = p + 1;
    }

    if no_pref {
        let ghost mid = slots_view(loadout.tools@);
        let ghost bud_end = budget@;
        sink_empty_slots(&mut loadout.tools);
        proof {
            let perm = choose|perm: Seq<int>|
                slots_permuted(slots_view(loadout.tools@), mid, perm);
            assert forall|ii: int|
                0 <= ii < 4 implies slot_cost_ok(#[trigger] slots_view(loadout.tools@)[ii]) by {
                assert(slots_view(loadout.tools@)[ii] == mid[perm[ii]]);
                assert(slot_cost_ok(mid[perm[ii]]));
            }
            if tools_distinct(olds) {
                assert(tools_distinct(mid));
                assert forall|a: int, b: int|
                    0 <= a < b < 4 && (#[trigger] slots_view(loadout.tools@)[a]).item is Some && (
                    #[trigger] slots_view(loadout.tools@)[b]).item is Some implies !same_item_spec(
                    slots_view(loadout.tools@)[a].item->Some_0,
                    slots_view(loadout.tools@)[b].item->Some_0,
                ) by {
                    let pa = perm[a];
                    let pb = perm[b];
                    assert(slots_view(loadout.tools@)[a] == mid[pa]);
                    assert(slots_view(loadout.tools@)[b] == mid[pb]);
                    assert(pa != pb);
                    if pa < pb {
                        assert(!same_item_spec(mid[pa].item->Some_0, mid[pb].item->Some_0));
                    } else {
                        assert(!same_item_spec(mid[pb].item->Some_0, mid[pa].item->Some_0));
                    }
                }
            }
            assert forall|i: int|
                0 <= i < 4 && !(#[trigger] slots_view(loadout.tools@)[i]).locked && slots_view(
                loadout.tools@,
            )[i].item is None implies tool_draw_blocked(
                catalog@.tools,
                olds,
                slots_view(loadout.tools@),
                budget@.tools_budget,
                b0.tools_budget,
            ) by {
                let j = perm[i];
                assert(slots_view(loadout.tools@)[i] == mid[j]);
                assert(!mid[j].locked && mid[j].item is None);
                if olds[j].locked {
                    assert(mid[j] == olds[j]);
                }
                assert(!olds[j].locked);
                assert(config@.tool_preferences[j] == ToolSlotPreference::NoPreference);
                assert(tool_draw_blocked(
                    catalog@.tools,
                    olds,
                    mid,
                    bud_end.tools_budget,
                    b0.tools_budget,
                ));
                if !(forall|m: int|
                    0 <= m < catalog@.tools.len() ==> effective_cost(#[trigger] catalog@.tools[m])
                        > bud_end.tools_budget) {
                    let k = choose|k: int|
                        0 <= k < catalog@.tools.len() && effective_cost(
                            #[trigger] catalog@.tools[k],
                        ) <= b0.tools_budget && (slot_holds_equal(olds, catalog@.tools[k])
                            || slot_holds_equal(mid, catalog@.tools[k]));
                    if slot_holds_equal(mid, catalog@.tools[k]) {
                        let jj = choose|jj: int|
                            0 <= jj < mid.len() && (#[trigger] mid[jj]).item is Some
                                && same_item_spec(mid[jj].item->Some_0, catalog@.tools[k]);
                        assert(value_kept(slots_view(loadout.tools@), mid[jj]));
                        let m = choose|m: int|
                            0 <= m < slots_view(loadout.tools@).len() && (#[trigger] slots_view(
                                loadout.tools@,
                            )[m]) == mid[jj];
                        assert(slot_holds_equal(
                            slots_view(loadout.tools@),
                            catalog@.tools[k],
                        ));
                    }
                }
            }
            assert forall|i: int|
                0 <= i < 4 && !(#[trigger] slots_view(loadout.tools@)[i]).locked implies (
            slots_view(loadout.tools@)[i].item is None || (exists|j: int|
                0 <= j < 4 && !old(loadout)@.tools[j].locked && (#[trigger] old(loadout)@.tools[j]).item == slots_view(loadout.tools@)[i].item) || (slots_view(
                loadout.tools@,
            )[i].item is Some && catalog@.tools.contains(
                slots_view(loadout.tools@)[i].item->Some_0,
            ) && effective_cost(slots_view(loadout.tools@)[i].item->Some_0)
                <= b0.tools_budget)) by {
                let perm = choose|perm: Seq<int>|
                    slots_permuted(slots_view(loadout.tools@), mid, perm);
                let j = perm[i];
                assert(slots_view(loadout.tools@)[i] == mid[j]);
                if mid[j].locked {
                    assert(mid[j] == olds[j]);
                } else {
                    if !(mid[j].item == olds[j].item) {
                        assert(mid[j].item is None || (mid[j].item is Some && preference_pool(
                            catalog@,
                            config@.tool_preferences[j],
                        ).contains(mid[j].item->Some_0) && effective_cost(mid[j].item->Some_0)
                            <= b0.tools_budget));
                        assert(config@.tool_preferences[j] == ToolSlotPreference::NoPreference);
                    }
                }
            }
        }
    }
}

/// Fills each unlocked consumable slot with a uniform draw among the
/// consumables the consumables sub-budget can afford, then sinks empty
/// unlocked slots behind held ones. A locked slot is never touched. Only
/// the consumables sub-budget ever falls, and only the spent total ever
/// rises.
pub fn random_consumables(
    loadout: &mut Loadout,
    budget: &mut Budget,
    rng: &mut rand::rngs::StdRng,
    catalog: &CoreSearchUtil,
)
    requires
        catalog@.wf(),
        old(loadout)@.wf(),
    ensures
        final(loadout)@.wf(),
        final(loadout)@.errors == old(loadout)@.errors,
        final(loadout)@.weapon_one == old(loadout)@.weapon_one,
        final(loadout)@.weapon_two == old(loadout)@.weapon_two,
        final(loadout)@.tools == old(loadout)@.tools,
        forall|i: int|
            0 <= i < 4 && old(loadout)@.consumables[i].locked ==> final(loadout)@.consumables[i]
                == old(loadout)@.consumables[i],
        forall|i: int|
            0 <= i < 4 && !(#[trigger] final(loadout)@.consumables[i]).locked ==> (final(loadout)@.consumables[i].item is None || (final(loadout)@.consumables[i].item is Some
                && catalog@.consumables.contains(final(loadout)@.consumables[i].item->Some_0)
                && effective_cost(final(loadout)@.consumables[i].item->Some_0) <= old(budget)@.consumables_budget)),
        final(budget)@.weapons_budget == old(budget)@.weapons_budget,
        final(budget)@.tools_budget == old(budget)@.tools_budget,
        final(budget)@.initial_budget == old(budget)@.initial_budget,
        final(budget)@.consumables_budget <= old(budget)@.consumables_budget,
        old(budget)@.total_cost <= final(budget)@.total_cost,
        forall|i: int|
            0 <= i < 4 && !(#[trigger] final(loadout)@.consumables[i]).locked && final(loadout)@.consumables[i].item is None ==> (forall|k: int|
                0 <= k < catalog@.consumables.len() ==> effective_cost(
                    #[trigger] catalog@.consumables[k],
                ) > final(budget)@.consumables_budget),
{
    let ghost olds = slots_view(old(loadout).consumables@);
    let ghost b0 = old(budget)@;
    let mut slot: usize = 0;
    while slot < loadout.consumables.len()
        invariant
            catalog@.wf(),
            old(loadout)@.wf(),
            slot <= loadout.consumables@.len(),
            loadout.consumables@.len() == 4,
            olds == slots_view(old(loadout).consumables@),
            b0 == old(budget)@,
            crate::loadout::errors_view(loadout.errors@) == old(loadout)@.errors,
            loadout.weapon_one@ == old(loadout)@.weapon_one,
            loadout.weapon_two@ == old(loadout)@.weapon_two,
            slots_view(loadout.tools@) == old(loadout)@.tools,
            forall|k: int| slot <= k < 4 ==> slots_view(loadout.consumables@)[k] == olds[k],
            forall|k: int|
                0 <= k < 4 && olds[k].locked ==> slots_view(loadout.consumables@)[k] == olds[k],
            budget@.weapons_budget == b0.weapons_budget,
            budget@.tools_budget == b0.tools_budget,
            budget@.initial_budget == b0.initial_budget,
            budget@.consumables_budget <= b0.consumables_budget,
            b0.total_cost <= budget@.total_cost,
            forall|k: int|
                0 <= k < slot && !olds[k].locked ==> !(
                #[trigger] slots_view(loadout.consumables@)[k]).locked && (slots_view(
                    loadout.consumables@,
                )[k].item is None || (slots_view(loadout.consumables@)[k].item is Some
                    && catalog@.consumables.contains(
                    slots_view(loadout.consumables@)[k].item->Some_0,
                ) && effective_cost(slots_view(loadout.consumables@)[k].item->Some_0)
                    <= b0.consumables_budget)),
            forall|k: int|
                0 <= k < 4 ==> slot_cost_ok(#[trigger] slots_view(loadout.consumables@)[k]),
            forall|k: int|
                0 <= k < slot && !olds[k].locked && (#[trigger] slots_view(loadout.consumables@)[
                    k]).item is None ==> (forall|m: int|
                    0 <= m < catalog@.consumables.len() ==> effective_cost(
                        #[trigger] catalog@.consumables[m],
                    ) > budget@.consumables_budget),
        decreases loadout.consumables@.len() - slot,
    {
        if !loadout.consumables[slot].locked {
            proof {
                assert forall|k: int|
                    0 <= k < items_view(catalog.consumables@).len() implies effective_cost(
                    #[trigger] items_view(catalog.consumables@)[k],
                ) <= 65535 by {
                    assert(crate::core_search_util::catalog_item_wf(catalog@.consumables[k]));
                }
            }
            let random_consumable = item_lte_cost(
                &catalog.consumables,
                budget.consumables_budget,
                rng,
            );
            match &random_consumable {
                Some(check_consumable) => {
                    proof {
                        let k = choose|k: int|
                            0 <= k < catalog.consumables@.len() && items_view(
                                catalog.consumables@,
                            )[k] == check_consumable@;
                        assert(catalog@.consumables[k] == check_consumable@);
                        assert(catalog@.consumables.contains(check_consumable@));
                        assert(crate::core_search_util::catalog_item_wf(catalog@.consumables[k]));
                        assert(crate::core_search_util::catalog_item_wf(check_consumable@));
                    }
                    let tx_res = process_transaction(
                        budget,
                        Transaction::Consumable(
                            false,
                            check_consumable.cost,
                            check_consumable.to_full_name(),
                        ),
                    );
                    match tx_res {
                        Ok(_) => {
                            set_slot(
                                &mut loadout.consumables,
                                slot,
                                GenericItemLockable {
                                    item: Some(check_consumable.clone()),
                                    locked: false,
                                },
                            );
                        },
                        Err(_) => {
                            proof {
                                assert(false);
                            }
                            set_slot(
                                &mut loadout.consumables,
                                slot,
                                GenericItemLockable { item: None, locked: false },
                            );
                        },
                    }
                },
                None => {
                    set_slot(
                        &mut loadout.consumables,
                        slot,
                        GenericItemLockable { item: None, locked: false },
                    );
                },
            }
        }
        slot = slot + 1;
    }

    let ghost mid = slots_view(loadout.consumables@);
    let ghost bud_end = budget@;
    sink_empty_slots(&mut loadout.consumables);
    proof {
        let perm0 = choose|perm0: Seq<int>|
            slots_permuted(slots_view(loadout.consumables@), mid, perm0);
        assert forall|i: int|
            0 <= i < 4 && !(#[trigger] slots_view(loadout.consumables@)[i]).locked && slots_view(
            loadout.consumables@,
        )[i].item is None implies (forall|k: int|
            0 <= k < catalog@.consumables.len() ==> effective_cost(
                #[trigger] catalog@.consumables[k],
            ) > budget@.consumables_budget) by {
            let j = perm0[i];
            assert(slots_view(loadout.consumables@)[i] == mid[j]);
            if olds[j].locked {
                assert(mid[j] == olds[j]);
            }
            assert(!olds[j].locked && mid[j].item is None);
        }
        assert forall|ii: int|
            0 <= ii < 4 implies slot_cost_ok(#[trigger] slots_view(loadout.consumables@)[ii]) by {
            let perm = choose|perm: Seq<int>|
                slots_permuted(slots_view(loadout.consumables@), mid, perm);
            assert(slots_view(loadout.consumables@)[ii] == mid[perm[ii]]);
            assert(slot_cost_ok(mid[perm[ii]]));
        }
        assert forall|i: int|
            0 <= i < 4 && !(#[trigger] slots_view(loadout.consumables@)[i]).locked implies (
        slots_view(loadout.consumables@)[i].item is None || (slots_view(
            loadout.consumables@,
        )[i].item is Some && catalog@.consumables.contains(
            slots_view(loadout.consumables@)[i].item->Some_0,
        ) && effective_cost(slots_view(loadout.consumables@)[i].item->Some_0)
            <= b0.consumables_budget)) by {
            let perm = choose|perm: Seq<int>|
                slots_permuted(slots_view(loadout.consumables@), mid, perm);
            let j = perm[i];
            assert(slots_view(loadout.consumables@)[i] == mid[j]);
            if mid[j].locked {
                assert(mid[j] == olds[j]);
            }
        }
    }
}

} // verus!
