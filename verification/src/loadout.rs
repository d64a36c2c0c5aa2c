//! The loadout: two weapon slots, four tool slots, four consumable slots,
//! and the non-fatal errors collected when a locked slot can no longer be
//! paid for. Alongside the type stand the single-item ledger operations
//! (refund and purchase, with their round-trip law), the slot-size pairing
//! table, the affordable-draw helper, and the read-only validator.

use vstd::prelude::*;

use crate::budget::{apply_transaction, apply_transactions, balances_eq,
    lemma_apply_transactions_concat, process_transaction, within_initial, Budget, BudgetView,
    Transaction, TransactionKind, TransactionResult, TransactionView};
use crate::content::{BulletSize, Slot};
use crate::core_search_util::items_view;
use crate::generic_item::{effective_cost, first_bullet_size, full_name, same_item_spec,
    CustomAmmo, GenericItem, GenericItemLockable, ItemView, LockableItemView};
use crate::rng::rng_index;

verus! {

/// A non-fatal error recorded against one slot of the loadout.
pub enum LoadoutError {
    Weapon { error: String, slot: u8 },
    Tool { error: String, slot: u8 },
    Consumable { error: String, slot: u8 },
}

/// What the randomizer observes of a recorded error.
pub enum LoadoutErrorView {
    Weapon { error: Seq<char>, slot: u8 },
    Tool { error: Seq<char>, slot: u8 },
    Consumable { error: Seq<char>, slot: u8 },
}

impl View for LoadoutError {
    type V = LoadoutErrorView;

    open spec fn view(&self) -> LoadoutErrorView {
        match self {
            LoadoutError::Weapon { error, slot } => LoadoutErrorView::Weapon {
                error: error@,
                slot: *slot,
            },
            LoadoutError::Tool { error, slot } => LoadoutErrorView::Tool {
                error: error@,
                slot: *slot,
            },
            LoadoutError::Consumable { error, slot } => LoadoutErrorView::Consumable {
                error: error@,
                slot: *slot,
            },
        }
    }
}

impl Clone for LoadoutError {
    fn clone(&self) -> (r: Self)
        ensures
            r@ == self@,
    {
        match self {
            LoadoutError::Weapon { error, slot } => LoadoutError::Weapon {
                error: error.clone(),
                slot: *slot,
            },
            LoadoutError::Tool { error, slot } => LoadoutError::Tool {
                error: error.clone(),
                slot: *slot,
            },
            LoadoutError::Consumable { error, slot } => LoadoutError::Consumable {
                error: error.clone(),
                slot: *slot,
            },
        }
    }
}

/// A validator finding: which slot of which kind is invalid.
#[derive(Clone, Copy, PartialEq, Eq, Structural, Debug)]
pub enum LoadoutInvalid {
    WeaponSlot(u8),
    ToolSlot(u8),
}

/// The message recorded when a locked item can no longer be afforded.
pub open spec fn locked_funds_message() -> Seq<char> {
    "Insufficient Funds, try unlocking this item or increase your budget."@
}

/// The views of a sequence of recorded errors.
pub open spec fn errors_view(s: Seq<LoadoutError>) -> Seq<LoadoutErrorView> {
    s.map_values(|e: LoadoutError| e@)
}

/// The views of a sequence of lockable slots.
pub open spec fn slots_view(s: Seq<GenericItemLockable>) -> Seq<LockableItemView> {
    s.map_values(|g: GenericItemLockable| g@)
}

/// Appending one recorded error maps through the view.
pub(crate) proof fn lemma_errors_view_push(pre: Seq<LoadoutError>, e: LoadoutError)
    ensures
        errors_view(pre.push(e)) == errors_view(pre).push(e@),
{
    assert forall|k: int|
        0 <= k < pre.len() + 1 implies errors_view(pre.push(e))[k] == errors_view(pre).push(e@)[k]
    by {
        assert(errors_view(pre.push(e))[k] == pre.push(e)[k]@);
        if k < pre.len() {
            assert(pre.push(e)[k] == pre[k]);
            assert(errors_view(pre)[k] == pre[k]@);
        }
    }
    assert(errors_view(pre.push(e)) =~= errors_view(pre).push(e@));
}

/// The loadout under assembly.
pub struct Loadout {
    pub errors: Vec<LoadoutError>,
    pub weapon_one: GenericItemLockable,
    pub weapon_two: GenericItemLockable,
    pub tools: Vec<GenericItemLockable>,
    pub consumables: Vec<GenericItemLockable>,
}

/// What the randomizer observes of a loadout.
pub struct LoadoutView {
    pub errors: Seq<LoadoutErrorView>,
    pub weapon_one: LockableItemView,
    pub weapon_two: LockableItemView,
    pub tools: Seq<LockableItemView>,
    pub consumables: Seq<LockableItemView>,
}

impl View for Loadout {
    type V = LoadoutView;

    open spec fn view(&self) -> LoadoutView {
        LoadoutView {
            errors: errors_view(self.errors@),
            weapon_one: self.weapon_one@,
            weapon_two: self.weapon_two@,
            tools: slots_view(self.tools@),
            consumables: slots_view(self.consumables@),
        }
    }
}

/// The effective cost of whatever a slot holds fits the ledger's range.
pub open spec fn slot_cost_ok(s: LockableItemView) -> bool {
    match s.item {
        Some(v) => effective_cost(v) <= 65535,
        None => true,
    }
}

/// A weapon slot's item has a well-defined slot size.
pub open spec fn slot_size_ok(s: LockableItemView) -> bool {
    match s.item {
        Some(v) => v.dual_wield || v.slot is Some,
        None => true,
    }
}

impl LoadoutView {
    /// A well-formed loadout: four tool slots, four consumable slots,
    /// every held item affordable in principle, and every held weapon
    /// sized.
    pub open spec fn wf(self) -> bool {
        &&& self.tools.len() == 4
        &&& self.consumables.len() == 4
        &&& slot_cost_ok(self.weapon_one) && slot_size_ok(self.weapon_one)
        &&& slot_cost_ok(self.weapon_two) && slot_size_ok(self.weapon_two)
        &&& forall|k: int| 0 <= k < 4 ==> slot_cost_ok(#[trigger] self.tools[k])
        &&& forall|k: int| 0 <= k < 4 ==> slot_cost_ok(#[trigger] self.consumables[k])
    }
}

fn clone_slots(v: &Vec<GenericItemLockable>) -> (r: Vec<GenericItemLockable>)
    ensures
        slots_view(r@) == slots_view(v@),
{
    let mut r: Vec<GenericItemLockable> = Vec::new();
    let mut i: usize = 0;
    while i < v.len()
        invariant
            i <= v.len(),
            r@.len() == i,
            forall|k: int| 0 <= k < i ==> (#[trigger] r@[k])@ == v@[k]@,
        decreases v.len() - i,
    {
        r.push(v[i].clone());
        i = i + 1;
    }
    proof {
        assert forall|k: int| 0 <= k < v@.len() implies slots_view(r@)[k] == slots_view(v@)[k] by {
            assert(r@[k]@ == v@[k]@);
        }
        assert(slots_view(r@) =~= slots_view(v@));
    }
    r
}

fn clone_errors(v: &Vec<LoadoutError>) -> (r: Vec<LoadoutError>)
    ensures
        errors_view(r@) == errors_view(v@),
{
    let mut r: Vec<LoadoutError> = Vec::new();
    let mut i: usize = 0;
    while i < v.len()
        invariant
            i <= v.len(),
            r@.len() == i,
            forall|k: int| 0 <= k < i ==> (#[trigger] r@[k])@ == v@[k]@,
        decreases v.len() - i,
    {
        r.push(v[i].clone());
        i = i + 1;
    }
    proof {
        assert forall|k: int| 0 <= k < v@.len() implies errors_view(r@)[k] == errors_view(v@)[k]
        by {
            assert(r@[k]@ == v@[k]@);
        }
        assert(errors_view(r@) =~= errors_view(v@));
    }
    r
}

impl Clone for Loadout {
    fn clone(&self) -> (r: Self)
        ensures
            r@ == self@,
    {
        Loadout {
            errors: clone_errors(&self.errors),
            weapon_one: self.weapon_one.clone(),
            weapon_two: self.weapon_two.clone(),
            tools: clone_slots(&self.tools),
            consumables: clone_slots(&self.consumables),
        }
    }
}

impl Default for Loadout {
    /// A fresh loadout: every slot empty and unlocked, no errors.
    fn default() -> (r: Self)
        ensures
            r@.wf(),
            r@.errors.len() == 0,
            r@.weapon_one.item is None && !r@.weapon_one.locked,
            r@.weapon_two.item is None && !r@.weapon_two.locked,
            forall|k: int|
                0 <= k < 4 ==> (#[trigger] r@.tools[k]).item is None && !r@.tools[k].locked,
            forall|k: int|
                0 <= k < 4 ==> (#[trigger] r@.consumables[k]).item is None
                    && !r@.consumables[k].locked,
    {
        let mut tools: Vec<GenericItemLockable> = Vec::new();
        tools.push(GenericItemLockable::default());
        tools.push(GenericItemLockable::default());
        tools.push(GenericItemLockable::default());
        tools.push(GenericItemLockable::default());
        let mut consumables: Vec<GenericItemLockable> = Vec::new();
        consumables.push(GenericItemLockable::default());
        consumables.push(GenericItemLockable::default());
        consumables.push(GenericItemLockable::default());
        consumables.push(GenericItemLockable::default());
        let r = Loadout {
            errors: Vec::new(),
            weapon_one: GenericItemLockable { item: None, locked: false },
            weapon_two: GenericItemLockable { item: None, locked: false },
            tools,
            consumables,
        };
        proof {
            assert(errors_view(r.errors@) =~= Seq::<LoadoutErrorView>::empty());
        }
        r
    }
}

/// The display label of a round: its variant name, or the bullet size's
/// name for the free default round.
pub open spec fn ammo_label(a: CustomAmmo) -> Seq<char> {
    match a.1 {
        Some(v) => v.spec_name(),
        None => a.0.spec_name(),
    }
}

/// The ledger transaction for one equipped round.
pub open spec fn ammo_tx(a: CustomAmmo, refund: bool) -> TransactionView {
    TransactionView { kind: TransactionKind::Bullet, refund, amount: a.2, label: ammo_label(a) }
}

/// The ledger transaction for an item itself.
pub open spec fn weapon_tx(v: ItemView, refund: bool) -> TransactionView {
    TransactionView {
        kind: TransactionKind::Weapon,
        refund,
        amount: effective_cost(v) as u16,
        label: full_name(v),
    }
}

/// The ledger transactions for the priced rounds of an item, in order.
pub open spec fn ammo_txs(ammo: Seq<CustomAmmo>, refund: bool) -> Seq<TransactionView>
    decreases ammo.len(),
{
    if ammo.len() == 0 {
        Seq::empty()
    } else {
        ammo_txs(ammo.drop_last(), refund) + (if ammo.last().2 > 0 {
            seq![ammo_tx(ammo.last(), refund)]
        } else {
            Seq::<TransactionView>::empty()
        })
    }
}

/// The ledger transactions for an item and its rounds: each priced round,
/// then the item itself.
pub open spec fn item_txs(v: ItemView, refund: bool) -> Seq<TransactionView> {
    ammo_txs(v.ammo_equipped, refund) + seq![weapon_tx(v, refund)]
}

/// The ledger transactions for whatever a slot holds.
pub open spec fn slot_txs(s: LockableItemView, refund: bool) -> Seq<TransactionView> {
    match s.item {
        Some(v) => item_txs(v, refund),
        None => Seq::empty(),
    }
}

pub(crate) fn ammo_label_string(a: &CustomAmmo) -> (r: String)
    ensures
        r@ == ammo_label(*a),
{
    match &a.1 {
        Some(v) => v.name(),
        None => a.0.name(),
    }
}

pub(crate) fn transaction_from_custom_ammo(budget: &mut Budget, ammo: &CustomAmmo) -> (r: Result<
    (),
    TransactionResult,
>)
    ensures
        final(budget)@ == apply_transaction(old(budget)@, ammo_tx(*ammo, false)),
        r is Ok <==> crate::budget::transaction_ok(old(budget)@, ammo_tx(*ammo, false)),
{
    let label = ammo_label_string(ammo);
    process_transaction(budget, Transaction::Bullet(false, ammo.2, label))
}

pub(crate) fn transaction_from_weapon(budget: &mut Budget, weapon: &GenericItem, refund: bool) -> (r: Result<
    (),
    TransactionResult,
>)
    requires
        effective_cost(weapon@) <= 65535,
    ensures
        final(budget)@ == apply_transaction(old(budget)@, weapon_tx(weapon@, refund)),
        r is Ok <==> crate::budget::transaction_ok(old(budget)@, weapon_tx(weapon@, refund)),
{
    process_transaction(
        budget,
        Transaction::Weapon(refund, weapon.get_cost(), weapon.to_full_name()),
    )
}

/// One step of the round-transaction sequence.
proof fn lemma_ammo_txs_step(ammo: Seq<CustomAmmo>, refund: bool, i: int)
    requires
        0 <= i < ammo.len(),
    ensures
        ammo_txs(ammo.take(i + 1), refund) == ammo_txs(ammo.take(i), refund) + (if ammo[i].2 > 0 {
            seq![ammo_tx(ammo[i], refund)]
        } else {
            Seq::<TransactionView>::empty()
        }),
{
    assert(ammo.take(i + 1).drop_last() =~= ammo.take(i));
    assert(ammo.take(i + 1).last() == ammo[i]);
}

/// Applying a single transaction as a sequence.
pub(crate) proof fn lemma_apply_one_tx(b: BudgetView, t: TransactionView)
    ensures
        apply_transactions(b, seq![t]) == apply_transaction(b, t),
{
    assert(seq![t].drop_last() =~= Seq::<TransactionView>::empty());
    assert(seq![t].last() == t);
    assert(apply_transactions(b, Seq::<TransactionView>::empty()) == b);
}

fn apply_item_transactions(budget: &mut Budget, item: &GenericItem, refund: bool)
    requires
        effective_cost(item@) <= 65535,
    ensures
        final(budget)@ == apply_transactions(old(budget)@, item_txs(item@, refund)),
{
    let ghost ammo = item@.ammo_equipped;
    let mut i: usize = 0;
    proof {
        assert(ammo.take(0) =~= Seq::<CustomAmmo>::empty());
        assert(apply_transactions(old(budget)@, ammo_txs(ammo.take(0), refund)) == old(budget)@);
    }
    while i < item.ammo_equipped.len()
        invariant
            i <= item.ammo_equipped@.len(),
            ammo == item@.ammo_equipped,
            ammo.len() == item.ammo_equipped@.len(),
            effective_cost(item@) <= 65535,
            budget@ == apply_transactions(old(budget)@, ammo_txs(ammo.take(i as int), refund)),
        decreases item.ammo_equipped@.len() - i,
    {
        let ammo_type = item.ammo_equipped[i];
        proof {
            assert(ammo[i as int] == item.ammo_equipped@[i as int]);
            lemma_ammo_txs_step(ammo, refund, i as int);
        }
        if ammo_type.2 > 0 {
            let label = ammo_label_string(&ammo_type);
            let _tx = process_transaction(budget, Transaction::Bullet(refund, ammo_type.2, label));
            proof {
                lemma_apply_transactions_concat(
                    old(budget)@,
                    ammo_txs(ammo.take(i as int), refund),
                    seq![ammo_tx(ammo[i as int], refund)],
                );
                lemma_apply_one_tx(
                    apply_transactions(old(budget)@, ammo_txs(ammo.take(i as int), refund)),
                    ammo_tx(ammo[i as int], refund),
                );
            }
        } else {
            proof {
                assert(ammo_txs(ammo.take(i as int), refund) + Seq::<TransactionView>::empty()
                    =~= ammo_txs(ammo.take(i as int), refund));
            }
        }
        i = i + 1;
    }
    proof {
        assert(ammo.take(ammo.len() as int) =~= ammo);
    }
    let _tx = transaction_from_weapon(budget, item, refund);
    proof {
        lemma_apply_transactions_concat(
            old(budget)@,
            ammo_txs(ammo, refund),
            seq![weapon_tx(item@, refund)],
        );
        lemma_apply_one_tx(
            apply_transactions(old(budget)@, ammo_txs(ammo, refund)),
            weapon_tx(item@, refund),
        );
    }
}

/// Credits back whatever the slot holds: each priced round, then the item
/// itself. Refunds always go through; the log records each one.
pub fn refund_item(budget: &mut Budget, item: &GenericItemLockable)
    requires
        slot_cost_ok(item@),
    ensures
        final(budget)@ == apply_transactions(old(budget)@, slot_txs(item@, true)),
{
    match &item.item {
        Some(it) => {
            apply_item_transactions(budget, it, true);
        },
        None => {
            proof {
                assert(apply_transactions(old(budget)@, Seq::<TransactionView>::empty())
                    == old(budget)@);
            }
        },
    }
}

/// Charges for whatever the slot holds: each priced round, then the item
/// itself. A charge the sub-budget cannot cover is rejected and skipped;
/// the log records every attempt.
pub fn purchase_item(budget: &mut Budget, item: &GenericItemLockable)
    requires
        slot_cost_ok(item@),
    ensures
        final(budget)@ == apply_transactions(old(budget)@, slot_txs(item@, false)),
{
    match &item.item {
        Some(it) => {
            apply_item_transactions(budget, it, false);
        },
        None => {
            proof {
                assert(apply_transactions(old(budget)@, Seq::<TransactionView>::empty())
                    == old(budget)@);
            }
        },
    }
}

/// Whether every purchase in the sequence is covered by its sub-budget at
/// the moment it is applied.
pub open spec fn purchases_covered(b: BudgetView, ts: Seq<TransactionView>) -> bool
    decreases ts.len(),
{
    if ts.len() == 0 {
        true
    } else {
        purchases_covered(b, ts.drop_last()) && crate::budget::transaction_ok(
            apply_transactions(b, ts.drop_last()),
            ts.last(),
        )
    }
}

proof fn lemma_covered_concat_one(b: BudgetView, ts: Seq<TransactionView>, t: TransactionView)
    ensures
        purchases_covered(b, ts + seq![t]) == (purchases_covered(b, ts)
            && crate::budget::transaction_ok(apply_transactions(b, ts), t)),
{
    assert((ts + seq![t]).drop_last() =~= ts);
    assert((ts + seq![t]).last() == t);
}

proof fn lemma_covered_concat_empty(b: BudgetView, ts: Seq<TransactionView>)
    ensures
        purchases_covered(b, ts + Seq::<TransactionView>::empty()) == purchases_covered(b, ts),
{
    assert(ts + Seq::<TransactionView>::empty() =~= ts);
}

/// Charges for whatever the slot holds, like `purchase_item`, and reports
/// whether every charge was covered: the test a single-slot edit commits
/// on.
pub fn purchase_item_checked(budget: &mut Budget, item: &GenericItemLockable) -> (r: bool)
    requires
        slot_cost_ok(item@),
    ensures
        final(budget)@ == apply_transactions(old(budget)@, slot_txs(item@, false)),
        r == purchases_covered(old(budget)@, slot_txs(item@, false)),
{
    match &item.item {
        Some(it) => {
            let ghost ammo = it@.ammo_equipped;
            let mut covered = true;
            let mut i: usize = 0;
            proof {
                assert(ammo.take(0) =~= Seq::<CustomAmmo>::empty());
                assert(apply_transactions(old(budget)@, ammo_txs(ammo.take(0), false))
                    == old(budget)@);
            }
            while i < it.ammo_equipped.len()
                invariant
                    i <= it.ammo_equipped@.len(),
                    ammo == it@.ammo_equipped,
                    ammo.len() == it.ammo_equipped@.len(),
                    effective_cost(it@) <= 65535,
                    budget@ == apply_transactions(
                        old(budget)@,
                        ammo_txs(ammo.take(i as int), false),
                    ),
                    covered == purchases_covered(old(budget)@, ammo_txs(ammo.take(i as int), false)),
                decreases it.ammo_equipped@.len() - i,
            {
                let ammo_type = it.ammo_equipped[i];
                proof {
                    assert(ammo[i as int] == it.ammo_equipped@[i as int]);
                    lemma_ammo_txs_step(ammo, false, i as int);
                }
                if ammo_type.2 > 0 {
                    let label = ammo_label_string(&ammo_type);
                    let tx_res = process_transaction(
                        budget,
                        Transaction::Bullet(false, ammo_type.2, label),
                    );
                    proof {
                        lemma_apply_transactions_concat(
                            old(budget)@,
                            ammo_txs(ammo.take(i as int), false),
                            seq![ammo_tx(ammo[i as int], false)],
                        );
                        lemma_apply_one_tx(
                            apply_transactions(old(budget)@, ammo_txs(ammo.take(i as int), false)),
                            ammo_tx(ammo[i as int], false),
                        );
                        lemma_covered_concat_one(
                            old(budget)@,
                            ammo_txs(ammo.take(i as int), false),
                            ammo_tx(ammo[i as int], false),
                        );
                    }
                    match tx_res {
                        Ok(_) => {},
                        Err(_) => {
                            covered = false;
                        },
                    }
                } else {
                    proof {
                        lemma_covered_concat_empty(
                            old(budget)@,
                            ammo_txs(ammo.take(i as int), false),
                        );
                        assert(ammo_txs(ammo.take(i as int), false)
                            + Seq::<TransactionView>::empty() =~= ammo_txs(
                            ammo.take(i as int),
                            false,
                        ));
                    }
                }
                i = i + 1;
            }
            proof {
                assert(ammo.take(ammo.len() as int) =~= ammo);
            }
            let tx_res = transaction_from_weapon(budget, it, false);
            proof {
                lemma_apply_transactions_concat(
                    old(budget)@,
                    ammo_txs(ammo, false),
                    seq![weapon_tx(it@, false)],
                );
                lemma_apply_one_tx(
                    apply_transactions(old(budget)@, ammo_txs(ammo, false)),
                    weapon_tx(it@, false),
                );
                lemma_covered_concat_one(old(budget)@, ammo_txs(ammo, false), weapon_tx(it@, false));
            }
            match tx_res {
                Ok(_) => covered,
                Err(_) => false,
            }
        },
        None => {
            proof {
                assert(apply_transactions(old(budget)@, Seq::<TransactionView>::empty())
                    == old(budget)@);
            }
            true
        },
    }
}

/// The total of the equipped rounds' costs.
pub open spec fn ammo_cost_sum(ammo: Seq<CustomAmmo>) -> int
    decreases ammo.len(),
{
    if ammo.len() == 0 {
        0
    } else {
        ammo_cost_sum(ammo.drop_last()) + ammo.last().2
    }
}

/// What a held item costs in full: its rounds plus its effective cost.
pub open spec fn item_total_cost(v: ItemView) -> int {
    ammo_cost_sum(v.ammo_equipped) + effective_cost(v)
}

proof fn lemma_ammo_cost_sum_nonneg(ammo: Seq<CustomAmmo>)
    ensures
        ammo_cost_sum(ammo) >= 0,
    decreases ammo.len(),
{
    if ammo.len() > 0 {
        lemma_ammo_cost_sum_nonneg(ammo.drop_last());
    }
}

proof fn lemma_ammo_purchase(b: BudgetView, ammo: Seq<CustomAmmo>)
    requires
        b.total_cost + ammo_cost_sum(ammo) <= 65535,
        ammo_cost_sum(ammo) <= b.weapons_budget,
    ensures
        apply_transactions(b, ammo_txs(ammo, false)) == (BudgetView {
            weapons_budget: (b.weapons_budget - ammo_cost_sum(ammo)) as u16,
            total_cost: (b.total_cost + ammo_cost_sum(ammo)) as u16,
            log: b.log + ammo_txs(ammo, false),
            ..b
        }),
    decreases ammo.len(),
{
    lemma_ammo_cost_sum_nonneg(ammo);
    if ammo.len() == 0 {
        assert(b.log + ammo_txs(ammo, false) =~= b.log);
        assert(apply_transactions(b, ammo_txs(ammo, false)) == b);
        assert(BudgetView {
            weapons_budget: (b.weapons_budget - 0) as u16,
            total_cost: (b.total_cost + 0) as u16,
            log: b.log + ammo_txs(ammo, false),
            ..b
        } == b);
    } else {
        let front = ammo.drop_last();
        let last = ammo.last();
        lemma_ammo_cost_sum_nonneg(front);
        lemma_ammo_purchase(b, front);
        let b1 = apply_transactions(b, ammo_txs(front, false));
        if last.2 > 0 {
            lemma_apply_transactions_concat(b, ammo_txs(front, false), seq![ammo_tx(last, false)]);
            lemma_apply_one_tx(b1, ammo_tx(last, false));
            assert(b1.log.push(ammo_tx(last, false)) =~= b.log + ammo_txs(ammo, false));
        } else {
            assert(ammo_txs(ammo, false) =~= ammo_txs(front, false));
            assert(b.log + ammo_txs(ammo, false) =~= b.log + ammo_txs(front, false));
        }
    }
}

proof fn lemma_ammo_refund(b: BudgetView, ammo: Seq<CustomAmmo>)
    requires
        ammo_cost_sum(ammo) <= b.total_cost,
        b.weapons_budget + ammo_cost_sum(ammo) <= 65535,
    ensures
        apply_transactions(b, ammo_txs(ammo, true)) == (BudgetView {
            weapons_budget: (b.weapons_budget + ammo_cost_sum(ammo)) as u16,
            total_cost: (b.total_cost - ammo_cost_sum(ammo)) as u16,
            log: b.log + ammo_txs(ammo, true),
            ..b
        }),
    decreases ammo.len(),
{
    lemma_ammo_cost_sum_nonneg(ammo);
    if ammo.len() == 0 {
        assert(b.log + ammo_txs(ammo, true) =~= b.log);
        assert(apply_transactions(b, ammo_txs(ammo, true)) == b);
        assert(BudgetView {
            weapons_budget: (b.weapons_budget + 0) as u16,
            total_cost: (b.total_cost - 0) as u16,
            log: b.log + ammo_txs(ammo, true),
            ..b
        } == b);
    } else {
        let front = ammo.drop_last();
        let last = ammo.last();
        lemma_ammo_cost_sum_nonneg(front);
        lemma_ammo_refund(b, front);
        let b1 = apply_transactions(b, ammo_txs(front, true));
        if last.2 > 0 {
            lemma_apply_transactions_concat(b, ammo_txs(front, true), seq![ammo_tx(last, true)]);
            lemma_apply_one_tx(b1, ammo_tx(last, true));
            assert(b1.log.push(ammo_tx(last, true)) =~= b.log + ammo_txs(ammo, true));
        } else {
            assert(ammo_txs(ammo, true) =~= ammo_txs(front, true));
            assert(b.log + ammo_txs(ammo, true) =~= b.log + ammo_txs(front, true));
        }
    }
}

proof fn lemma_ammo_purchase_weapons(b: BudgetView, ammo: Seq<CustomAmmo>)
    requires
        ammo_cost_sum(ammo) <= b.weapons_budget,
    ensures
        apply_transactions(b, ammo_txs(ammo, false)).weapons_budget == b.weapons_budget
            - ammo_cost_sum(ammo),
        purchases_covered(b, ammo_txs(ammo, false)),
    decreases ammo.len(),
{
    lemma_ammo_cost_sum_nonneg(ammo);
    if ammo.len() > 0 {
        let front = ammo.drop_last();
        let last = ammo.last();
        lemma_ammo_cost_sum_nonneg(front);
        lemma_ammo_purchase_weapons(b, front);
        if last.2 > 0 {
            lemma_covered_concat_one(b, ammo_txs(front, false), ammo_tx(last, false));
            lemma_apply_transactions_concat(b, ammo_txs(front, false), seq![ammo_tx(last, false)]);
            lemma_apply_one_tx(
                apply_transactions(b, ammo_txs(front, false)),
                ammo_tx(last, false),
            );
        } else {
            lemma_covered_concat_empty(b, ammo_txs(front, false));
            assert(ammo_txs(front, false) + Seq::<TransactionView>::empty() =~= ammo_txs(
                front,
                false,
            ));
        }
    }
}

/// An item whose full cost fits the weapons sub-budget is charged in full:
/// every purchase of its rounds and of the item itself is covered.
pub proof fn lemma_item_purchase_covered(b: BudgetView, v: ItemView)
    requires
        item_total_cost(v) <= b.weapons_budget,
        effective_cost(v) <= 65535,
    ensures
        purchases_covered(b, item_txs(v, false)),
        apply_transactions(b, item_txs(v, false)).weapons_budget == b.weapons_budget
            - item_total_cost(v),
{
    lemma_ammo_cost_sum_nonneg(v.ammo_equipped);
    lemma_ammo_purchase_weapons(b, v.ammo_equipped);
    lemma_covered_concat_one(b, ammo_txs(v.ammo_equipped, false), weapon_tx(v, false));
    lemma_apply_transactions_concat(
        b,
        ammo_txs(v.ammo_equipped, false),
        seq![weapon_tx(v, false)],
    );
    lemma_apply_one_tx(
        apply_transactions(b, ammo_txs(v.ammo_equipped, false)),
        weapon_tx(v, false),
    );
}

proof fn lemma_ammo_refund_grows(b: BudgetView, ammo: Seq<CustomAmmo>)
    ensures
        apply_transactions(b, ammo_txs(ammo, true)).weapons_budget >= b.weapons_budget,
    decreases ammo.len(),
{
    if ammo.len() > 0 {
        let front = ammo.drop_last();
        let last = ammo.last();
        lemma_ammo_refund_grows(b, front);
        if last.2 > 0 {
            lemma_apply_transactions_concat(b, ammo_txs(front, true), seq![ammo_tx(last, true)]);
            lemma_apply_one_tx(
                apply_transactions(b, ammo_txs(front, true)),
                ammo_tx(last, true),
            );
        } else {
            assert(ammo_txs(front, true) + Seq::<TransactionView>::empty() =~= ammo_txs(
                front,
                true,
            ));
        }
    }
}

/// Refunding a slot never lowers the weapons sub-budget.
pub proof fn lemma_refund_keeps_weapons(b: BudgetView, s: LockableItemView)
    ensures
        apply_transactions(b, slot_txs(s, true)).weapons_budget >= b.weapons_budget,
{
    match s.item {
        Some(v) => {
            lemma_ammo_refund_grows(b, v.ammo_equipped);
            lemma_apply_transactions_concat(
                b,
                ammo_txs(v.ammo_equipped, true),
                seq![weapon_tx(v, true)],
            );
            lemma_apply_one_tx(
                apply_transactions(b, ammo_txs(v.ammo_equipped, true)),
                weapon_tx(v, true),
            );
        },
        None => {},
    }
}

/// Refunding an item directly after purchasing it restores the budget: for
/// any held item bought against a well-formed budget whose weapons
/// sub-budget covers the full cost, every balance returns to its old
/// value. Only the display log keeps the eight-entry trace.
pub proof fn lemma_refund_reverses_purchase(b: BudgetView, s: LockableItemView)
    requires
        within_initial(b),
        s.item is Some,
        effective_cost(s.item->Some_0) <= 65535,
        item_total_cost(s.item->Some_0) <= b.weapons_budget,
    ensures
        balances_eq(
            apply_transactions(apply_transactions(b, slot_txs(s, false)), slot_txs(s, true)),
            b,
        ),
{
    let v = s.item->Some_0;
    let ammo = v.ammo_equipped;
    lemma_ammo_cost_sum_nonneg(ammo);
    let sum = ammo_cost_sum(ammo);
    let cost = effective_cost(v);

    lemma_ammo_purchase(b, ammo);
    let b1 = apply_transactions(b, ammo_txs(ammo, false));
    lemma_apply_transactions_concat(b, ammo_txs(ammo, false), seq![weapon_tx(v, false)]);
    lemma_apply_one_tx(b1, weapon_tx(v, false));
    let b2 = apply_transactions(b, item_txs(v, false));
    assert(b2.weapons_budget == b.weapons_budget - sum - cost);
    assert(b2.total_cost == b.total_cost + sum + cost);

    lemma_ammo_refund(b2, ammo);
    let b3 = apply_transactions(b2, ammo_txs(ammo, true));
    lemma_apply_transactions_concat(b2, ammo_txs(ammo, true), seq![weapon_tx(v, true)]);
    lemma_apply_one_tx(b3, weapon_tx(v, true));
    assert(b3.weapons_budget == b.weapons_budget - cost);
    assert(b3.total_cost == b.total_cost + cost);
}

/// The free default rounds cost nothing.
pub proof fn lemma_default_ammo_free(v: ItemView, size: BulletSize)
    ensures
        ammo_cost_sum(default_ammo_for(v, size)) == 0,
{
    let one = seq![(size, None::<crate::content::BulletVariant>, 0u16)];
    assert(one.drop_last() =~= Seq::<CustomAmmo>::empty());
    assert(ammo_cost_sum(Seq::<CustomAmmo>::empty()) == 0);
    assert(one.last().2 == 0);
    assert(ammo_cost_sum(one) == ammo_cost_sum(one.drop_last()) + one.last().2);
    assert(ammo_cost_sum(one) == 0);
    if v.additional_ammo_slots == Some(true) {
        let two = default_ammo_for(v, size);
        assert(two.drop_last() =~= one);
        assert(ammo_cost_sum(two) == ammo_cost_sum(one) + two.last().2);
    }
}

/// The sizes a paired weapon may occupy, given the first weapon's size and
/// the quartermaster toggle.
pub open spec fn valid_paired_sizes(quartermaster: bool, slot: Slot) -> Seq<Slot> {
    if quartermaster {
        match slot {
            Slot::Small | Slot::Medium => seq![Slot::Small, Slot::Medium, Slot::Large],
            Slot::Large => seq![Slot::Small, Slot::Medium],
        }
    } else {
        match slot {
            Slot::Small => seq![Slot::Small, Slot::Medium, Slot::Large],
            Slot::Medium => seq![Slot::Small, Slot::Medium],
            Slot::Large => seq![Slot::Small],
        }
    }
}

/// The sizes a paired weapon may occupy. Quartermaster off: a small
/// weapon pairs with anything, a medium one with small or medium, a large
/// one with small only. Quartermaster on: small and medium pair with
/// anything, large with small or medium.
pub fn get_valid_slots(quartermaster: bool, slot: &Slot) -> (r: Vec<Slot>)
    ensures
        r@ == valid_paired_sizes(quartermaster, *slot),
{
    let mut r: Vec<Slot> = Vec::new();
    if quartermaster {
        match slot {
            Slot::Small | Slot::Medium => {
                r.push(Slot::Small);
                r.push(Slot::Medium);
                r.push(Slot::Large);
                proof {
                    assert(r@ =~= seq![Slot::Small, Slot::Medium, Slot::Large]);
                }
            },
            Slot::Large => {
                r.push(Slot::Small);
                r.push(Slot::Medium);
                proof {
                    assert(r@ =~= seq![Slot::Small, Slot::Medium]);
                }
            },
        }
    } else {
        match slot {
            Slot::Small => {
                r.push(Slot::Small);
                r.push(Slot::Medium);
                r.push(Slot::Large);
                proof {
                    assert(r@ =~= seq![Slot::Small, Slot::Medium, Slot::Large]);
                }
            },
            Slot::Medium => {
                r.push(Slot::Small);
                r.push(Slot::Medium);
                proof {
                    assert(r@ =~= seq![Slot::Small, Slot::Medium]);
                }
            },
            Slot::Large => {
                r.push(Slot::Small);
                proof {
                    assert(r@ =~= seq![Slot::Small]);
                }
            },
        }
    }
    r
}

/// Draws one item, uniformly, among those whose effective cost is within
/// `cost`. Returns nothing exactly when no candidate is affordable.
pub fn item_lte_cost(items: &Vec<GenericItem>, cost: u16, rng: &mut rand::rngs::StdRng) -> (r:
    Option<GenericItem>)
    requires
        forall|k: int|
            0 <= k < items@.len() ==> effective_cost(#[trigger] items_view(items@)[k]) <= 65535,
    ensures
        match r {
            Some(w) => effective_cost(w@) <= cost && exists|k: int|
                0 <= k < items@.len() && items_view(items@)[k] == w@,
            None => forall|k: int|
                0 <= k < items@.len() ==> effective_cost(#[trigger] items_view(items@)[k]) > cost,
        },
{
    let mut candidates: Vec<GenericItem> = Vec::new();
    let mut i: usize = 0;
    while i < items.len()
        invariant
            i <= items@.len(),
            forall|k: int|
                0 <= k < items@.len() ==> effective_cost(#[trigger] items_view(items@)[k])
                    <= 65535,
            forall|j: int|
                0 <= j < candidates@.len() ==> effective_cost(
                    #[trigger] items_view(candidates@)[j],
                ) <= cost,
            forall|j: int|
                0 <= j < candidates@.len() ==> exists|k: int|
                    0 <= k < items@.len() && items_view(items@)[k] == (#[trigger] items_view(
                        candidates@,
                    )[j]),
            candidates@.len() == 0 ==> forall|k: int|
                0 <= k < i ==> effective_cost(#[trigger] items_view(items@)[k]) > cost,
        decreases items@.len() - i,
    {
        proof {
            assert(items_view(items@)[i as int] == items@[i as int]@);
        }
        if items[i].get_cost() <= cost {
            let ghost prev = candidates@;
            candidates.push(items[i].clone());
            proof {
                assert(candidates@.len() == prev.len() + 1);
                assert forall|j: int| 0 <= j < candidates@.len() implies effective_cost(
                    items_view(candidates@)[j],
                ) <= cost && (exists|k: int|
                    0 <= k < items@.len() && items_view(items@)[k] == items_view(candidates@)[j])
                by {
                    if j < prev.len() {
                        assert(candidates@[j] == prev[j]);
                        assert(items_view(candidates@)[j] == items_view(prev)[j]);
                    } else {
                        assert(items_view(candidates@)[j] == candidates@[j]@);
                        assert(items_view(candidates@)[j] == items_view(items@)[i as int]);
                    }
                }
            }
        }
        i = i + 1;
    }
    if candidates.len() == 0 {
        None
    } else {
        let idx = rng_index(rng, candidates.len());
        proof {
            assert(items_view(candidates@)[idx as int] == candidates@[idx as int]@);
        }
        Some(candidates[idx].clone())
    }
}

/// What a slot holds after the free default rounds are attached: one per
/// ammo slot, of the weapon's own bullet size.
pub open spec fn default_ammo_for(v: ItemView, size: BulletSize) -> Seq<CustomAmmo> {
    if v.additional_ammo_slots == Some(true) {
        seq![(size, None, 0u16), (size, None, 0u16)]
    } else {
        seq![(size, None, 0u16)]
    }
}

/// The slot after `set_default_ammo`: a held weapon with no rounds gains
/// its free default rounds; anything else is untouched.
pub open spec fn with_default_ammo(s: LockableItemView) -> LockableItemView {
    match s.item {
        Some(v) => if v.ammo_equipped.len() == 0 {
            match first_bullet_size(v.usage_types) {
                Some(size) => LockableItemView {
                    item: Some(ItemView { ammo_equipped: default_ammo_for(v, size), ..v }),
                    ..s
                },
                None => s,
            }
        } else {
            s
        },
        None => s,
    }
}

/// Attaches the free default rounds to a held weapon whose ammunition is
/// unset. Returns false exactly when the slot already had rounds equipped.
pub fn set_default_ammo(item: &mut GenericItemLockable) -> (r: bool)
    ensures
        final(item)@ == with_default_ammo(old(item)@),
        r == !(old(item)@.item is Some && old(item)@.item->Some_0.ammo_equipped.len() > 0),
{
    match &mut item.item {
        Some(it) => {
            if it.ammo_equipped.len() > 0 {
                return false;
            }
            match it.get_bullet_size() {
                Some(bullet_size) => {
                    let additional = match it.additional_ammo_slots {
                        Some(b) => b,
                        None => false,
                    };
                    let mut ammo: Vec<CustomAmmo> = Vec::new();
                    ammo.push((bullet_size, None, 0));
                    if additional {
                        ammo.push((bullet_size, None, 0));
                    }
                    it.ammo_equipped = ammo;
                    proof {
                        if additional {
                            assert(it@.ammo_equipped =~= default_ammo_for(
                                old(item)@.item->Some_0,
                                first_bullet_size(old(item)@.item->Some_0.usage_types)->Some_0,
                            ));
                        } else {
                            assert(it@.ammo_equipped =~= default_ammo_for(
                                old(item)@.item->Some_0,
                                first_bullet_size(old(item)@.item->Some_0.usage_types)->Some_0,
                            ));
                        }
                    }
                },
                None => {},
            }
            true
        },
        None => true,
    }
}

/// Whether the tool at index `i` duplicates a tool at an earlier index.
pub open spec fn is_duplicate_tool_at(tools: Seq<LockableItemView>, i: int) -> bool {
    tools[i].item is Some && exists|j: int|
        0 <= j < i && (#[trigger] tools[j]).item is Some && same_item_spec(
            tools[j].item->Some_0,
            tools[i].item->Some_0,
        )
}

/// The validator findings for duplicate tools among the first `upto`
/// slots, in slot order: the first occurrence is kept valid, later ones
/// are flagged.
pub open spec fn duplicate_tool_flags(tools: Seq<LockableItemView>, upto: int) -> Seq<
    LoadoutInvalid,
>
    decreases upto,
{
    if upto <= 0 {
        Seq::empty()
    } else {
        duplicate_tool_flags(tools, upto - 1) + (if is_duplicate_tool_at(tools, upto - 1) {
            seq![LoadoutInvalid::ToolSlot((upto - 1) as u8)]
        } else {
            Seq::<LoadoutInvalid>::empty()
        })
    }
}

/// The validator findings for the weapon pair: both slots are flagged
/// together when both weapons are present, both carry a catalog slot size,
/// and the second size is not a valid pair for the first.
pub open spec fn weapon_pair_flags(l: LoadoutView, quartermaster: bool) -> Seq<LoadoutInvalid> {
    match (l.weapon_one.item, l.weapon_two.item) {
        (Some(w1), Some(w2)) => match (w1.slot, w2.slot) {
            (Some(s1), Some(s2)) => if !valid_paired_sizes(quartermaster, s1).contains(s2) {
                seq![LoadoutInvalid::WeaponSlot(0), LoadoutInvalid::WeaponSlot(1)]
            } else {
                Seq::<LoadoutInvalid>::empty()
            },
            _ => Seq::<LoadoutInvalid>::empty(),
        },
        _ => Seq::<LoadoutInvalid>::empty(),
    }
}

/// Every validator finding for a loadout: the weapon-pair findings, then
/// the duplicate-tool findings in slot order. Consumables are never
/// flagged.
pub open spec fn validity_flags(l: LoadoutView, quartermaster: bool) -> Seq<LoadoutInvalid> {
    weapon_pair_flags(l, quartermaster) + duplicate_tool_flags(l.tools, l.tools.len() as int)
}

fn slot_contained(sizes: &Vec<Slot>, s: &Slot) -> (r: bool)
    ensures
        r == sizes@.contains(*s),
{
    let mut i: usize = 0;
    while i < sizes.len()
        invariant
            i <= sizes@.len(),
            forall|k: int| 0 <= k < i ==> sizes@[k] != *s,
        decreases sizes@.len() - i,
    {
        if sizes[i] == *s {
            return true;
        }
        i = i + 1;
    }
    false
}

/// The read-only validator: flags the weapon pair when its sizes are
/// incompatible, and every tool slot whose item duplicates an
/// earlier-indexed tool.
pub fn check_loadout_validity(loadout: &Loadout, quartermaster: bool) -> (r: Vec<LoadoutInvalid>)
    ensures
        r@ == validity_flags(loadout@, quartermaster),
{
    let mut invalid_checks: Vec<LoadoutInvalid> = Vec::new();

    match (&loadout.weapon_one.item, &loadout.weapon_two.item) {
        (Some(weapon_one), Some(weapon_two)) => {
            match (&weapon_one.slot, &weapon_two.slot) {
                (Some(weapon_one_slot), Some(weapon_two_slot)) => {
                    let valid_slots = get_valid_slots(quartermaster, weapon_one_slot);
                    if !slot_contained(&valid_slots, weapon_two_slot) {
                        invalid_checks.push(LoadoutInvalid::WeaponSlot(0));
                        invalid_checks.push(LoadoutInvalid::WeaponSlot(1));
                    }
                },
                _ => {},
            }
        },
        _ => {},
    }
    proof {
        assert(invalid_checks@ =~= weapon_pair_flags(loadout@, quartermaster));
    }

    let ghost tools = slots_view(loadout.tools@);
    let ghost base = invalid_checks@;
    let mut tool_id: usize = 0;
    while tool_id < loadout.tools.len()
        invariant
            tool_id <= loadout.tools@.len(),
            tools == slots_view(loadout.tools@),
            base == weapon_pair_flags(loadout@, quartermaster),
            invalid_checks@ == base + duplicate_tool_flags(tools, tool_id as int),
        decreases loadout.tools@.len() - tool_id,
    {
        let mut is_dup = false;
        match &loadout.tools[tool_id].item {
            Some(tool) => {
                let mut j: usize = 0;
                while j < tool_id
                    invariant
                        j <= tool_id < loadout.tools@.len(),
                        tools == slots_view(loadout.tools@),
                        tools[tool_id as int].item is Some,
                        tools[tool_id as int].item->Some_0 == tool@,
                        is_dup ==> is_duplicate_tool_at(tools, tool_id as int),
                        !is_dup ==> forall|k: int|
                            0 <= k < j ==> !((#[trigger] tools[k]).item is Some && same_item_spec(
                                tools[k].item->Some_0,
                                tools[tool_id as int].item->Some_0,
                            )),
                    decreases tool_id - j,
                {
                    match &loadout.tools[j].item {
                        Some(earlier) => {
                            if earlier.same_item(tool) {
                                proof {
                                    assert(tools[j as int].item is Some && same_item_spec(
                                        tools[j as int].item->Some_0,
                                        tools[tool_id as int].item->Some_0,
                                    ));
                                }
                                is_dup = true;
                            }
                        },
                        None => {},
                    }
                    j = j + 1;
                }
            },
            None => {},
        }
        proof {
            assert(duplicate_tool_flags(tools, tool_id as int + 1) == duplicate_tool_flags(
                tools,
                tool_id as int,
            ) + (if is_duplicate_tool_at(tools, tool_id as int) {
                seq![LoadoutInvalid::ToolSlot(tool_id as u8)]
            } else {
                Seq::<LoadoutInvalid>::empty()
            }));
        }
        if is_dup {
            invalid_checks.push(LoadoutInvalid::ToolSlot(tool_id as u8));
            proof {
                assert(invalid_checks@ =~= base + duplicate_tool_flags(tools, tool_id as int + 1));
            }
        } else {
            proof {
                assert(invalid_checks@ =~= base + duplicate_tool_flags(tools, tool_id as int + 1));
            }
        }
        tool_id = tool_id + 1;
    }
    invalid_checks
}

} // verus!
