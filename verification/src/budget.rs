//! The budget ledger: an initial allowance split into three sub-allowances,
//! a running spent total, and signed transactions with underflow
//! protection. Refunds credit saturating; purchases debit checked and are
//! rejected rather than clamped.

use vstd::prelude::*;

verus! {

/// A ledger entry: the category it charges, whether it is a refund or a
/// purchase, the amount, and a display label.
pub enum Transaction {
    Bullet(bool, u16, String),
    Tool(bool, u16, String),
    Consumable(bool, u16, String),
    Weapon(bool, u16, String),
}

/// The category of a transaction. Bullet and weapon transactions both
/// charge the weapons sub-budget.
#[derive(Clone, Copy, PartialEq, Eq, Structural, Debug)]
pub enum TransactionKind {
    Bullet,
    Tool,
    Consumable,
    Weapon,
}

/// What the ledger observes of a transaction.
pub struct TransactionView {
    pub kind: TransactionKind,
    pub refund: bool,
    pub amount: u16,
    pub label: Seq<char>,
}

impl View for Transaction {
    type V = TransactionView;

    open spec fn view(&self) -> TransactionView {
        match self {
            Transaction::Bullet(refund, amount, label) => TransactionView {
                kind: TransactionKind::Bullet,
                refund: *refund,
                amount: *amount,
                label: label@,
            },
            Transaction::Tool(refund, amount, label) => TransactionView {
                kind: TransactionKind::Tool,
                refund: *refund,
                amount: *amount,
                label: label@,
            },
            Transaction::Consumable(refund, amount, label) => TransactionView {
                kind: TransactionKind::Consumable,
                refund: *refund,
                amount: *amount,
                label: label@,
            },
            Transaction::Weapon(refund, amount, label) => TransactionView {
                kind: TransactionKind::Weapon,
                refund: *refund,
                amount: *amount,
                label: label@,
            },
        }
    }
}

impl Clone for Transaction {
    fn clone(&self) -> (r: Self)
        ensures
            r@ == self@,
    {
        match self {
            Transaction::Bullet(refund, amount, label) => Transaction::Bullet(
                *refund,
                *amount,
                label.clone(),
            ),
            Transaction::Tool(refund, amount, label) => Transaction::Tool(
                *refund,
                *amount,
                label.clone(),
            ),
            Transaction::Consumable(refund, amount, label) => Transaction::Consumable(
                *refund,
                *amount,
                label.clone(),
            ),
            Transaction::Weapon(refund, amount, label) => Transaction::Weapon(
                *refund,
                *amount,
                label.clone(),
            ),
        }
    }
}

/// The views of a sequence of transactions.
pub open spec fn txs_view(s: Seq<Transaction>) -> Seq<TransactionView> {
    s.map_values(|t: Transaction| t@)
}

fn clone_transactions(v: &Vec<Transaction>) -> (r: Vec<Transaction>)
    ensures
        txs_view(r@) == txs_view(v@),
{
    let mut r: Vec<Transaction> = Vec::new();
    let mut i: usize = 0;
    while i < v.len()
        invariant
            i <= v.len(),
            r@.len() == i,
            forall|k: int| 0 <= k < i ==> (#[trigger] r@[k])@ == v@[k]@,
        decreases v.len() - i,
    {
        r.push(v[i].clone());
        i = i + 1;
    }
    proof {
        assert forall|k: int| 0 <= k < v@.len() implies txs_view(r@)[k] == txs_view(v@)[k] by {
            assert(r@[k]@ == v@[k]@);
        }
        assert(txs_view(r@) =~= txs_view(v@));
    }
    r
}

/// Why a transaction or a budget reset failed.
#[derive(Clone, Copy, PartialEq, Eq, Structural, Debug)]
pub enum TransactionResult {
    InsufficientFunds,
    ErrorBudgeting,
}

/// The ledger: the initial allowance, the running spent total, the three
/// sub-allowances, and the transaction log kept for display.
pub struct Budget {
    pub debug_transactions: Vec<Transaction>,
    pub total_cost: u16,
    pub initial_budget: u16,
    pub tools_budget: u16,
    pub consumables_budget: u16,
    pub weapons_budget: u16,
}

/// What the randomizer observes of a budget.
pub struct BudgetView {
    pub log: Seq<TransactionView>,
    pub total_cost: u16,
    pub initial_budget: u16,
    pub tools_budget: u16,
    pub consumables_budget: u16,
    pub weapons_budget: u16,
}

impl View for Budget {
    type V = BudgetView;

    open spec fn view(&self) -> BudgetView {
        BudgetView {
            log: txs_view(self.debug_transactions@),
            total_cost: self.total_cost,
            initial_budget: self.initial_budget,
            tools_budget: self.tools_budget,
            consumables_budget: self.consumables_budget,
            weapons_budget: self.weapons_budget,
        }
    }
}

impl Clone for Budget {
    fn clone(&self) -> (r: Self)
        ensures
            r@ == self@,
    {
        Budget {
            debug_transactions: clone_transactions(&self.debug_transactions),
            total_cost: self.total_cost,
            initial_budget: self.initial_budget,
            tools_budget: self.tools_budget,
            consumables_budget: self.consumables_budget,
            weapons_budget: self.weapons_budget,
        }
    }
}

/// Addition on u16 clamped at the top of the range.
pub open spec fn sat_add16(a: u16, b: u16) -> u16 {
    if a + b > 65535 {
        65535u16
    } else {
        (a + b) as u16
    }
}

/// Subtraction on u16 clamped at zero.
pub open spec fn sat_sub16(a: u16, b: u16) -> u16 {
    if a >= b {
        (a - b) as u16
    } else {
        0u16
    }
}

/// Whether a transaction goes through: refunds always succeed; a purchase
/// succeeds exactly when its category's sub-budget covers the amount.
pub open spec fn transaction_ok(b: BudgetView, t: TransactionView) -> bool {
    t.refund || (match t.kind {
        TransactionKind::Bullet | TransactionKind::Weapon => b.weapons_budget >= t.amount,
        TransactionKind::Consumable => b.consumables_budget >= t.amount,
        TransactionKind::Tool => b.tools_budget >= t.amount,
    })
}

/// The budget after one transaction. The transaction is always appended to
/// the log; a purchase that the sub-budget cannot cover leaves every other
/// field unchanged. A tool refund debits the tools sub-budget, saturating,
/// rather than crediting it: a deliberate asymmetry of this ledger, kept
/// because callers observe it in affordability after tool refunds.
pub open spec fn apply_transaction(b: BudgetView, t: TransactionView) -> BudgetView {
    let logged = BudgetView { log: b.log.push(t), ..b };
    match t.kind {
        TransactionKind::Bullet | TransactionKind::Weapon => if t.refund {
            BudgetView {
                weapons_budget: sat_add16(b.weapons_budget, t.amount),
                total_cost: sat_sub16(b.total_cost, t.amount),
                ..logged
            }
        } else if b.weapons_budget >= t.amount {
            BudgetView {
                weapons_budget: (b.weapons_budget - t.amount) as u16,
                total_cost: sat_add16(b.total_cost, t.amount),
                ..logged
            }
        } else {
            logged
        },
        TransactionKind::Consumable => if t.refund {
            BudgetView {
                consumables_budget: sat_add16(b.consumables_budget, t.amount),
                total_cost: sat_sub16(b.total_cost, t.amount),
                ..logged
            }
        } else if b.consumables_budget >= t.amount {
            BudgetView {
                consumables_budget: (b.consumables_budget - t.amount) as u16,
                total_cost: sat_add16(b.total_cost, t.amount),
                ..logged
            }
        } else {
            logged
        },
        TransactionKind::Tool => if t.refund {
            BudgetView {
                tools_budget: sat_sub16(b.tools_budget, t.amount),
                total_cost: sat_sub16(b.total_cost, t.amount),
                ..logged
            }
        } else if b.tools_budget >= t.amount {
            BudgetView {
                tools_budget: (b.tools_budget - t.amount) as u16,
                total_cost: sat_add16(b.total_cost, t.amount),
                ..logged
            }
        } else {
            logged
        },
    }
}

/// Appends the transaction to the log, then settles it: refunds credit the
/// category saturating and lower the spent total; purchases debit checked
/// and raise the spent total, or are rejected whole.
pub fn process_transaction(budget: &mut Budget, transaction_type: Transaction) -> (r: Result<
    (),
    TransactionResult,
>)
    ensures
        final(budget)@ == apply_transaction(old(budget)@, transaction_type@),
        r is Ok <==> transaction_ok(old(budget)@, transaction_type@),
        r is Err ==> r == Err::<(), TransactionResult>(TransactionResult::InsufficientFunds),
{
    budget.debug_transactions.push(transaction_type.clone());
    proof {
        assert(txs_view(budget.debug_transactions@) =~= txs_view(
            old(budget).debug_transactions@,
        ).push(transaction_type@));
    }

    match transaction_type {
        Transaction::Bullet(refund, amount, _) | Transaction::Weapon(refund, amount, _) => {
            if refund {
                budget.weapons_budget = budget.weapons_budget.saturating_add(amount);
                budget.total_cost = budget.total_cost.saturating_sub(amount);
                Ok(())
            } else {
                match budget.weapons_budget.checked_sub(amount) {
                    Some(val) => {
                        budget.weapons_budget = val;
                        budget.total_cost = budget.total_cost.saturating_add(amount);
                        Ok(())
                    },
                    None => Err(TransactionResult::InsufficientFunds),
                }
            }
        },
        Transaction::Consumable(refund, amount, _) => {
            if refund {
                budget.consumables_budget = budget.consumables_budget.saturating_add(amount);
                budget.total_cost = budget.total_cost.saturating_sub(amount);
                Ok(())
            } else {
                match budget.consumables_budget.checked_sub(amount) {
                    Some(val) => {
                        budget.consumables_budget = val;
                        budget.total_cost = budget.total_cost.saturating_add(amount);
                        Ok(())
                    },
                    None => Err(TransactionResult::InsufficientFunds),
                }
            }
        },
        Transaction::Tool(refund, amount, _) => {
            if refund {
                budget.tools_budget = budget.tools_budget.saturating_sub(amount);
                budget.total_cost = budget.total_cost.saturating_sub(amount);
                Ok(())
            } else {
                match budget.tools_budget.checked_sub(amount) {
                    Some(val) => {
                        budget.tools_budget = val;
                        budget.total_cost = budget.total_cost.saturating_add(amount);
                        Ok(())
                    },
                    None => Err(TransactionResult::InsufficientFunds),
                }
            }
        },
    }
}

/// A budget freshly reset to a total allowance: nothing spent, an empty
/// log, a sixth of the total for tools, a quarter for consumables, and the
/// rest for weapons.
pub open spec fn fresh_budget(total: u16) -> BudgetView {
    BudgetView {
        log: Seq::empty(),
        total_cost: 0u16,
        initial_budget: total,
        tools_budget: (total / 6) as u16,
        consumables_budget: (total / 4) as u16,
        weapons_budget: (total - (total / 6 + total / 4)) as u16,
    }
}

/// The split never exceeds the total, so resetting cannot underflow.
proof fn lemma_split_fits(total: u16)
    ensures
        total / 6 + total / 4 <= total,
{
    assert(6 * (total / 6) + total % 6 == total);
    assert(4 * (total / 4) + total % 4 == total);
}

fn reset_budget(budget: &mut Budget) -> (r: Result<(), TransactionResult>)
    ensures
        r is Ok,
        final(budget)@ == fresh_budget(old(budget)@.initial_budget),
{
    budget.total_cost = 0;
    budget.tools_budget = budget.initial_budget / 6;
    budget.consumables_budget = budget.initial_budget / 4;
    budget.debug_transactions.clear();

    proof {
        lemma_split_fits(budget.initial_budget);
        assert(txs_view(Seq::<Transaction>::empty()) =~= Seq::<TransactionView>::empty());
    }
    match budget.initial_budget.checked_sub(
        budget.tools_budget.saturating_add(budget.consumables_budget),
    ) {
        Some(val) => {
            budget.weapons_budget = val;
            Ok(())
        },
        None => Err(TransactionResult::ErrorBudgeting),
    }
}

/// Resets the ledger to a new total allowance, splitting it across the
/// three sub-budgets. The split always fits, so this always succeeds.
pub fn set_budget(budget: &mut Budget, new_budget: u16) -> (r: Result<(), TransactionResult>)
    ensures
        r is Ok,
        final(budget)@ == fresh_budget(new_budget),
{
    budget.initial_budget = new_budget;
    reset_budget(budget)
}

impl Default for Budget {
    /// A session budget: the maximum allowance, split across the three
    /// sub-budgets, with nothing yet spent.
    fn default() -> (r: Self)
        ensures
            r@ == fresh_budget(65535u16),
    {
        let mut budget = Budget {
            debug_transactions: Vec::new(),
            total_cost: 0,
            initial_budget: 65535,
            tools_budget: 0,
            consumables_budget: 0,
            weapons_budget: 0,
        };
        let _status = reset_budget(&mut budget);
        budget
    }
}

/// The budget after the unspent weapons allowance has cascaded into tools.
pub open spec fn after_weapons_to_tools(b: BudgetView) -> BudgetView {
    BudgetView { tools_budget: sat_add16(b.tools_budget, b.weapons_budget), ..b }
}

/// The budget after the unspent tools allowance has cascaded into
/// consumables.
pub open spec fn after_tools_to_consumables(b: BudgetView) -> BudgetView {
    BudgetView { consumables_budget: sat_add16(b.consumables_budget, b.tools_budget), ..b }
}

/// Cascades the unspent weapons allowance into the tools sub-budget,
/// saturating. Called once, after weapon assignment.
pub fn transfer_weapons_to_tools(budget: &mut Budget)
    ensures
        final(budget)@ == after_weapons_to_tools(old(budget)@),
{
    budget.tools_budget = budget.tools_budget.saturating_add(budget.weapons_budget);
}

/// Cascades the unspent tools allowance into the consumables sub-budget,
/// saturating. Called once, after tool assignment.
pub fn transfer_tools_to_consumables(budget: &mut Budget)
    ensures
        final(budget)@ == after_tools_to_consumables(old(budget)@),
{
    budget.consumables_budget = budget.consumables_budget.saturating_add(budget.tools_budget);
}

/// The sum of the three sub-allowances and the spent total.
pub open spec fn committed_total(b: BudgetView) -> int {
    b.weapons_budget + b.tools_budget + b.consumables_budget + b.total_cost
}

/// The ledger invariant: what remains plus what was spent never exceeds
/// the initial allowance. The sub-budgets themselves cannot go negative:
/// they are unsigned, and purchases that would underflow are rejected.
pub open spec fn within_initial(b: BudgetView) -> bool {
    committed_total(b) <= b.initial_budget
}

/// A freshly reset budget satisfies the ledger invariant, with equality.
pub proof fn lemma_fresh_budget_within_initial(total: u16)
    ensures
        within_initial(fresh_budget(total)),
        committed_total(fresh_budget(total)) == total,
{
    lemma_split_fits(total);
}

/// One transaction preserves the ledger invariant, provided a refund of a
/// weapons-, bullet- or consumable-category amount never exceeds the spent
/// total. (An uncovered refund can push the sum past the initial
/// allowance; a tool refund only ever lowers the sum.)
pub proof fn lemma_transaction_preserves_bound(b: BudgetView, t: TransactionView)
    requires
        within_initial(b),
        t.refund && !(t.kind is Tool) ==> t.amount <= b.total_cost,
    ensures
        within_initial(apply_transaction(b, t)),
{
}

/// The budget after a sequence of transactions, applied in order.
pub open spec fn apply_transactions(b: BudgetView, ts: Seq<TransactionView>) -> BudgetView
    decreases ts.len(),
{
    if ts.len() == 0 {
        b
    } else {
        apply_transaction(apply_transactions(b, ts.drop_last()), ts.last())
    }
}

/// Whether every non-tool refund in the sequence is covered by the spent
/// total at the moment it is applied.
pub open spec fn refunds_covered(b: BudgetView, ts: Seq<TransactionView>) -> bool
    decreases ts.len(),
{
    if ts.len() == 0 {
        true
    } else {
        refunds_covered(b, ts.drop_last()) && (ts.last().refund && !(ts.last().kind is Tool)
            ==> ts.last().amount <= apply_transactions(b, ts.drop_last()).total_cost)
    }
}

/// For every sequence of refund and purchase transactions whose refunds
/// are covered, the three sub-allowances plus the spent total never exceed
/// the initial allowance.
pub proof fn lemma_transactions_preserve_bound(b: BudgetView, ts: Seq<TransactionView>)
    requires
        within_initial(b),
        refunds_covered(b, ts),
    ensures
        within_initial(apply_transactions(b, ts)),
    decreases ts.len(),
{
    if ts.len() > 0 {
        lemma_transactions_preserve_bound(b, ts.drop_last());
        lemma_transaction_preserves_bound(apply_transactions(b, ts.drop_last()), ts.last());
    }
}

/// Equality of everything a budget holds except the display log.
pub open spec fn balances_eq(a: BudgetView, b: BudgetView) -> bool {
    &&& a.total_cost == b.total_cost
    &&& a.initial_budget == b.initial_budget
    &&& a.tools_budget == b.tools_budget
    &&& a.consumables_budget == b.consumables_budget
    &&& a.weapons_budget == b.weapons_budget
}

/// Applying a concatenation is applying the parts in turn.
pub proof fn lemma_apply_transactions_concat(
    b: BudgetView,
    ts1: Seq<TransactionView>,
    ts2: Seq<TransactionView>,
)
    ensures
        apply_transactions(b, ts1 + ts2) == apply_transactions(apply_transactions(b, ts1), ts2),
    decreases ts2.len(),
{
    if ts2.len() == 0 {
        assert(ts1 + ts2 =~= ts1);
    } else {
        lemma_apply_transactions_concat(b, ts1, ts2.drop_last());
        assert((ts1 + ts2).drop_last() =~= ts1 + ts2.drop_last());
        assert((ts1 + ts2).last() == ts2.last());
    }
}

/// A sequence of transactions never changes the initial allowance.
pub proof fn lemma_apply_transactions_keep_initial(b: BudgetView, ts: Seq<TransactionView>)
    ensures
        apply_transactions(b, ts).initial_budget == b.initial_budget,
    decreases ts.len(),
{
    if ts.len() > 0 {
        lemma_apply_transactions_keep_initial(b, ts.drop_last());
    }
}

/// Cascading weapons into tools and then tools into consumables leaves the
/// consumables sub-budget exactly as if all three had been folded into it
/// in one saturating step: the cascade is associative.
pub proof fn lemma_cascade_collapses(b: BudgetView)
    ensures
        after_tools_to_consumables(after_weapons_to_tools(b)).consumables_budget == sat_add16(
            b.consumables_budget,
            sat_add16(b.tools_budget, b.weapons_budget),
        ),
        after_tools_to_consumables(after_weapons_to_tools(b)).consumables_budget as int == (
        if b.consumables_budget + b.tools_budget + b.weapons_budget > 65535 {
            65535int
        } else {
            b.consumables_budget + b.tools_budget + b.weapons_budget
        }),
        after_tools_to_consumables(after_weapons_to_tools(b)).total_cost == b.total_cost,
        after_tools_to_consumables(after_weapons_to_tools(b)).initial_budget == b.initial_budget,
{
}

} // verus!
