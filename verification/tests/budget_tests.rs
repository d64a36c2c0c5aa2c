use loadout_randomizer::budget::{process_transaction, set_budget, transfer_tools_to_consumables,
    transfer_weapons_to_tools, Budget, Transaction, TransactionResult};

#[test]
fn set_budget_splits_total() {
    let mut budget = Budget::default();
    let result = set_budget(&mut budget, 60);
    assert!(result.is_ok());
    assert_eq!(budget.initial_budget, 60);
    assert_eq!(budget.tools_budget, 10);
    assert_eq!(budget.consumables_budget, 15);
    assert_eq!(budget.weapons_budget, 35);
    assert_eq!(budget.total_cost, 0);
    assert_eq!(budget.debug_transactions.len(), 0);
}

#[test]
fn default_budget_splits_maximum() {
    let budget = Budget::default();
    assert_eq!(budget.initial_budget, u16::MAX);
    assert_eq!(budget.tools_budget, u16::MAX / 6);
    assert_eq!(budget.consumables_budget, u16::MAX / 4);
    assert_eq!(
        budget.weapons_budget,
        u16::MAX - (u16::MAX / 6 + u16::MAX / 4)
    );
    assert_eq!(budget.total_cost, 0);
}

#[test]
fn purchase_debits_and_logs() {
    let mut budget = Budget::default();
    set_budget(&mut budget, 100).unwrap();
    let weapons_before = budget.weapons_budget;
    let result = process_transaction(
        &mut budget,
        Transaction::Weapon(false, 30, "Romero 77".to_owned()),
    );
    assert!(result.is_ok());
    assert_eq!(budget.weapons_budget, weapons_before - 30);
    assert_eq!(budget.total_cost, 30);
    assert_eq!(budget.debug_transactions.len(), 1);
}

#[test]
fn purchase_underflow_is_rejected_not_clamped() {
    let mut budget = Budget::default();
    set_budget(&mut budget, 100).unwrap();
    let weapons_before = budget.weapons_budget;
    let result = process_transaction(
        &mut budget,
        Transaction::Weapon(false, weapons_before + 1, "Nitro Express Rifle".to_owned()),
    );
    assert_eq!(result, Err(TransactionResult::InsufficientFunds));
    assert_eq!(budget.weapons_budget, weapons_before);
    assert_eq!(budget.total_cost, 0);
    // the attempt is still logged for display
    assert_eq!(budget.debug_transactions.len(), 1);
}

#[test]
fn bullet_transactions_charge_the_weapons_budget() {
    let mut budget = Budget::default();
    set_budget(&mut budget, 100).unwrap();
    let weapons_before = budget.weapons_budget;
    process_transaction(&mut budget, Transaction::Bullet(false, 10, "Long".to_owned())).unwrap();
    assert_eq!(budget.weapons_budget, weapons_before - 10);
    assert_eq!(budget.total_cost, 10);
}

#[test]
fn refund_credits_saturating() {
    let mut budget = Budget::default();
    set_budget(&mut budget, 100).unwrap();
    process_transaction(&mut budget, Transaction::Weapon(false, 30, "Vetterli".to_owned()))
        .unwrap();
    let result = process_transaction(
        &mut budget,
        Transaction::Weapon(true, 30, "Vetterli".to_owned()),
    );
    assert!(result.is_ok());
    assert_eq!(budget.weapons_budget, 100 - (100 / 6 + 100 / 4));
    assert_eq!(budget.total_cost, 0);
}

#[test]
fn refund_of_nothing_floors_spent_total_at_zero() {
    let mut budget = Budget::default();
    set_budget(&mut budget, 100).unwrap();
    process_transaction(&mut budget, Transaction::Weapon(true, 40, "Bornheim".to_owned()))
        .unwrap();
    assert_eq!(budget.total_cost, 0);
}

#[test]
fn tool_refund_debits_the_tools_budget() {
    // The ledger's deliberate asymmetry: a tool refund subtracts from the
    // tools sub-budget, saturating, instead of crediting it.
    let mut budget = Budget::default();
    set_budget(&mut budget, 60).unwrap();
    assert_eq!(budget.tools_budget, 10);
    process_transaction(&mut budget, Transaction::Tool(true, 4, "Spyglass".to_owned())).unwrap();
    assert_eq!(budget.tools_budget, 6);
    process_transaction(&mut budget, Transaction::Tool(true, 100, "Spyglass".to_owned()))
        .unwrap();
    assert_eq!(budget.tools_budget, 0);
}

#[test]
fn consumable_purchase_uses_its_own_budget() {
    let mut budget = Budget::default();
    set_budget(&mut budget, 60).unwrap();
    let result = process_transaction(
        &mut budget,
        Transaction::Consumable(false, 15, "Weak Vitality Shot".to_owned()),
    );
    assert!(result.is_ok());
    assert_eq!(budget.consumables_budget, 0);
    let result = process_transaction(
        &mut budget,
        Transaction::Consumable(false, 1, "Vitality Shot".to_owned()),
    );
    assert_eq!(result, Err(TransactionResult::InsufficientFunds));
}

#[test]
fn cascade_two_steps_equals_one_step() {
    let mut budget = Budget::default();
    set_budget(&mut budget, 60).unwrap();
    let expected = budget.consumables_budget as u32 + budget.tools_budget as u32
        + budget.weapons_budget as u32;
    transfer_weapons_to_tools(&mut budget);
    transfer_tools_to_consumables(&mut budget);
    assert_eq!(budget.consumables_budget as u32, expected);
}

#[test]
fn cascade_saturates_like_the_one_step_fold() {
    let mut budget = Budget::default();
    budget.weapons_budget = 30000;
    budget.tools_budget = 30000;
    budget.consumables_budget = 30000;
    transfer_weapons_to_tools(&mut budget);
    transfer_tools_to_consumables(&mut budget);
    // 90000 exceeds the ledger's range, so the fold clamps at the top
    assert_eq!(budget.consumables_budget, u16::MAX);
}

#[test]
fn committed_total_never_exceeds_initial_over_a_session() {
    let mut budget = Budget::default();
    set_budget(&mut budget, 500).unwrap();
    let steps: Vec<Transaction> = vec![
        Transaction::Weapon(false, 120, "Springfield".to_owned()),
        Transaction::Bullet(false, 30, "Dum Dum".to_owned()),
        Transaction::Tool(false, 15, "First Aid Kit".to_owned()),
        Transaction::Bullet(true, 30, "Dum Dum".to_owned()),
        Transaction::Consumable(false, 40, "Big Dynamite Bundle".to_owned()),
        Transaction::Weapon(true, 120, "Springfield".to_owned()),
        Transaction::Tool(true, 15, "First Aid Kit".to_owned()),
    ];
    for tx in steps {
        let _ = process_transaction(&mut budget, tx);
        let sum = budget.weapons_budget as u32 + budget.tools_budget as u32
            + budget.consumables_budget as u32 + budget.total_cost as u32;
        assert!(sum <= budget.initial_budget as u32);
    }
}
