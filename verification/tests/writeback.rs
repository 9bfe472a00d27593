//! The OATS loop closes: an action proposes, the registry is untouched until the host
//! applies, and the trait value differs afterwards.

use oats_framework::{
    id_text, Action, ActionContext, ActionResult, OatsError, Object, SystemManager, Trait, TraitData, TraitUpdate,
};

fn number(x: f64) -> TraitData {
    TraitData::Number(x.to_bits())
}

/// Debits a numeric trait by a fixed amount and proposes the new value.
struct DebitAction {
    trait_name: String,
    amount: f64,
}

impl Action for DebitAction {
    fn name(&self) -> &str {
        "debit"
    }

    fn description(&self) -> &str {
        "Debits a numeric trait"
    }

    fn required_traits(&self) -> Vec<String> {
        vec![self.trait_name.clone()]
    }
}

impl DebitAction {
    fn execute(&self, context: ActionContext) -> Result<ActionResult, OatsError> {
        let account = context
            .get_object("account")
            .ok_or_else(|| OatsError::action_failed("account not in context"))?;

        let current = account
            .get_trait(&self.trait_name)
            .and_then(|t| t.data().as_number())
            .map(f64::from_bits)
            .ok_or_else(|| OatsError::trait_not_found(&self.trait_name))?;

        let mut result = ActionResult::success();
        result.add_trait_update(account.id(), Trait::new(&self.trait_name, number(current - self.amount)));
        Ok(result)
    }

    fn run(&self, context: ActionContext) -> Result<ActionResult, OatsError> {
        self.validate_context(&context)?;
        self.execute(context)
    }
}

fn registered_balance(manager: &SystemManager, id: &str) -> f64 {
    manager
        .get_object(id)
        .expect("object registered")
        .get_trait("balance")
        .and_then(|t| t.data().as_number())
        .map(f64::from_bits)
        .expect("balance is numeric")
}

#[test]
fn apply_writes_proposed_traits_back_to_the_registry() {
    let account = Object::with_traits("john_doe", "customer", vec![Trait::new("balance", number(500.0))]);
    let account_id = id_text(account.id());

    let mut manager = SystemManager::new();
    manager.register_object(account.clone());

    let mut context = ActionContext::new();
    context.add_object("account", account);

    let action = DebitAction { trait_name: "balance".to_string(), amount: 99.5 };
    let result = action.run(context).expect("action succeeds");

    // Proposing must not mutate.
    assert_eq!(registered_balance(&manager, &account_id), 500.0);

    let report = manager.apply(&[result]).expect("apply succeeds");
    assert_eq!(report.traits_applied, 1);
    assert_eq!(report.objects_updated, 1);
    assert_eq!(report.results_skipped, 0);

    // Applying must mutate.
    assert_eq!(registered_balance(&manager, &account_id), 400.5);

    let stored = manager.get_object(&account_id).expect("registered");
    assert_eq!(
        stored.get_trait("balance").unwrap().version(),
        2,
        "writeback supersedes the previous trait version"
    );
}

#[test]
fn repeated_apply_passes_keep_moving_the_value() {
    let account = Object::with_traits("john_doe", "customer", vec![Trait::new("balance", number(500.0))]);
    let account_id = id_text(account.id());

    let mut manager = SystemManager::new();
    manager.register_object(account);

    for _ in 0..3 {
        let current = manager.get_object(&account_id).expect("registered");
        let mut context = ActionContext::new();
        context.add_object("account", current);

        let action = DebitAction { trait_name: "balance".to_string(), amount: 100.0 };
        let result = action.run(context).expect("action succeeds");
        manager.apply(&[result]).expect("apply succeeds");
    }

    assert_eq!(registered_balance(&manager, &account_id), 200.0);
}

#[test]
fn apply_refuses_updates_for_unregistered_objects() {
    let known = Object::with_traits("known", "customer", vec![Trait::new("balance", number(500.0))]);
    let known_id = id_text(known.id());
    let stranger = Object::new("stranger", "customer");

    let mut manager = SystemManager::new();
    manager.register_object(known.clone());

    let mut result = ActionResult::success();
    result.add_trait_update(known.id(), Trait::new("balance", number(1.0)));
    result.add_trait_update(stranger.id(), Trait::new("balance", number(2.0)));

    let error = manager.apply(&[result]).expect_err("unknown target is refused");
    assert!(matches!(error, OatsError::ObjectNotFound { .. }));

    // All-or-nothing: the valid half of the batch was not written either.
    assert_eq!(registered_balance(&manager, &known_id), 500.0);
}

#[test]
fn apply_skips_updates_carried_by_failed_results() {
    let account = Object::with_traits("john_doe", "customer", vec![Trait::new("balance", number(500.0))]);
    let account_id = id_text(account.id());

    let mut manager = SystemManager::new();
    manager.register_object(account.clone());

    let mut failed = ActionResult::failure("insufficient funds");
    failed.add_trait_update(account.id(), Trait::new("balance", number(-1.0)));

    let report = manager.apply(&[failed]).expect("apply succeeds");
    assert_eq!(report.traits_applied, 0);
    assert_eq!(report.results_skipped, 1);
    assert!(report.is_empty());
    assert_eq!(registered_balance(&manager, &account_id), 500.0);
}

#[test]
fn apply_updates_touches_every_named_object() {
    let customer = Object::with_traits("john_doe", "customer", vec![Trait::new("balance", number(500.0))]);
    let product = Object::with_traits("laptop", "product", vec![Trait::new("stock", number(15.0))]);
    let customer_id = id_text(customer.id());
    let product_id = id_text(product.id());

    let mut manager = SystemManager::new();
    manager.register_object(customer.clone());
    manager.register_object(product.clone());

    let report = manager
        .apply_updates(vec![
            TraitUpdate::new(customer.id(), Trait::new("balance", number(400.01))),
            TraitUpdate::new(product.id(), Trait::new("stock", number(65.0))),
        ])
        .expect("apply succeeds");

    assert_eq!(report.traits_applied, 2);
    assert_eq!(report.objects_updated, 2);
    assert_eq!(registered_balance(&manager, &customer_id), 400.01);
    assert_eq!(
        manager
            .get_object(&product_id)
            .unwrap()
            .get_trait("stock")
            .and_then(|t| t.data().as_number())
            .map(f64::from_bits),
        Some(65.0)
    );
}
