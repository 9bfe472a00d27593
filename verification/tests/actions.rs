use oats_framework::{
    check_context, Action, ActionContext, ActionResult, OatsError, Object, Trait, TraitData, TraitUpdate,
};

fn number(x: f64) -> TraitData {
    TraitData::Number(x.to_bits())
}

#[test]
fn test_action_context() {
    let mut context = ActionContext::new();
    let test_object = Object::new("test", "type");

    context.add_object("test_obj", test_object);
    context.add_parameter("param", serde_json::Value::String("value".to_string()));
    context.add_metadata("key", "value");

    assert!(context.get_object("test_obj").is_some());
    assert!(context.get_parameter("param").is_some());
    assert_eq!(context.get_metadata("key"), Some(&"value".to_string()));
}

#[test]
fn test_action_result() {
    let mut result = ActionResult::success();
    result.add_message("Test message");
    result.add_data("key", serde_json::Value::String("value".to_string()));

    assert!(result.is_success());
    assert_eq!(result.messages.len(), 1);
    assert_eq!(result.data.len(), 1);
}

#[test]
fn test_trait_update_names_its_target() {
    let customer = Object::new("john_doe", "customer");
    let product = Object::new("laptop", "product");

    let mut result = ActionResult::success();
    result.add_trait_update(customer.id(), Trait::new("balance", number(400.0)));
    result.add_trait_update(product.id(), Trait::new("stock", number(65.0)));

    assert_eq!(result.trait_update_count(), 2);

    let for_customer = result.updates_for(customer.id());
    assert_eq!(for_customer.len(), 1);
    assert_eq!(for_customer[0].trait_name(), "balance");
    assert_eq!(for_customer[0].target(), customer.id());

    let for_product = result.updates_for(product.id());
    assert_eq!(for_product.len(), 1);
    assert_eq!(for_product[0].trait_name(), "stock");

    assert_eq!(result.updates_for(Object::new("x", "y").id()).len(), 0);
}

/// Declares the traits it requires, as an action would.
struct Requiring {
    required: Vec<String>,
}

impl Requiring {
    fn new(required: &[&str]) -> Self {
        Self { required: required.iter().map(|name| name.to_string()).collect() }
    }
}

impl Action for Requiring {
    fn name(&self) -> &str {
        "counting"
    }

    fn description(&self) -> &str {
        "Counts executions"
    }

    fn required_traits(&self) -> Vec<String> {
        self.required.clone()
    }
}

fn context_with(object: Object) -> ActionContext {
    let mut context = ActionContext::new();
    context.add_object("target", object);
    context
}

#[test]
fn validate_context_refuses_a_context_missing_a_required_trait() {
    let action = Requiring::new(&["balance"]);
    let error = action
        .validate_context(&context_with(Object::new("john_doe", "customer")))
        .expect_err("missing precondition is refused");
    assert!(matches!(error, OatsError::ValidationError { .. }));
    assert!(error.describe().contains("balance"));
    assert_eq!(
        error.describe(),
        "Validation error: Action 'counting' preconditions not met - 'target': Validation error: Object 'john_doe' is missing required traits: balance"
    );
}

#[test]
fn validate_context_accepts_when_preconditions_are_met() {
    let action = Requiring::new(&["balance"]);
    let mut customer = Object::new("john_doe", "customer");
    customer.add_trait(Trait::new("balance", TraitData::Integer(500)));
    assert!(action.validate_context(&context_with(customer)).is_ok());
}

#[test]
fn validate_context_refuses_an_empty_context_when_traits_are_required() {
    let action = Requiring::new(&["balance", "tier"]);
    match action.validate_context(&ActionContext::new()) {
        Err(OatsError::ValidationError { message }) => assert_eq!(
            message,
            "Action 'counting' requires traits [balance, tier] but its context holds no objects"
        ),
        other => panic!("unexpected {other:?}"),
    }
}

#[test]
fn validate_context_allows_an_empty_context_when_nothing_is_required() {
    let action = Requiring::new(&[]);
    assert!(action.validate_context(&ActionContext::new()).is_ok());
    assert!(action.optional_traits().is_empty());
    assert_eq!(action.description(), "Counts executions");
}

#[test]
fn validate_context_reports_every_object_that_fails_sorted() {
    let action = Requiring::new(&["balance", "tier"]);
    let mut context = ActionContext::new();
    context.add_object("seller", Object::new("acme", "customer"));
    context.add_object("buyer", Object::new("john_doe", "customer"));

    let message = action.validate_context(&context).expect_err("both objects fail").describe();
    assert!(message.contains("'buyer'"), "{message}");
    assert!(message.contains("'seller'"), "{message}");
    assert_eq!(
        message,
        "Validation error: Action 'counting' preconditions not met - \
'buyer': Validation error: Object 'john_doe' is missing required traits: balance, tier; \
'seller': Validation error: Object 'acme' is missing required traits: balance, tier"
    );
}

#[test]
fn check_context_passes_objects_that_carry_everything() {
    let mut context = ActionContext::new();
    let mut full = Object::new("a", "t");
    full.add_trait(Trait::new("balance", TraitData::Integer(1)));
    context.add_object("ok", full);
    context.add_object("bad", Object::new("b", "t"));
    let required = vec!["balance".to_string()];
    let message = check_context("x", &required, &context).unwrap_err().describe();
    assert_eq!(
        message,
        "Validation error: Action 'x' preconditions not met - 'bad': Validation error: Object 'b' is missing required traits: balance"
    );
}

#[test]
fn context_bookkeeping() {
    let mut context = ActionContext::with_capacity(2, 2);
    context.add_object("a", Object::new("a", "t"));
    context.add_object("b", Object::new("b", "t"));
    context.add_object("a", Object::new("a2", "t"));
    assert_eq!(context.object_count(), 2);
    assert_eq!(context.get_object("a").map(|o| o.name().to_string()), Some("a2".to_string()));

    let picked = context.get_objects(&["a", "missing", "a"]);
    assert_eq!(picked.len(), 1);
    assert_eq!(picked.get("a").map(|o| o.name()), Some("a2"));

    context.add_parameter("p", serde_json::Value::Null);
    assert_eq!(context.parameter_count(), 1);
    context.add_metadata("m", "1");
    context.add_metadata("m", "2");
    assert_eq!(context.metadata_count(), 1);
    assert_eq!(context.get_metadata("m"), Some(&"2".to_string()));

    context.reserve_objects(5);
    context.reserve_parameters(5);
    assert_eq!(context.object_count(), 2);
    context.clear_objects();
    context.clear_parameters();
    context.clear_metadata();
    assert_eq!(context.object_count() + context.parameter_count() + context.metadata_count(), 0);
    assert_eq!(ActionContext::default().object_count(), 0);
}

#[test]
fn result_bookkeeping() {
    let mut result = ActionResult::failure("insufficient funds");
    assert!(result.is_failure());
    assert_eq!(result.messages, vec!["insufficient funds".to_string()]);

    result.add_trait_updates(vec![
        TraitUpdate::new(1, Trait::new("a", TraitData::Integer(1))),
        TraitUpdate::new(2, Trait::new("b", TraitData::Integer(2))),
        TraitUpdate::new(1, Trait::new("c", TraitData::Integer(3))),
    ]);
    let names: Vec<&str> = result.updates_for(1).iter().map(|u| u.trait_name()).collect();
    assert_eq!(names, vec!["a", "c"]);

    result.add_messages(vec!["x".to_string(), "y".to_string()]);
    assert_eq!(result.message_count(), 3);
    result.add_data("k", serde_json::Value::Bool(true));
    result.add_data("k", serde_json::Value::Bool(false));
    assert_eq!(result.data_count(), 1);
    assert_eq!(result.data.get("k"), Some(&serde_json::Value::Bool(false)));

    result.reserve_capacity(10, 10);
    assert_eq!(result.trait_update_count(), 3);
    result.clear_trait_updates();
    result.clear_messages();
    result.clear_data();
    assert_eq!(result.trait_update_count() + result.message_count() + result.data_count(), 0);

    let sized = ActionResult::success_with_capacity(1, 2, 3);
    assert!(sized.is_success() && sized.trait_update_count() == 0);

    let update = TraitUpdate::new(9, Trait::new("z", TraitData::Integer(4)));
    assert_eq!(update.trait_value().data().as_integer(), Some(4));
    let t = update.into_trait();
    assert_eq!(t.name(), "z");
}

#[test]
fn validate_context_does_not_depend_on_insertion_order() {
    let action = Requiring::new(&["balance"]);
    let mut first = ActionContext::new();
    first.add_object("buyer", Object::new("john_doe", "customer"));
    first.add_object("seller", Object::new("acme", "customer"));
    let mut second = ActionContext::new();
    second.add_object("seller", Object::new("acme", "customer"));
    second.add_object("buyer", Object::new("john_doe", "customer"));
    let a = action.validate_context(&first).unwrap_err().describe();
    let b = action.validate_context(&second).unwrap_err().describe();
    assert_eq!(a, b);
}
