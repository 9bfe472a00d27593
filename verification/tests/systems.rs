use oats_framework::{
    dispatch_check, id_text, lifecycle_failure, lifecycle_step, processing_order, record_outcome, ActionResult, ApplyReport, OatsError, Object, Priority,
    SystemManager, Trait, TraitData,
};

#[test]
fn test_priority_ordering() {
    assert!(Priority::Critical > Priority::High);
    assert!(Priority::High > Priority::Normal);
    assert!(Priority::Normal > Priority::Low);
}

#[test]
fn priority_defaults_to_normal_and_has_levels() {
    assert_eq!(Priority::default(), Priority::Normal);
    assert_eq!(Priority::Low.level(), 1);
    assert_eq!(Priority::Critical.level(), 4);
}

#[test]
fn processing_order_runs_highest_priority_first_and_keeps_ties_in_order() {
    let priorities = vec![
        Priority::Normal,
        Priority::Critical,
        Priority::Low,
        Priority::Normal,
        Priority::High,
        Priority::Critical,
    ];
    assert_eq!(processing_order(&priorities), vec![1, 5, 4, 0, 3, 2]);
    assert_eq!(processing_order(&Vec::new()), Vec::<usize>::new());
}

#[test]
fn record_outcome_keeps_results_and_turns_errors_into_failures() {
    let mut all = Vec::new();
    record_outcome(&mut all, Ok(vec![ActionResult::success(), ActionResult::success()]));
    assert_eq!(all.len(), 2);
    record_outcome(&mut all, Err(OatsError::validation_error("bad input")));
    assert_eq!(all.len(), 3);
    assert!(all[2].is_failure());
    assert_eq!(all[2].messages, vec!["System error: Validation error: bad input".to_string()]);
}

#[test]
fn apply_report_is_empty_when_nothing_was_written() {
    assert!(ApplyReport::default().is_empty());
    let report = ApplyReport { traits_applied: 1, objects_updated: 1, results_skipped: 0 };
    assert!(!report.is_empty());
}

#[test]
fn registry_bookkeeping() {
    let mut manager = SystemManager::with_capacity(4);
    let a = Object::new("a", "t");
    let b = Object::new("b", "t");
    let a_id = a.id();
    manager.register_object(a);
    manager.register_object(b);
    assert_eq!(manager.object_count(), 2);

    let mut names: Vec<String> = manager.get_all_objects().iter().map(|o| o.name().to_string()).collect();
    names.sort();
    assert_eq!(names, vec!["a".to_string(), "b".to_string()]);

    assert_eq!(manager.get_registered(a_id).map(|o| o.name().to_string()), Some("a".to_string()));
    assert!(manager.get_object(&id_text(a_id)).is_some());
    // Only the form objects are registered under finds them.
    assert!(manager.get_object(&id_text(a_id).to_uppercase()).is_none());
    assert!(manager.get_object("not an id").is_none());

    manager.reserve_objects(10);
    assert_eq!(manager.object_count(), 2);
    manager.clear_objects();
    assert_eq!(manager.object_count(), 0);
    assert_eq!(SystemManager::default().object_count(), 0);
}

#[test]
fn apply_updates_with_nothing_to_write_reports_nothing() {
    let mut manager = SystemManager::new();
    let report = manager.apply_updates(Vec::new()).expect("nothing to refuse");
    assert!(report.is_empty());
    assert_eq!(report, ApplyReport::default());
}

#[test]
fn apply_refusal_names_the_first_unknown_object() {
    let mut manager = SystemManager::new();
    let known = Object::new("known", "t");
    let known_id = known.id();
    manager.register_object(known);
    let first = Object::new("s1", "t").id();
    let second = Object::new("s2", "t").id();
    let mut result = ActionResult::success();
    result.add_trait_update(known_id, Trait::new("x", TraitData::Integer(1)));
    result.add_trait_update(first, Trait::new("x", TraitData::Integer(1)));
    result.add_trait_update(second, Trait::new("x", TraitData::Integer(1)));
    match manager.apply(&[result]) {
        Err(OatsError::ObjectNotFound { id }) => assert_eq!(id, id_text(first)),
        other => panic!("unexpected {other:?}"),
    }
    assert!(manager.get_registered(known_id).unwrap().get_trait("x").is_none());
}

#[test]
fn apply_counts_each_object_once() {
    let mut manager = SystemManager::new();
    let o = Object::new("o", "t");
    let id = o.id();
    manager.register_object(o);
    let mut result = ActionResult::success();
    result.add_trait_update(id, Trait::new("x", TraitData::Integer(1)));
    result.add_trait_update(id, Trait::new("x", TraitData::Integer(2)));
    result.add_trait_update(id, Trait::new("y", TraitData::Integer(3)));
    let failed = ActionResult::failure("no");
    let report = manager.apply(&[failed, result]).expect("apply succeeds");
    assert_eq!(report, ApplyReport { traits_applied: 3, objects_updated: 1, results_skipped: 1 });
    let stored = manager.get_registered(id).unwrap();
    assert_eq!(stored.get_trait("x").and_then(|t| t.data().as_integer()), Some(2));
    assert_eq!(stored.get_trait("x").unwrap().version(), 2);
    assert_eq!(stored.get_trait("y").unwrap().version(), 1);
}

#[test]
fn lifecycle_failures_name_the_stage_and_the_system() {
    let e = lifecycle_failure("initialize", "pricing", &OatsError::action_failed("no prices"));
    assert_eq!(e.describe(), "System error: Failed to initialize system 'pricing': Action failed: no prices");
}

#[test]
fn dispatch_needs_a_ready_system() {
    match dispatch_check("pricing", false, false) {
        Err(OatsError::SystemError { message }) => assert_eq!(message, "System 'pricing' not found"),
        other => panic!("unexpected {other:?}"),
    }
    match dispatch_check("pricing", true, false) {
        Err(OatsError::SystemError { message }) => assert_eq!(message, "System is not ready"),
        other => panic!("unexpected {other:?}"),
    }
    assert!(dispatch_check("pricing", true, true).is_ok());
}

#[test]
fn registering_counts_new_ids_and_replaces_known_ones() {
    let mut manager = SystemManager::new();
    let o = Object::new("first", "t");
    let id = o.id();
    manager.register_object(o.clone());
    assert_eq!(manager.object_count(), 1);
    let mut again = o.clone();
    again.add_trait(Trait::new("x", TraitData::Integer(1)));
    manager.register_object(again);
    assert_eq!(manager.object_count(), 1);
    assert!(manager.get_registered(id).unwrap().has_trait("x"));
    manager.register_object(Object::new("second", "t"));
    assert_eq!(manager.object_count(), 2);
}

#[test]
fn lifecycle_steps_go_on_after_success_and_stop_at_failure() {
    assert!(lifecycle_step("shutdown", "pricing", Ok(())).is_ok());
    match lifecycle_step("shutdown", "pricing", Err(OatsError::system_error("stuck"))) {
        Err(OatsError::SystemError { message }) => {
            assert_eq!(message, "Failed to shutdown system 'pricing': System error: stuck")
        }
        other => panic!("unexpected {other:?}"),
    }
}

#[test]
fn clones_keep_contexts_and_results() {
    let mut context = oats_framework::ActionContext::new();
    context.add_object("a", Object::new("a", "t"));
    context.add_metadata("k", "v");
    let copy = context.clone();
    assert_eq!(copy.get_object("a").map(|o| o.name().to_string()), Some("a".to_string()));
    assert_eq!(copy.get_metadata("k"), Some(&"v".to_string()));

    let mut result = ActionResult::failure("no");
    result.add_trait_update(3, Trait::new("x", TraitData::Integer(1)));
    let copy = result.clone();
    assert!(copy.is_failure());
    assert_eq!(copy.messages, vec!["no".to_string()]);
    assert_eq!(copy.updates_for(3).len(), 1);
    assert!(!format!("{copy:?}").is_empty());
}
