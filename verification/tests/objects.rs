use oats_framework::{id_text, parse_id, Object, OatsError, Trait, TraitData};

#[test]
fn add_then_get_returns_the_trait() {
    let mut o = Object::new("john_doe", "customer");
    assert_eq!(o.name(), "john_doe");
    assert_eq!(o.object_type(), "customer");
    assert_eq!(o.trait_count(), 0);
    o.add_trait(Trait::new("balance", TraitData::Integer(500)));
    assert!(o.has_trait("balance"));
    assert_eq!(o.get_trait("balance").and_then(|t| t.data().as_integer()), Some(500));
    assert!(o.get_trait("tier").is_none());
    o.add_trait(Trait::new("balance", TraitData::Integer(7)));
    assert_eq!(o.trait_count(), 1);
    assert_eq!(o.get_trait("balance").and_then(|t| t.data().as_integer()), Some(7));
}

#[test]
fn with_traits_lets_a_later_trait_replace_an_earlier_one() {
    let o = Object::with_traits(
        "laptop",
        "product",
        vec![
            Trait::new("stock", TraitData::Integer(15)),
            Trait::new("price", TraitData::Integer(999)),
            Trait::new("stock", TraitData::Integer(14)),
        ],
    );
    assert_eq!(o.trait_count(), 2);
    assert_eq!(o.get_trait("stock").and_then(|t| t.data().as_integer()), Some(14));
}

#[test]
fn apply_trait_supersedes_the_version() {
    let mut o = Object::with_traits("a", "t", vec![Trait::new("balance", TraitData::Integer(1))]);
    o.apply_trait(Trait::new("balance", TraitData::Integer(2)));
    let t = o.get_trait("balance").unwrap();
    assert_eq!(t.version(), 2);
    assert_eq!(t.data().as_integer(), Some(2));
    o.apply_trait(Trait::new("balance", TraitData::Integer(3)));
    assert_eq!(o.get_trait("balance").unwrap().version(), 3);

    // A trait written under a new name keeps its own version.
    o.apply_trait(Trait::new("tier", TraitData::String("gold".to_string())));
    assert_eq!(o.get_trait("tier").unwrap().version(), 1);
}

#[test]
fn apply_trait_stays_at_the_largest_version() {
    let mut top = Trait::new("balance", TraitData::Integer(1));
    top.version = u32::MAX;
    let mut o = Object::with_traits("a", "t", vec![top]);
    o.apply_trait(Trait::new("balance", TraitData::Integer(2)));
    assert_eq!(o.get_trait("balance").unwrap().version(), u32::MAX);
}

#[test]
fn validate_required_traits_names_every_missing_trait() {
    let o = Object::with_traits("john_doe", "customer", vec![Trait::new("balance", TraitData::Integer(1))]);
    assert!(o.validate_required_traits(&["balance"]).is_ok());
    assert!(o.validate_required_traits(&[]).is_ok());
    match o.validate_required_traits(&["tier", "balance", "email"]) {
        Err(OatsError::ValidationError { message }) => {
            assert_eq!(message, "Object 'john_doe' is missing required traits: tier, email");
        }
        other => panic!("unexpected {other:?}"),
    }
}

#[test]
fn clone_keeps_everything() {
    let o = Object::with_traits("a", "t", vec![Trait::new("x", TraitData::Integer(1))]);
    let c = o.clone();
    assert_eq!(c.id(), o.id());
    assert_eq!(c.name(), "a");
    assert_eq!(c.get_trait("x").and_then(|t| t.data().as_integer()), Some(1));
}

#[test]
fn id_text_is_the_hyphenated_lowercase_form() {
    let id = 0xa1a2a3a4b1b2c1c2d1d2d3d4d5d6d7d8u128;
    assert_eq!(id_text(id), "a1a2a3a4-b1b2-c1c2-d1d2-d3d4d5d6d7d8");
    assert_eq!(parse_id("a1a2a3a4-b1b2-c1c2-d1d2-d3d4d5d6d7d8"), Some(id));
    assert_eq!(parse_id("A1A2A3A4B1B2C1C2D1D2D3D4D5D6D7D8"), Some(id));
    assert_eq!(parse_id("not a uuid"), None);
    assert_eq!(id_text(0), "00000000-0000-0000-0000-000000000000");
}

#[test]
fn fresh_object_ids_differ() {
    let a = Object::new("a", "t");
    let b = Object::new("a", "t");
    assert_ne!(a.id(), b.id());
    assert_eq!((a.id() >> 76) & 0xF, 4);
}

#[test]
fn errors_describe_themselves() {
    assert_eq!(OatsError::validation_error("bad").describe(), "Validation error: bad");
    assert_eq!(OatsError::object_not_found("x").describe(), "Object not found: x");
    assert_eq!(OatsError::trait_not_found("balance").describe(), "Trait not found: balance");
    assert_eq!(OatsError::action_failed("oops").describe(), "Action failed: oops");
    assert_eq!(OatsError::system_error("down").describe(), "System error: down");
}
