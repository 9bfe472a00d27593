use oats_framework::{id_text, Decimal, NamedMap, Object, Trait, TraitData};

fn number(x: f64) -> TraitData {
    TraitData::Number(x.to_bits())
}

#[test]
fn test_trait_creation() {
    let trait_data = TraitData::String("test".to_string());
    let trait_obj = Trait::new("test_trait", trait_data);

    assert_eq!(trait_obj.name(), "test_trait");
    assert_eq!(trait_obj.version, 1);
    assert!(trait_obj.data.is_string());
}

#[test]
fn test_trait_data_methods() {
    let string_data = TraitData::String("hello".to_string());
    let number_data = number(42.0);
    let bool_data = TraitData::Boolean(true);

    assert!(string_data.is_string());
    assert!(number_data.is_number());
    assert!(bool_data.is_boolean());

    assert_eq!(string_data.as_string(), Some(&"hello".to_string()));
    assert_eq!(number_data.as_number().map(f64::from_bits), Some(42.0));
    assert_eq!(bool_data.as_boolean(), Some(true));
}

#[test]
fn test_numeric_variants_are_distinct() {
    let integer = TraitData::Integer(42);
    let decimal = TraitData::Decimal(Decimal::new(4200, 2));
    let real = number(42.0);

    assert!(integer.is_integer() && !integer.is_number() && !integer.is_decimal());
    assert!(decimal.is_decimal() && !decimal.is_number() && !decimal.is_integer());
    assert!(real.is_number() && !real.is_integer() && !real.is_decimal());

    assert_eq!(integer.as_integer(), Some(42));
    assert_eq!(decimal.as_decimal(), Some(Decimal::new(4200, 2)));
    assert_eq!(real.as_number().map(f64::from_bits), Some(42.0));

    // No silent widening: that is how exactness gets lost.
    assert_eq!(integer.as_number(), None);
    assert_eq!(decimal.as_number(), None);
    assert_eq!(real.as_decimal(), None);
}

#[test]
fn test_decimal_money_does_not_drift() {
    let charge = Decimal::new(9999, 2);
    let mut exact = Decimal::new(50000, 2);
    let mut approximate = 500.0_f64;

    for _ in 0..3 {
        exact -= charge;
        approximate -= 99.99;
    }

    assert_eq!(exact, Decimal::new(20003, 2));
    assert_eq!(exact.to_string(), "200.03");
    assert_ne!(approximate, 200.03, "f64 drifts, which is why money is not f64");
}

#[test]
fn test_trait_data_ref() {
    let supplier = Object::new("acme_supply", "supplier");
    let reference = TraitData::Ref(supplier.id());

    assert!(reference.is_ref());
    assert!(!reference.is_string());
    assert_eq!(reference.as_ref_id(), Some(supplier.id()));
    assert_eq!(reference.as_string(), None);

    // A reference must stay a reference, not degrade to a string.
    let as_string = TraitData::String(id_text(supplier.id()));
    assert!(!as_string.is_ref());
    assert_eq!(as_string.as_ref_id(), None);
}

#[test]
fn test_trait_metadata() {
    let mut trait_obj = Trait::new("test", TraitData::String("value".to_string()));
    trait_obj.set_metadata("key", "value");

    assert_eq!(trait_obj.get_metadata("key"), Some(&"value".to_string()));
    assert_eq!(trait_obj.get_metadata("nonexistent"), None);
}

#[test]
fn duration_is_signed_and_carried_exactly() {
    let ahead = TraitData::Duration(chrono::TimeDelta::nanoseconds(1_500_000_000));
    assert!(ahead.is_duration());
    assert_eq!(ahead.as_duration().and_then(|d| d.num_nanoseconds()), Some(1_500_000_000));

    let behind = TraitData::Duration(chrono::TimeDelta::nanoseconds(-250));
    assert_eq!(behind.as_duration().and_then(|d| d.num_nanoseconds()), Some(-250));

    assert_eq!(ahead.as_integer(), None, "it is not an integer wearing a name");
}

#[test]
fn temporal_variants_are_carried_exactly() {
    let instant = chrono::DateTime::parse_from_rfc3339("2026-08-30T12:34:56Z")
        .expect("valid timestamp")
        .naive_utc();
    let day = chrono::NaiveDate::from_ymd_opt(2026, 8, 30).expect("valid date");

    let timestamp = Trait::new("signed_at", TraitData::Timestamp(instant));
    let date = Trait::new("effective_on", TraitData::Date(day));

    assert_eq!(timestamp.data().as_timestamp(), Some(instant));
    assert_eq!(date.data().as_date(), Some(day));
    assert_eq!(timestamp.data().as_date(), None);
    assert_eq!(date.data().as_timestamp(), None);
}

#[test]
fn each_kind_answers_only_to_itself() {
    let mut object = NamedMap::new();
    object.insert("a".to_string(), serde_json::Value::Bool(true));
    let all = vec![
        TraitData::String("s".to_string()),
        number(1.5),
        TraitData::Integer(-3),
        TraitData::Decimal(Decimal::new(1, 0)),
        TraitData::Timestamp(chrono::NaiveDate::from_ymd_opt(2020, 1, 1).unwrap().and_hms_opt(0, 0, 0).unwrap()),
        TraitData::Date(chrono::NaiveDate::from_ymd_opt(2020, 1, 1).unwrap()),
        TraitData::Duration(chrono::TimeDelta::seconds(5)),
        TraitData::Boolean(false),
        TraitData::Object(object),
        TraitData::Array(vec![serde_json::Value::Null]),
        TraitData::Binary(vec![1, 2, 3]),
        TraitData::Ref(7),
    ];
    for (i, d) in all.iter().enumerate() {
        let kinds = [
            d.is_string(),
            d.is_number(),
            d.is_integer(),
            d.is_decimal(),
            d.is_timestamp(),
            d.is_date(),
            d.is_duration(),
            d.is_boolean(),
            d.is_object(),
            d.is_array(),
            d.is_binary(),
            d.is_ref(),
        ];
        for (j, k) in kinds.iter().enumerate() {
            assert_eq!(*k, i == j, "kind {j} of value {i}");
        }
    }
    assert_eq!(all[8].as_object().map(|m| m.len()), Some(1));
    assert_eq!(all[9].as_array().map(|a| a.len()), Some(1));
    assert_eq!(all[10].as_binary(), Some(&vec![1u8, 2, 3]));
    assert_eq!(all[11].as_ref_id(), Some(7));
    assert_eq!(all[2].as_integer(), Some(-3));
    assert_eq!(all[0].as_boolean(), None);
}

#[test]
fn new_version_keeps_name_and_metadata_and_counts_up() {
    let mut original = Trait::new("price", TraitData::Integer(10));
    original.set_metadata("currency", "EUR");
    let next = original.new_version(TraitData::Integer(12));

    assert_eq!(next.name(), "price");
    assert_eq!(next.version(), 2);
    assert_eq!(next.data().as_integer(), Some(12));
    assert_eq!(next.get_metadata("currency"), Some(&"EUR".to_string()));
    assert_eq!(next.metadata_count(), 1);
    assert_ne!(next.id(), original.id());
}

#[test]
fn fresh_trait_ids_are_random_version_four_uuids() {
    let t = Trait::new("x", TraitData::Boolean(true));
    assert_eq!((t.id() >> 76) & 0xF, 4);
    assert_eq!((t.id() >> 62) & 0x3, 2);
}

#[test]
fn metadata_can_be_reserved_and_cleared() {
    let mut t = Trait::with_capacity("x", TraitData::Boolean(true), 4);
    t.set_metadata("a", "1");
    t.set_metadata("a", "2");
    assert_eq!(t.metadata_count(), 1);
    assert_eq!(t.get_metadata("a"), Some(&"2".to_string()));
    t.reserve_metadata(10);
    assert_eq!(t.metadata_count(), 1);
    t.clear_metadata();
    assert_eq!(t.metadata_count(), 0);
    assert_eq!(t.version(), 1);
}

#[test]
fn with_metadata_keeps_the_given_metadata() {
    let mut metadata = NamedMap::new();
    metadata.insert("source".to_string(), "import".to_string());
    let t = Trait::with_metadata("x", TraitData::Integer(1), metadata);
    assert_eq!(t.get_metadata("source"), Some(&"import".to_string()));
    assert_eq!(t.version(), 1);
}

#[test]
fn data_mut_changes_only_the_data() {
    let mut t = Trait::new("x", TraitData::Integer(1));
    *t.data_mut() = TraitData::Integer(2);
    assert_eq!(t.data().as_integer(), Some(2));
    assert_eq!(t.name(), "x");
    assert_eq!(t.version(), 1);
}
