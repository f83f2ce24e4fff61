use vector::concurrency::{concurrency_is_none, Concurrency, ConcurrencyValue};

#[test]
fn is_serialization_reversible() {
    let variants = [Concurrency::Unset, Concurrency::Adaptive, Concurrency::Fixed(8)];

    for v in variants {
        let value = v.serialize();
        let deserialized = Concurrency::deserialize(&value)
            .expect("Failed to deserialize a previously serialized Concurrency value");
        assert_eq!(v, deserialized);
    }
}

#[test]
fn serialized_forms() {
    assert_eq!(
        Concurrency::Unset.serialize(),
        ConcurrencyValue::Text("none".to_string()),
    );
    assert_eq!(
        Concurrency::Adaptive.serialize(),
        ConcurrencyValue::Text("adaptive".to_string()),
    );
    assert_eq!(Concurrency::Fixed(8).serialize(), ConcurrencyValue::Number(8));
}

#[test]
fn deserialize_rejects_bad_values() {
    assert!(Concurrency::deserialize(&ConcurrencyValue::Text("bogus".to_string())).is_err());
    assert!(Concurrency::deserialize(&ConcurrencyValue::Number(0)).is_err());
}

#[test]
fn parse_concurrency_falls_back() {
    let default = Concurrency::Fixed(9);
    assert_eq!(Concurrency::Unset.parse_concurrency(default), Some(9));
    assert_eq!(Concurrency::Adaptive.parse_concurrency(default), None);
    assert_eq!(Concurrency::Fixed(2).parse_concurrency(default), Some(2));
    assert_eq!(Concurrency::Unset.parse_concurrency(Concurrency::Adaptive), None);
}

#[test]
fn concurrency_is_none_checks_variant() {
    assert!(concurrency_is_none(&Concurrency::Unset));
    assert!(!concurrency_is_none(&Concurrency::Adaptive));
    assert!(!concurrency_is_none(&Concurrency::Fixed(1)));
    assert!(concurrency_is_none(&Concurrency::default()));
}
