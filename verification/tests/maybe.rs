use server_low_level::maybe::Maybe;

#[test]
fn absent_is_the_default() {
    let field: Maybe<i32> = Maybe::default();
    assert_eq!(field, Maybe::Absent);
    assert!(field.is_absent());
    assert!(!Maybe::<i32>::Null.is_absent());
    assert!(!Maybe::Value(3).is_absent());
}

#[test]
fn as_ref_keeps_the_state() {
    let text = Maybe::Value("a".to_string());
    assert_eq!(text.as_ref(), Maybe::Value(&"a".to_string()));
    assert_eq!(Maybe::<String>::Null.as_ref(), Maybe::Null);
    assert_eq!(Maybe::<String>::Absent.as_ref(), Maybe::Absent);
}

#[test]
fn an_option_is_never_absent() {
    assert_eq!(Maybe::from(Some(4)), Maybe::Value(4));
    assert_eq!(Maybe::<i32>::from(None), Maybe::Null);
}

#[test]
fn field_round_trip() {
    for field in [Maybe::Absent, Maybe::Null, Maybe::Value(7)] {
        assert_eq!(Maybe::from_field(field.into_field()), field);
    }
    assert_eq!(Maybe::<i32>::Absent.into_field(), None);
    assert_eq!(Maybe::<i32>::Null.into_field(), Some(None));
    assert_eq!(Maybe::Value(7).into_field(), Some(Some(7)));
    for slot in [None, Some(None), Some(Some(7))] {
        assert_eq!(Maybe::from_field(slot).into_field(), slot);
    }
}

#[test]
fn a_written_field_is_null_or_a_value() {
    assert_eq!(Maybe::<i32>::Null.into_nullable(), None);
    assert_eq!(Maybe::Value(2).into_nullable(), Some(2));
}

#[test]
fn the_later_field_wins_unless_absent() {
    assert_eq!(Maybe::Value(2).or(Maybe::Value(1)), Maybe::Value(2));
    assert_eq!(Maybe::Null.or(Maybe::Value(1)), Maybe::Null);
    assert_eq!(Maybe::Absent.or(Maybe::Value(1)), Maybe::Value(1));
    assert_eq!(Maybe::<i32>::Absent.or(Maybe::Null), Maybe::Null);
    assert_eq!(Maybe::<i32>::Absent.or(Maybe::Absent), Maybe::Absent);
    assert_eq!(Maybe::Value(5).or(Maybe::Absent), Maybe::Value(5));
}

#[test]
fn resolve_sets_clears_or_keeps() {
    assert_eq!(Maybe::Value(2).resolve(1, 0), 2);
    assert_eq!(Maybe::Null.resolve(1, 0), 0);
    assert_eq!(Maybe::Absent.resolve(1, 0), 1);
}

fn encode(fields: &[(&str, Maybe<i64>)]) -> String {
    let mut object = serde_json::Map::new();
    for (key, field) in fields {
        if let Some(slot) = field.into_field() {
            let value = match slot {
                Some(number) => serde_json::Value::from(number),
                None => serde_json::Value::Null,
            };
            object.insert(key.to_string(), value);
        }
    }
    serde_json::to_string(&serde_json::Value::Object(object)).unwrap()
}

fn decode(text: &str, key: &str) -> Maybe<i64> {
    let value: serde_json::Value = serde_json::from_str(text).unwrap();
    Maybe::from_field(value.get(key).map(|slot| slot.as_i64()))
}

#[test]
fn an_absent_field_has_no_key() {
    let fields = [("kept", Maybe::Absent), ("cleared", Maybe::Null), ("set", Maybe::Value(5))];
    let text = encode(&fields);
    assert_eq!(text, r#"{"cleared":null,"set":5}"#);
    for (key, field) in fields {
        assert_eq!(decode(&text, key), field);
    }
    assert_eq!(encode(&[("kept", Maybe::Absent)]), "{}");
}
