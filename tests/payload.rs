use mqtt2influxdb::coerce::{scalar_of, Scalar};
use mqtt2influxdb::payload::{Key, MapKey, Payload, Tree, Values};

fn named(s: &str) -> MapKey {
    MapKey::Text(s.to_string())
}

fn num(s: &str) -> Tree {
    Tree::Number(s.to_string())
}

fn single(tree: &Tree) -> String {
    match Values::from_tree(tree).unwrap() {
        Values::Single(value) => value,
        Values::Many(_) => panic!("not single"),
    }
}

fn many(tree: &Tree) -> Vec<(Vec<Key>, String)> {
    match Values::from_tree(tree).unwrap() {
        Values::Single(_) => panic!("not many"),
        Values::Many(many) => many,
    }
}

fn close(text: &str, expected: f64) {
    let value: f64 = text.parse().unwrap();
    assert!((value - expected).abs() <= 0.001, "{text} != {expected}");
}

#[test]
fn payload_parses_string() {
    match Payload::new(b"whatever".to_vec()).unwrap() {
        Payload::String(string) => assert_eq!(string, "whatever"),
        Payload::Json(_) | Payload::MessagePack(_) => unreachable!(),
    }
}

#[test]
fn string_values() {
    let token = match scalar_of(" 12.3") {
        Some(Scalar::Token(token)) => token,
        other => panic!("{other:?}"),
    };
    close(&token, 12.3);
}

#[test]
fn plain_number() {
    let value = single(&num("12.3"));
    close(&value, 12.3);
}

#[test]
fn serde_json_macro_example() {
    let tree = Tree::Object(vec![
        (named("code"), num("200")),
        (named("success"), Tree::Bool(true)),
        (
            named("payload"),
            Tree::Object(vec![
                (named("features"), Tree::Array(vec![Tree::Null, Tree::Null])),
                (named("homepage"), Tree::Null),
            ]),
        ),
    ]);
    let entries = many(&tree);
    assert_eq!(entries.len(), 2);
    let (keys, value) = &entries[0];
    assert_eq!(keys, &[Key::String("code".to_string())]);
    close(value, 200.0);
    let (keys, value) = &entries[1];
    assert_eq!(keys, &[Key::String("success".to_string())]);
    close(value, 1.0);
}

#[test]
fn parse_works() {
    let value = rmpv::Value::F64(12.3);
    let mut buffer = Vec::new();
    rmpv::encode::write_value(&mut buffer, &value).unwrap();
    match Payload::new(buffer).unwrap() {
        Payload::MessagePack(rmpv::Value::F64(value)) => {
            assert!((value - 12.3).abs() <= 0.001);
        }
        _ => panic!("unexpected value"),
    }
}

#[test]
fn plain_f64() {
    let value = single(&num("12.3"));
    close(&value, 12.3);
}

#[test]
fn similar_to_json_example() {
    let tree = Tree::Object(vec![
        (named("code"), num("200")),
        (named("success"), Tree::Bool(true)),
        (
            named("payload"),
            Tree::Object(vec![
                (named("features"), Tree::Array(vec![Tree::Null, Tree::Null])),
                (named("homepage"), Tree::Null),
            ]),
        ),
    ]);
    let entries = many(&tree);
    assert_eq!(entries.len(), 2);
    assert_eq!(entries[0].0, [Key::String("code".to_string())]);
    close(&entries[0].1, 200.0);
    assert_eq!(entries[1].0, [Key::String("success".to_string())]);
    close(&entries[1].1, 1.0);
}

#[test]
fn json_text_is_classified_as_json() {
    assert!(matches!(Payload::new(br#"{"a": [1, 2]}"#.to_vec()), Some(Payload::Json(_))));
    assert!(matches!(Payload::new(b"\"quoted\"".to_vec()), Some(Payload::Json(_))));
    assert!(matches!(Payload::new(b"12.3 \xc2\xb0C".to_vec()), Some(Payload::String(_))));
}

#[test]
fn binary_payload_is_messagepack() {
    let bytes = vec![0x92, 0xc3, 0xc2];
    assert!(std::str::from_utf8(&bytes).is_err());
    assert!(matches!(Payload::new(bytes), Some(Payload::MessagePack(_))));
}

#[test]
fn unreadable_payload_is_nothing() {
    let bytes = vec![0xcb, 0xff];
    assert!(std::str::from_utf8(&bytes).is_err());
    assert!(Payload::new(bytes).is_none());
}

#[test]
fn empty_tree_has_no_values() {
    assert!(Values::from_tree(&Tree::Null).is_none());
    assert!(Values::from_tree(&Tree::Object(Vec::new())).is_none());
    assert!(Values::from_tree(&Tree::Array(vec![Tree::Null])).is_none());
}

#[test]
fn root_flags_are_single() {
    assert_eq!(single(&Tree::Bool(true)), "1");
    assert_eq!(single(&Tree::Bool(false)), "0");
}

#[test]
fn one_keyed_value_stays_many() {
    let entries = many(&Tree::Array(vec![num("3")]));
    assert_eq!(entries, vec![(vec![Key::Int(0)], "3".to_string())]);
}

#[test]
fn nested_paths_are_in_walk_order() {
    let tree = Tree::Array(vec![
        Tree::Object(vec![(named("x"), num("1")), (named("y"), num("2"))]),
        Tree::Array(vec![Tree::Null, Tree::Bool(true)]),
    ]);
    let entries = many(&tree);
    assert_eq!(
        entries,
        vec![
            (vec![Key::Int(0), Key::String("x".to_string())], "1".to_string()),
            (vec![Key::Int(0), Key::String("y".to_string())], "2".to_string()),
            (vec![Key::Int(1), Key::Int(1)], "1".to_string()),
        ]
    );
}

#[test]
fn scalar_map_keys() {
    let tree = Tree::Object(vec![
        (MapKey::Bool(true), num("1")),
        (MapKey::Bool(false), num("2")),
        (MapKey::Nil, num("3")),
        (MapKey::Unsigned(7), num("4")),
    ]);
    let entries = many(&tree);
    let keys: Vec<Vec<Key>> = entries.into_iter().map(|(keys, _)| keys).collect();
    assert_eq!(
        keys,
        vec![vec![Key::Int(1)], vec![Key::Int(0)], vec![Key::Int(0)], vec![Key::Int(7)]]
    );
}

#[test]
fn map_walk_stops_at_unnamed_key() {
    let tree = Tree::Object(vec![
        (named("a"), num("1")),
        (MapKey::Other, num("2")),
        (named("b"), num("3")),
    ]);
    let entries = many_or_single(&tree);
    assert_eq!(entries, vec![(vec![Key::String("a".to_string())], "1".to_string())]);
}

fn many_or_single(tree: &Tree) -> Vec<(Vec<Key>, String)> {
    match Values::from_tree(tree).unwrap() {
        Values::Single(v) => vec![(Vec::new(), v)],
        Values::Many(many) => many,
    }
}

#[test]
fn word_leaves_are_dropped() {
    for word in ["serde", "json", "rmpv"] {
        let token = match scalar_of(word) {
            Some(Scalar::Token(token)) => token,
            other => panic!("{word}: {other:?}"),
        };
        assert_eq!(token, word);
        assert!(token.parse::<f64>().is_err());
    }
}
