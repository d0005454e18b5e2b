use toml_document::{
    array2varray, date2weekday, datetime2dict, table2dict, value2variant, Date, Offset, Time,
    TomlArray, TomlDatetime, TomlDocument, TomlTable, TomlValue, Variant,
};

fn root_of(text: &str) -> TomlTable {
    let doc = TomlDocument::parse(text).expect("valid TOML");
    doc.get_root().expect("a parsed document has a root")
}

fn key(s: &str) -> String {
    s.to_string()
}

fn as_int(v: &Variant) -> i64 {
    match v {
        Variant::Int(i) => *i,
        other => panic!("not an integer: {:?}", other),
    }
}

fn entry<'a>(dict: &'a [(String, Variant)], k: &str) -> Option<&'a Variant> {
    dict.iter().find(|(name, _)| name == k).map(|(_, v)| v)
}

fn keys_of(dict: &[(String, Variant)]) -> Vec<&str> {
    dict.iter().map(|(k, _)| k.as_str()).collect()
}

#[test]
fn integer_scalar_round_trips() {
    let root = root_of("x = 42");
    assert!(matches!(root.get(&key("x")), Variant::Int(42)));
}

#[test]
fn string_bool_and_float_scalars_round_trip() {
    let root = root_of("s = \"hi\"\nb = true\nf = 1.5\nn = -7");
    match root.get(&key("s")) {
        Variant::String(s) => assert_eq!(s, "hi"),
        other => panic!("{:?}", other),
    }
    assert!(matches!(root.get(&key("b")), Variant::Bool(true)));
    match root.get(&key("f")) {
        Variant::Float(bits) => assert_eq!(f64::from_bits(bits), 1.5),
        other => panic!("{:?}", other),
    }
    assert_eq!(as_int(&root.get(&key("n"))), -7);
}

#[test]
fn nested_structure_materializes_in_order() {
    let root = root_of("[a]\nb = [1,2,3]");
    let dict = root.to_dict();
    assert_eq!(keys_of(&dict), vec!["a"]);
    let inner = match entry(&dict, "a") {
        Some(Variant::Dictionary(d)) => d,
        other => panic!("{:?}", other),
    };
    assert_eq!(keys_of(inner), vec!["b"]);
    match entry(inner, "b") {
        Some(Variant::Array(items)) => {
            let values: Vec<i64> = items.iter().map(as_int).collect();
            assert_eq!(values, vec![1, 2, 3]);
        },
        other => panic!("{:?}", other),
    }
}

#[test]
fn missing_key_is_nil() {
    let root = root_of("x = 1\n[t]\ny = 2");
    assert!(matches!(root.get(&key("nope")), Variant::Nil));
    assert!(matches!(root.get(&key("y")), Variant::Nil));
    match root.get(&key("t")) {
        Variant::Table(t) => {
            assert!(matches!(t.get(&key("x")), Variant::Nil));
            assert_eq!(as_int(&t.get(&key("y"))), 2);
        },
        other => panic!("{:?}", other),
    }
}

#[test]
fn out_of_bounds_index_is_nil() {
    let root = root_of("arr = [10, 20]");
    let arr = match root.get(&key("arr")) {
        Variant::TomlArray(a) => a,
        other => panic!("{:?}", other),
    };
    assert!(matches!(arr.get(-1), Variant::Nil));
    assert!(matches!(arr.get(2), Variant::Nil));
    assert!(matches!(arr.get(i64::MIN), Variant::Nil));
    assert!(matches!(arr.get(i64::MAX), Variant::Nil));
    assert_eq!(as_int(&arr.get(0)), 10);
    assert_eq!(as_int(&arr.get(1)), 20);
    let all: Vec<i64> = arr.to_array().iter().map(as_int).collect();
    assert_eq!(all, vec![10, 20]);
}

#[test]
fn date_decomposes_into_date_keys() {
    let root = root_of("d = 2000-01-01");
    let dict = match root.get(&key("d")) {
        Variant::Dictionary(d) => d,
        other => panic!("{:?}", other),
    };
    assert_eq!(keys_of(&dict), vec!["year", "month", "day", "weekday"]);
    assert_eq!(as_int(entry(&dict, "year").unwrap()), 2000);
    assert_eq!(as_int(entry(&dict, "month").unwrap()), 1);
    assert_eq!(as_int(entry(&dict, "day").unwrap()), 1);
    assert_eq!(as_int(entry(&dict, "weekday").unwrap()), 6);
}

#[test]
fn custom_offset_gives_bias_in_minutes() {
    let root = root_of("d = 2000-01-01T00:00:00+02:30");
    let dict = match root.get(&key("d")) {
        Variant::Dictionary(d) => d,
        other => panic!("{:?}", other),
    };
    assert_eq!(
        keys_of(&dict),
        vec!["year", "month", "day", "weekday", "hour", "minute", "second", "nanosecond", "bias"]
    );
    assert_eq!(as_int(entry(&dict, "bias").unwrap()), 150);
    assert_eq!(as_int(entry(&dict, "hour").unwrap()), 0);
}

#[test]
fn utc_offset_gives_zero_bias() {
    let root = root_of("d = 2000-01-01T10:20:30Z");
    let dict = match root.get(&key("d")) {
        Variant::Dictionary(d) => d,
        other => panic!("{:?}", other),
    };
    assert_eq!(as_int(entry(&dict, "bias").unwrap()), 0);
    assert_eq!(as_int(entry(&dict, "hour").unwrap()), 10);
    assert_eq!(as_int(entry(&dict, "minute").unwrap()), 20);
    assert_eq!(as_int(entry(&dict, "second").unwrap()), 30);
}

#[test]
fn local_time_has_only_time_keys() {
    let root = root_of("t = 07:32:00");
    let dict = match root.get(&key("t")) {
        Variant::Dictionary(d) => d,
        other => panic!("{:?}", other),
    };
    assert_eq!(keys_of(&dict), vec!["hour", "minute", "second", "nanosecond"]);
    assert_eq!(as_int(entry(&dict, "minute").unwrap()), 32);
}

#[test]
fn unterminated_string_fails_to_parse() {
    let r = TomlDocument::parse("x = \"abc");
    match r {
        Err(message) => assert!(!message.is_empty()),
        Ok(_) => panic!("malformed input parsed"),
    }
}

#[test]
fn to_dict_twice_gives_independent_equal_dictionaries() {
    let root = root_of("a = 1\nb = \"two\"");
    let mut first = root.to_dict();
    let second = root.to_dict();
    assert_eq!(format!("{:?}", first), format!("{:?}", second));
    first.push(("c".to_string(), Variant::Int(3)));
    assert_eq!(keys_of(&second), vec!["a", "b"]);
    assert_eq!(keys_of(&root.to_dict()), vec!["a", "b"]);
}

#[test]
fn weekday_of_known_dates() {
    assert_eq!(date2weekday(2000, 1, 1), 6);
    assert_eq!(date2weekday(2024, 3, 15), 5);
    assert_eq!(date2weekday(2023, 12, 31), 0);
    assert_eq!(date2weekday(1970, 1, 1), 4);
    assert_eq!(date2weekday(2000, 2, 29), 2);
}

#[test]
fn weekday_does_not_check_ranges() {
    // Day 32 of January is counted on as 1 February.
    assert_eq!(date2weekday(2024, 1, 32), date2weekday(2024, 2, 1));
    let _ = date2weekday(i32::MAX, i32::MAX, i32::MAX);
    let _ = date2weekday(i32::MIN, i32::MIN, i32::MIN);
}

#[test]
fn datetime_dict_with_time_and_negative_offset() {
    let d = TomlDatetime {
        date: None,
        time: Some(Time { hour: 23, minute: 59, second: 58, nanosecond: 500 }),
        offset: Some(Offset::Custom { minutes: -90 }),
    };
    let dict = datetime2dict(&d);
    assert_eq!(keys_of(&dict), vec!["hour", "minute", "second", "nanosecond", "bias"]);
    assert_eq!(as_int(entry(&dict, "nanosecond").unwrap()), 500);
    assert_eq!(as_int(entry(&dict, "bias").unwrap()), -90);
}

#[test]
fn empty_datetime_gives_empty_dict() {
    let d = TomlDatetime { date: None, time: None, offset: None };
    assert!(datetime2dict(&d).is_empty());
    let only_date = TomlDatetime {
        date: Some(Date { year: 1999, month: 12, day: 31 }),
        time: None,
        offset: None,
    };
    let dict = datetime2dict(&only_date);
    assert_eq!(as_int(entry(&dict, "weekday").unwrap()), 5);
}

#[test]
fn eager_conversion_recurses() {
    let table = vec![
        (key("list"), TomlValue::Array(vec![
            TomlValue::Integer(1),
            TomlValue::Table(vec![(key("k"), TomlValue::Boolean(false))]),
        ])),
        (key("name"), TomlValue::String(key("v"))),
    ];
    let dict = table2dict(&table);
    assert_eq!(keys_of(&dict), vec!["list", "name"]);
    match entry(&dict, "list") {
        Some(Variant::Array(items)) => {
            assert_eq!(items.len(), 2);
            assert_eq!(as_int(&items[0]), 1);
            match &items[1] {
                Variant::Dictionary(d) => {
                    assert!(matches!(entry(d, "k"), Some(Variant::Bool(false))))
                },
                other => panic!("{:?}", other),
            }
        },
        other => panic!("{:?}", other),
    }
    let arr = array2varray(&vec![TomlValue::Array(vec![]), TomlValue::Float(0)]);
    assert!(matches!(&arr[0], Variant::Array(v) if v.is_empty()));
    assert!(matches!(&arr[1], Variant::Float(0)));
}

#[test]
fn lazy_conversion_gives_handles() {
    let v = TomlValue::Table(vec![(key("x"), TomlValue::Integer(5))]);
    match value2variant(&v) {
        Variant::Table(t) => assert_eq!(as_int(&t.get(&key("x"))), 5),
        other => panic!("{:?}", other),
    }
    let a = TomlValue::Array(vec![TomlValue::Integer(8)]);
    match value2variant(&a) {
        Variant::TomlArray(h) => assert_eq!(as_int(&h.get(0)), 8),
        other => panic!("{:?}", other),
    }
}

#[test]
fn unset_handles_are_empty() {
    let t = TomlTable::default();
    assert!(matches!(t.get(&key("x")), Variant::Nil));
    assert!(t.to_dict().is_empty());
    let a = TomlArray::default();
    assert!(matches!(a.get(0), Variant::Nil));
    assert!(a.to_array().is_empty());
    assert!(TomlDocument::default().get_root().is_none());
}

#[test]
fn parse_failure_keeps_diagnostic() {
    let r = TomlDocument::from_parsed(Err("bad input".to_string()));
    assert!(matches!(r, Err(ref m) if m == "bad input"));
    let ok = TomlDocument::from_parsed(Ok(vec![(key("z"), TomlValue::Integer(1))])).unwrap();
    assert_eq!(as_int(&ok.get_root().unwrap().get(&key("z"))), 1);
}

#[test]
fn parsed_tables_list_keys_in_order() {
    let root = root_of("b = 1\na = 2");
    assert_eq!(keys_of(&root.to_dict()), vec!["a", "b"]);
    assert!(TomlDocument::parse("").unwrap().get_root().unwrap().to_dict().is_empty());
}
