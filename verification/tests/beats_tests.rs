use flex_metro_core::beats::{
    beat_config_from_documents, default_beats_from_text, load_beat_config_from_str,
    load_first_mapping, BeatTable, ConfigEntry, MetricKey,
};
use flex_metro_core::meter::{has_signature, is_allowed_denominator, signature_beats};
use flex_metro_core::strings::{parse_i32, split_once, trim};

const BEATS_YAML: &str = "\
3/4: [3]
3/8: [3]
2/4: [2]
4/4: [2, 2]
5/8: [3, 2]
5/4: [3, 2]
6/8: [3, 3]
7/4: [3, 2, 2]
8/8: [3, 3, 2]
3/2: [3]
";

#[test]
fn test_default_beats() {
    let default_beats = default_beats_from_text(BEATS_YAML);
    let expected_beats = vec![
        (MetricKey::Standard((3, 4)), vec![3]),
        (MetricKey::Standard((3, 8)), vec![3]),
        (MetricKey::Standard((2, 4)), vec![2]),
        (MetricKey::Standard((4, 4)), vec![2, 2]),
        (MetricKey::Standard((5, 8)), vec![3, 2]),
        (MetricKey::Standard((5, 4)), vec![3, 2]),
        (MetricKey::Standard((6, 8)), vec![3, 3]),
        (MetricKey::Standard((7, 4)), vec![3, 2, 2]),
        (MetricKey::Standard((8, 8)), vec![3, 3, 2]),
        (MetricKey::Standard((3, 2)), vec![3]),
    ];
    for (metric_key, expected_beats) in expected_beats.iter() {
        if let Some(beats_value) = default_beats.get(metric_key) {
            assert_eq!(beats_value, expected_beats);
        } else {
            panic!("MetricKey {:?} not found in or incorrect beat {:?}", metric_key, expected_beats);
        }
    }
}

#[test]
fn default_beats_skip_bad_entries() {
    let text = "4/4: [2, 2]\nbad: [1]\n6/x: [3, 3]\n3/4: [1, oops]\n2/2: [2]\n";
    let table = default_beats_from_text(text);
    assert_eq!(table.get(&MetricKey::Standard((4, 4))), Some(&vec![2, 2]));
    assert_eq!(table.get(&MetricKey::Standard((2, 2))), Some(&vec![2]));
    assert_eq!(table.get(&MetricKey::Standard((3, 4))), None);
}

#[test]
fn default_beats_of_unreadable_text_are_empty() {
    let table = default_beats_from_text("[unclosed");
    assert_eq!(table.get(&MetricKey::Standard((4, 4))), None);
    let table = default_beats_from_text("");
    assert_eq!(table.get(&MetricKey::Standard((4, 4))), None);
}

#[test]
fn strict_config_reports_first_defect() {
    match load_beat_config_from_str("4/4: [2, 2]\nbad: [1]\n") {
        Some(Err(m)) => assert_eq!(m, "Failed to split key into num and denom"),
        _ => panic!("expected an error"),
    }
    match load_beat_config_from_str("x/4: [2, 2]\n") {
        Some(Err(m)) => assert_eq!(m, "Failed to parse numerator 'x': invalid digit found in string"),
        _ => panic!("expected an error"),
    }
    match load_beat_config_from_str("4/4: 7\n") {
        Some(Err(m)) => assert_eq!(m, "Failed to convert value to vec"),
        _ => panic!("expected an error"),
    }
    match load_beat_config_from_str("4/4: [a]\n") {
        Some(Err(m)) => assert_eq!(m, "Failed to convert beat value to i64"),
        _ => panic!("expected an error"),
    }
    match load_beat_config_from_str("1: [1]\n") {
        Some(Err(m)) => assert_eq!(m, "Failed to convert key to string"),
        _ => panic!("expected an error"),
    }
    match load_beat_config_from_str(" 9 / 8 : [3, 3, 3]\n") {
        Some(Ok(t)) => assert_eq!(t.get(&MetricKey::Standard((9, 8))), Some(&vec![3, 3, 3])),
        _ => panic!("expected a table"),
    }
    assert!(load_beat_config_from_str("").is_none());
    match load_beat_config_from_str("a: [1\n") {
        Some(Err(m)) => assert!(m.starts_with("Failed to parse YAML: ")),
        _ => panic!("expected a scanner error"),
    }
}

#[test]
fn documents_reach_the_table() {
    let docs = load_first_mapping("5/8: [3, 2]\n");
    match &docs {
        Ok(Some(entries)) => {
            assert_eq!(entries.len(), 1);
            assert_eq!(entries[0].key.as_deref(), Some("5/8"));
            assert_eq!(entries[0].items, Some(vec![Some(3), Some(2)]));
        }
        _ => panic!("expected one mapping"),
    }
    let table = beat_config_from_documents(docs).unwrap();
    assert_eq!(table.get(&MetricKey::Standard((5, 8))), Some(&vec![3, 2]));
    assert_eq!(load_first_mapping("- 1\n- 2\n").unwrap().unwrap().len(), 0);
}

#[test]
fn parse_entry_by_hand() {
    let entry = ConfigEntry { key: Some("12/16".to_string()), items: Some(vec![Some(3), Some(4294967301)]) };
    let (key, beats) = BeatTable::parse_entry(&entry).unwrap();
    assert!(key.same_key(&MetricKey::Standard((12, 16))));
    assert_eq!(beats, vec![3, 5]);
}

#[test]
fn later_entries_override() {
    let mut table = BeatTable::new();
    table.insert(MetricKey::Standard((4, 4)), vec![4]);
    table.insert(MetricKey::Standard((4, 4)), vec![2, 2]);
    table.insert(MetricKey::Composite((vec![2, 3], 8)), vec![2, 3]);
    assert_eq!(table.get(&MetricKey::Standard((4, 4))), Some(&vec![2, 2]));
    assert_eq!(table.get(&MetricKey::Composite((vec![2, 3], 8))), Some(&vec![2, 3]));
    assert_eq!(table.get(&MetricKey::Composite((vec![3, 2], 8))), None);
    assert_eq!(MetricKey::from((3, 4)), MetricKey::Standard((3, 4)));
    assert_eq!(MetricKey::from((vec![1, 2], 4)), MetricKey::Composite((vec![1, 2], 4)));
}

#[test]
fn string_helpers() {
    assert_eq!(trim("  7 \t"), "7");
    assert_eq!(trim(""), "");
    assert_eq!(split_once("3/4/8", '/'), Some(("3", "4/8")));
    assert_eq!(split_once("34", '/'), None);
    assert_eq!(parse_i32("-42"), Ok(-42));
    assert_eq!(parse_i32("+7"), Ok(7));
    assert_eq!(parse_i32("2147483648"), Err("number too large to fit in target type".to_string()));
    assert_eq!(parse_i32(""), Err("cannot parse integer from empty string".to_string()));
    assert_eq!(parse_i32("1x"), Err("invalid digit found in string".to_string()));
}

#[test]
fn signatures_and_default_groups() {
    let table = default_beats_from_text(BEATS_YAML);
    assert!(is_allowed_denominator(0));
    assert!(is_allowed_denominator(32));
    assert!(!is_allowed_denominator(64));
    assert!(has_signature(6, 8));
    assert!(!has_signature(0, 8));
    assert_eq!(signature_beats(6, 8, None, &table), vec![3, 3]);
    assert_eq!(signature_beats(6, 8, Some(vec![]), &table), vec![3, 3]);
    assert_eq!(signature_beats(7, 4, Some(vec![2, 2, 3]), &table), vec![2, 2, 3]);
    assert_eq!(signature_beats(3, 16, None, &table), vec![1, 1, 1]);
}
