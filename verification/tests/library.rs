use jpeek::number::{key_bits, number_key};
use jpeek::render::{
    color_label, entry_line, format_array_len, render_root, summarize_field_types, Piece, Shown,
    Style,
};
use jpeek::stats::{CollectionStats, Fields, TypeKey, TypeStats};
use jpeek::text::{decimal_string, tree_prefix, truncate};

fn piece_text(p: &Piece) -> String {
    match p {
        Piece::Text { text, .. } => text.clone(),
        Piece::Number { .. } => "<number>".to_string(),
        Piece::NumberRange { .. } => "<range>".to_string(),
    }
}

fn line_string(line: &[Piece]) -> String {
    line.iter().map(piece_text).collect()
}

fn key(f: f64) -> u64 {
    number_key(f.to_bits())
}

fn null_stats(example_count: usize, min_count: usize, max_count: usize) -> TypeStats {
    TypeStats::Null { example_count, min_count, max_count }
}

fn undefined_stats(example_count: usize, min_count: usize, max_count: usize) -> TypeStats {
    TypeStats::Undefined { example_count, min_count, max_count }
}

fn single(stats: TypeStats) -> CollectionStats {
    let mut c = CollectionStats::new();
    c.merge_value(stats);
    c
}

fn object(fields: Vec<(&str, TypeStats)>) -> TypeStats {
    let mut items = Fields::new();
    for (k, v) in fields {
        items.insert(k.to_string(), single(v));
    }
    TypeStats::of_object(items)
}

fn counts(s: &TypeStats) -> (usize, usize, usize) {
    match s {
        TypeStats::Null { example_count, min_count, max_count }
        | TypeStats::Undefined { example_count, min_count, max_count } => {
            (*example_count, *min_count, *max_count)
        }
        _ => panic!("not a count"),
    }
}

// --- Merging ---

#[test]
fn string_merge_keeps_first_example_and_extremes() {
    let mut s = TypeStats::of_str("banana");
    s.merge(TypeStats::of_str("apple"));
    s.merge(TypeStats::of_str("cherry"));
    match &s {
        TypeStats::String { example, min_val, max_val } => {
            assert_eq!(example, "banana");
            assert_eq!(min_val, "apple");
            assert_eq!(max_val, "cherry");
        }
        _ => panic!("expected string statistics"),
    }
}

#[test]
fn string_order_is_by_character() {
    let mut s = TypeStats::of_str("é");
    s.merge(TypeStats::of_str("z"));
    s.merge(TypeStats::of_str("ab"));
    s.merge(TypeStats::of_str("a"));
    match &s {
        TypeStats::String { min_val, max_val, .. } => {
            assert_eq!(min_val, "a");
            assert_eq!(max_val, "é");
        }
        _ => panic!("expected string statistics"),
    }
}

#[test]
fn number_merge_spans_range_and_keeps_example() {
    let mut s = TypeStats::of_number(key(10.0), false);
    s.merge(TypeStats::of_number(key(-5.0), false));
    s.merge(TypeStats::of_number(key(20.5), true));
    match &s {
        TypeStats::Number { example, min, max, is_float } => {
            assert_eq!(*example, key(10.0));
            assert_eq!(*min, key(-5.0));
            assert_eq!(*max, key(20.5));
            assert!(*is_float);
        }
        _ => panic!("expected number statistics"),
    }
}

#[test]
fn bool_merge_records_both_values() {
    let mut s = TypeStats::of_bool(false);
    s.merge(TypeStats::of_bool(true));
    match &s {
        TypeStats::Bool { example, has_true, has_false } => {
            assert!(!*example);
            assert!(*has_true && *has_false);
        }
        _ => panic!("expected bool statistics"),
    }
    let (ex, rng) = s.format_value(25);
    assert!(matches!(ex, Shown::Text(ref t) if t == "false"));
    assert!(matches!(rng, Shown::Text(ref t) if t == "(false - true)"));
}

#[test]
fn null_counts_add_and_span() {
    let mut s = null_stats(1, 1, 1);
    s.merge(undefined_stats(2, 0, 3));
    assert!(matches!(s, TypeStats::Null { .. }));
    assert_eq!(counts(&s), (3, 0, 3));
}

#[test]
fn merge_of_different_types_keeps_self() {
    let mut s = TypeStats::of_bool(true);
    s.merge(TypeStats::of_str("x"));
    assert_eq!(s.type_key(), TypeKey::Bool);
}

#[test]
fn array_merge_spans_lengths() {
    let mut a = TypeStats::of_array(single(TypeStats::of_bool(true)), 2);
    a.merge(TypeStats::of_array(single(TypeStats::of_bool(false)), 4));
    a.merge(TypeStats::of_array(CollectionStats::new(), 1));
    match &a {
        TypeStats::Array { example_len, min_len, max_len, items } => {
            assert_eq!((*example_len, *min_len, *max_len), (2, 1, 4));
            assert!(matches!(
                items.boolean,
                Some(TypeStats::Bool { has_true: true, has_false: true, .. })
            ));
        }
        _ => panic!("expected array statistics"),
    }
}

#[test]
fn object_merge_marks_missing_fields() {
    let mut a = object(vec![("a", TypeStats::of_bool(true))]);
    a.merge(object(vec![("b", TypeStats::of_bool(false))]));
    match &a {
        TypeStats::Object { items } => {
            let items = items.entries();
            assert_eq!(items.len(), 2);
            assert_eq!(items[0].0, "a");
            assert_eq!(items[1].0, "b");
            // a field of the first object only: one missing value counted after it
            assert_eq!(counts(items[0].1.undefined.as_ref().unwrap()), (1, 1, 1));
            // a field of the second object only: one missing value counted before it
            assert_eq!(counts(items[1].1.undefined.as_ref().unwrap()), (1, 0, 1));
            assert!(items[1].1.boolean.is_some());
        }
        _ => panic!("expected object statistics"),
    }
}

#[test]
fn object_merge_of_common_field_has_no_missing() {
    let mut a = object(vec![("a", TypeStats::of_bool(true))]);
    a.merge(object(vec![("a", TypeStats::of_str("x"))]));
    match &a {
        TypeStats::Object { items } => {
            let items = items.entries();
            assert_eq!(items.len(), 1);
            assert!(items[0].1.undefined.is_none());
            assert!(items[0].1.boolean.is_some());
            assert!(items[0].1.string.is_some());
        }
        _ => panic!("expected object statistics"),
    }
}

#[test]
fn collection_merge_zeroes_min_count_of_one_sided_types() {
    let mut a = single(null_stats(2, 1, 2));
    a.merge(single(TypeStats::of_bool(true)));
    assert_eq!(counts(a.null.as_ref().unwrap()), (2, 0, 2));
    assert!(a.boolean.is_some());
}

#[test]
fn merge_value_merges_into_slot_of_its_type() {
    let mut c = CollectionStats::new();
    c.merge_value(TypeStats::null());
    c.merge_value(TypeStats::null());
    c.merge_value(TypeStats::of_str("s"));
    assert_eq!(counts(c.null.as_ref().unwrap()), (2, 1, 1));
    assert!(c.string.is_some());
    assert!(c.number.is_none());
}

#[test]
fn insert_field_keeps_order_and_replaces() {
    let mut fields = Fields::new();
    fields.insert("m".to_string(), single(TypeStats::null()));
    fields.insert("z".to_string(), single(TypeStats::null()));
    fields.insert("a".to_string(), single(TypeStats::null()));
    fields.insert("m".to_string(), single(TypeStats::of_bool(true)));
    let items = fields.entries();
    let keys: Vec<&str> = items.iter().map(|(k, _)| k.as_str()).collect();
    assert_eq!(keys, vec!["a", "m", "z"]);
    assert!(items[1].1.boolean.is_some());
    assert!(items[1].1.null.is_none());
}

#[test]
fn overflowing_counts_cannot_merge() {
    let big = null_stats(usize::MAX, 1, 1);
    assert_eq!(big.max_example_count(), usize::MAX);
    assert!(!big.can_merge(&TypeStats::null()));
    assert!(TypeStats::null().can_merge(&TypeStats::null()));
    let c = single(null_stats(usize::MAX - 1, 1, 1));
    assert!(!c.can_merge_value(&TypeStats::null()));
    let nested = TypeStats::of_array(single(null_stats(7, 1, 7)), 1);
    assert_eq!(nested.max_example_count(), 7);
}

// --- Number keys ---

#[test]
fn number_keys_follow_numeric_order() {
    let values = [f64::NEG_INFINITY, -1e300, -2.5, -1.0, -0.0, 0.0, 1e-300, 1.0, 2.5, 1e300, f64::INFINITY];
    for w in values.windows(2) {
        assert!(key(w[0]) < key(w[1]), "{} should come before {}", w[0], w[1]);
    }
}

#[test]
fn number_keys_round_trip() {
    for v in [0.0, -0.0, 1.5, -1.5, 42.0, f64::MAX, f64::MIN_POSITIVE] {
        assert_eq!(f64::from_bits(key_bits(key(v))).to_bits(), v.to_bits());
    }
    for k in [0u64, 1, 0x8000_0000_0000_0000, u64::MAX] {
        assert_eq!(number_key(key_bits(k)), k);
    }
}

// --- Text ---

#[test]
fn decimal_numerals() {
    assert_eq!(decimal_string(0), "0");
    assert_eq!(decimal_string(7), "7");
    assert_eq!(decimal_string(1234), "1234");
    assert_eq!(decimal_string(usize::MAX), usize::MAX.to_string());
}

#[test]
fn truncation_counts_characters() {
    assert_eq!(truncate("hello", 5), "hello");
    assert_eq!(truncate("hello", 3), "hel...");
    assert_eq!(truncate("héllo", 2), "hé...");
    assert_eq!(truncate("", 0), "");
    assert_eq!(truncate("x", 0), "...");
}

#[test]
fn tree_prefixes() {
    assert_eq!(tree_prefix(&[], false), "├── ");
    assert_eq!(tree_prefix(&[], true), "└── ");
    assert_eq!(tree_prefix(&[true, false], true), "    │   └── ");
}

#[test]
fn labels_are_coloured_by_kind() {
    assert!(matches!(color_label("[values]"), Piece::Text { style: Style::Magenta, .. }));
    assert!(matches!(color_label("[option]"), Piece::Text { style: Style::Magenta, .. }));
    assert!(matches!(color_label("name"), Piece::Text { style: Style::Blue, .. }));
}

#[test]
fn array_lengths_shown_with_range() {
    assert_eq!(line_string(&format_array_len(3, 2, 5)), "arr len = 3  (2 - 5)");
    assert_eq!(line_string(&format_array_len(4, 4, 4)), "arr len = 4");
}

#[test]
fn entry_line_shows_example_then_range() {
    let line = entry_line(
        &[false],
        true,
        "k",
        "str",
        Shown::Text("\"x\"".to_string()),
        Shown::Text("(\"a\" - \"z\")".to_string()),
    );
    assert_eq!(line_string(&line), "│   └── k: str = \"x\"  (\"a\" - \"z\")");
    let bare = entry_line(&[], false, "k", "obj", Shown::Nothing, Shown::Text("r".to_string()));
    assert_eq!(line_string(&bare), "├── k: obj");
    // an empty example is no example: neither it nor the range is shown
    let empty = entry_line(&[], false, "a", "int", Shown::Text(String::new()), Shown::Text("x".to_string()));
    assert_eq!(empty.len(), 4);
    assert_eq!(line_string(&empty), "├── a: int");
    // an empty range is not shown
    let no_range = entry_line(&[], true, "a", "str", Shown::Text("v".to_string()), Shown::Text(String::new()));
    assert_eq!(no_range.len(), 6);
    assert_eq!(line_string(&no_range), "└── a: str = v");
}

#[test]
fn summary_puts_null_and_undefined_last() {
    let mut c = CollectionStats::new();
    c.merge_value(undefined_stats(1, 1, 1));
    c.merge_value(TypeStats::null());
    c.merge_value(TypeStats::of_array(CollectionStats::new(), 0));
    c.merge_value(TypeStats::of_number(key(1.5), true));
    c.merge_value(TypeStats::of_str("s"));
    assert_eq!(summarize_field_types(&c), "str | float | arr | null | undefined");
}

#[test]
fn counts_shown_only_when_not_one() {
    let (ex, rng) = null_stats(1, 1, 1).format_value(25);
    assert!(matches!(ex, Shown::Nothing) && matches!(rng, Shown::Nothing));
    let (ex, rng) = null_stats(5, 2, 3).format_value(25);
    assert!(matches!(ex, Shown::Text(ref t) if t == "5"));
    assert!(matches!(rng, Shown::Text(ref t) if t == "(2 - 3)"));
    let (ex, rng) = undefined_stats(4, 2, 2).format_value(25);
    assert!(matches!(ex, Shown::Text(ref t) if t == "4"));
    assert!(matches!(rng, Shown::Nothing));
}

#[test]
fn string_values_are_quoted_and_truncated() {
    let mut s = TypeStats::of_str("abcdef");
    s.merge(TypeStats::of_str("zzzzzz"));
    let (ex, rng) = s.format_value(3);
    assert!(matches!(ex, Shown::Text(ref t) if t == "\"abc...\""));
    assert!(matches!(rng, Shown::Text(ref t) if t == "(\"abc...\" - \"zzz...\")"));
}

#[test]
fn root_of_empty_object_and_missing_count_line() {
    let lines = render_root(&TypeStats::of_object(Fields::new()), 25);
    assert_eq!(lines.len(), 1);
    assert_eq!(line_string(&lines[0]), "[root]: obj");
    let mut a = object(vec![("n", TypeStats::null())]);
    a.merge(object(vec![]));
    a.merge(object(vec![("n", TypeStats::null())]));
    let lines = render_root(&a, 25);
    let text: Vec<String> = lines.iter().map(|l| line_string(l)).collect();
    assert_eq!(text[1], "└── n: null | undefined");
    // two nulls, each object having one: the count is not shown
    assert_eq!(text[2], "    ├── [option]: null");
    assert_eq!(text[3], "    └── [option]: undefined cnt = 1  (0 - 1)");
}
