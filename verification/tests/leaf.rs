use bc_components::DigestProvider;
use bc_envelope::EnvelopeCase;
use bc_envelope_pattern::{
    ArrayPattern, BoolPattern, ByteStringPattern, CBORPattern, DatePattern, Envelope,
    KnownValuePattern, MapPattern, NullPattern, NumberPattern, TaggedPattern, TextPattern,
};
use dcbor::{Date, CBOR};
use dcbor_parse::parse_dcbor_item;

/// The name the known-values registry gives `value`, or its own name.
fn registered_name(value: &bc_envelope::KnownValue) -> String {
    match bc_envelope::KNOWN_VALUES.get().as_ref() {
        Some(store) => store.name(value.clone()),
        None => value.name(),
    }
}

/// The library's view of a Gordian Envelope.
fn model(e: &bc_envelope::Envelope) -> Envelope {
    let digest = e.digest().data().to_vec();
    match e.case() {
        EnvelopeCase::Node { subject, assertions, .. } => Envelope::Node {
            subject: Box::new(model(subject)),
            assertions: assertions.iter().map(model).collect(),
            digest,
        },
        EnvelopeCase::Leaf { cbor, .. } => Envelope::Leaf { cbor: cbor.to_cbor_data(), digest },
        EnvelopeCase::Wrapped { envelope, .. } => {
            Envelope::Wrapped { envelope: Box::new(model(envelope)), digest }
        }
        EnvelopeCase::Assertion(a) => Envelope::Assertion {
            predicate: Box::new(model(&a.predicate())),
            object: Box::new(model(&a.object())),
            digest,
        },
        EnvelopeCase::Elided(_) => Envelope::Elided { digest },
        EnvelopeCase::KnownValue { value, .. } => Envelope::KnownValue {
            value: value.value(),
            name: registered_name(value),
            digest,
        },
        EnvelopeCase::Encrypted(_) => Envelope::Encrypted { digest },
        EnvelopeCase::Compressed(_) => Envelope::Compressed { digest },
    }
}

fn leaf_of<T: bc_envelope::EnvelopeEncodable>(v: T) -> Envelope {
    model(&bc_envelope::Envelope::new(v))
}

fn assertion_envelope() -> Envelope {
    model(&bc_envelope::Envelope::new_assertion("key", "value"))
}

fn date_ymd(y: i32, m: u32, d: u32) -> String {
    Date::from_ymd(y, m, d).to_string()
}

// ---------------------------------------------------------------- arrays

#[test]
fn test_array_pattern_any() {
    let cbor_array = CBOR::from(vec![1, 2, 3]);
    let envelope = leaf_of(cbor_array);
    let pattern = ArrayPattern::any();
    let paths = pattern.paths(&envelope);
    assert_eq!(paths.len(), 1);
    assert_eq!(paths[0], vec![envelope.duplicate()]);

    let text_envelope = leaf_of("test");
    let paths = pattern.paths(&text_envelope);
    assert!(paths.is_empty());
}

#[test]
fn test_array_pattern_count() {
    let envelope = leaf_of(CBOR::from(vec![1, 2, 3]));
    let pattern = ArrayPattern::count(3);
    assert_eq!(pattern.paths(&envelope).len(), 1);
    let pattern = ArrayPattern::count(5);
    assert!(pattern.paths(&envelope).is_empty());
}

#[test]
fn test_array_pattern_range() {
    let envelope = leaf_of(CBOR::from(vec![1, 2, 3]));
    let pattern = ArrayPattern::interval(2, Some(4));
    assert_eq!(pattern.paths(&envelope).len(), 1);
    let pattern = ArrayPattern::interval(5, Some(10));
    assert!(pattern.paths(&envelope).is_empty());
}

#[test]
fn test_array_pattern_display() {
    assert_eq!(ArrayPattern::any().to_string(), "[*]");
    assert_eq!(ArrayPattern::count(3).to_string(), "[{3}]");
    assert_eq!(ArrayPattern::interval(2, Some(5)).to_string(), "[{2,5}]");
    assert_eq!(ArrayPattern::interval(3, None).to_string(), "[{3,}]");
}

// ---------------------------------------------------------------- booleans

#[test]
fn test_bool_pattern_display() {
    assert_eq!(BoolPattern::any().to_string(), "bool");
    assert_eq!(BoolPattern::value(true).to_string(), "true");
    assert_eq!(BoolPattern::value(false).to_string(), "false");
}

#[test]
fn test_bool_pattern_dcbor_integration() {
    let true_envelope = leaf_of(true);
    let false_envelope = leaf_of(false);
    let number_envelope = leaf_of(42);
    let text_envelope = leaf_of("hello");

    let any_pattern = BoolPattern::any();
    assert!(any_pattern.matches(&true_envelope));
    assert!(any_pattern.matches(&false_envelope));
    assert!(!any_pattern.matches(&number_envelope));
    assert!(!any_pattern.matches(&text_envelope));

    let true_pattern = BoolPattern::value(true);
    assert!(true_pattern.matches(&true_envelope));
    assert!(!true_pattern.matches(&false_envelope));
    assert!(!true_pattern.matches(&number_envelope));
    assert!(!true_pattern.matches(&text_envelope));

    let false_pattern = BoolPattern::value(false);
    assert!(!false_pattern.matches(&true_envelope));
    assert!(false_pattern.matches(&false_envelope));
    assert!(!false_pattern.matches(&number_envelope));
    assert!(!false_pattern.matches(&text_envelope));

    let paths = true_pattern.paths(&true_envelope);
    assert_eq!(paths.len(), 1);
    assert_eq!(paths[0], vec![true_envelope.duplicate()]);

    let no_paths = true_pattern.paths(&false_envelope);
    assert_eq!(no_paths.len(), 0);
}

#[test]
fn test_bool_pattern_paths_with_captures() {
    let bool_envelope = leaf_of(true);
    let pattern = BoolPattern::value(true);
    let (paths, captures) = pattern.paths_with_captures(&bool_envelope);
    assert_eq!(paths.len(), 1);
    assert_eq!(paths[0], vec![bool_envelope.duplicate()]);
    assert_eq!(captures.len(), 0);
}

#[test]
fn test_bool_pattern_with_non_bool_envelope() {
    let envelope = assertion_envelope();
    let pattern = BoolPattern::any();
    assert_eq!(pattern.paths(&envelope).len(), 0);
}

#[test]
fn test_bool_pattern_with_direct_cbor_values() {
    let true_envelope = leaf_of(parse_dcbor_item("true").unwrap());
    let false_envelope = leaf_of(parse_dcbor_item("false").unwrap());

    let any_pattern = BoolPattern::any();
    assert!(any_pattern.matches(&true_envelope));
    assert!(any_pattern.matches(&false_envelope));

    let true_pattern = BoolPattern::value(true);
    assert!(true_pattern.matches(&true_envelope));
    assert!(!true_pattern.matches(&false_envelope));

    let false_pattern = BoolPattern::value(false);
    assert!(!false_pattern.matches(&true_envelope));
    assert!(false_pattern.matches(&false_envelope));
}

// ---------------------------------------------------------------- byte strings

#[test]
fn test_byte_string_pattern_any() {
    let envelope = leaf_of(CBOR::to_byte_string(vec![1u8, 2, 3, 4]));
    let pattern = ByteStringPattern::any();
    let paths = pattern.paths(&envelope);
    assert_eq!(paths.len(), 1);
    assert_eq!(paths[0], vec![envelope.duplicate()]);

    let text_envelope = leaf_of("test");
    assert!(pattern.paths(&text_envelope).is_empty());
}

#[test]
fn test_byte_string_pattern_exact() {
    let bytes = vec![1u8, 2, 3, 4];
    let envelope = leaf_of(CBOR::to_byte_string(bytes.clone()));
    let pattern = ByteStringPattern::value(&bytes);
    let paths = pattern.paths(&envelope);
    assert_eq!(paths.len(), 1);
    assert_eq!(paths[0], vec![envelope.duplicate()]);

    let pattern = ByteStringPattern::value(&[5, 6, 7, 8]);
    assert!(pattern.paths(&envelope).is_empty());
}

#[test]
fn test_byte_string_pattern_binary_regex() {
    let bytes = vec![0x48u8, 0x65, 0x6c, 0x6c, 0x6f];
    let envelope = leaf_of(CBOR::to_byte_string(bytes.clone()));

    let pattern = ByteStringPattern::regex(r"^He.*o$");
    let paths = pattern.paths(&envelope);
    assert_eq!(paths.len(), 1);
    assert_eq!(paths[0], vec![envelope.duplicate()]);

    let pattern = ByteStringPattern::regex(r"^World");
    assert!(pattern.paths(&envelope).is_empty());

    let text_envelope = leaf_of("test");
    let pattern = ByteStringPattern::regex(r".*");
    assert!(pattern.paths(&text_envelope).is_empty());
}

#[test]
fn test_byte_string_pattern_display() {
    assert_eq!(ByteStringPattern::any().to_string(), "bstr");
    assert_eq!(ByteStringPattern::value(&[1, 2, 3]).to_string(), r#"h'010203'"#);
    assert_eq!(ByteStringPattern::regex(r"^\d+$").to_string(), r"h'/^\d+$/'");
}

#[test]
fn test_byte_string_pattern_dcbor_integration() {
    let bytes = vec![0x48u8, 0x65, 0x6c, 0x6c, 0x6f];
    let bstr_envelope = leaf_of(CBOR::to_byte_string(bytes.clone()));
    let text_envelope = leaf_of("Hello");
    let number_envelope = leaf_of(42);

    let any_pattern = ByteStringPattern::any();
    assert!(any_pattern.matches(&bstr_envelope));
    assert!(!any_pattern.matches(&text_envelope));
    assert!(!any_pattern.matches(&number_envelope));

    let exact_pattern = ByteStringPattern::value(&bytes);
    assert!(exact_pattern.matches(&bstr_envelope));
    assert!(!exact_pattern.matches(&text_envelope));
    assert!(!exact_pattern.matches(&number_envelope));

    let different_pattern = ByteStringPattern::value(&[1, 2, 3]);
    assert!(!different_pattern.matches(&bstr_envelope));

    let alpha_pattern = ByteStringPattern::regex(r"^[A-Za-z]+$");
    assert!(alpha_pattern.matches(&bstr_envelope));
    assert!(!alpha_pattern.matches(&text_envelope));
    assert!(!alpha_pattern.matches(&number_envelope));

    let paths = exact_pattern.paths(&bstr_envelope);
    assert_eq!(paths.len(), 1);
    assert_eq!(paths[0], vec![bstr_envelope.duplicate()]);

    let no_paths = exact_pattern.paths(&text_envelope);
    assert_eq!(no_paths.len(), 0);
}

#[test]
fn test_byte_string_pattern_paths_with_captures() {
    let bytes = vec![0x48u8, 0x65, 0x6c, 0x6c, 0x6f];
    let bstr_envelope = leaf_of(CBOR::to_byte_string(bytes.clone()));
    let pattern = ByteStringPattern::value(&bytes);
    let (paths, captures) = pattern.paths_with_captures(&bstr_envelope);
    assert_eq!(paths.len(), 1);
    assert_eq!(paths[0], vec![bstr_envelope.duplicate()]);
    assert_eq!(captures.len(), 0);
}

#[test]
fn test_byte_string_pattern_with_non_bstr_envelope() {
    let envelope = assertion_envelope();
    let pattern = ByteStringPattern::any();
    assert_eq!(pattern.paths(&envelope).len(), 0);
}

#[test]
fn test_byte_string_pattern_with_direct_cbor_values() {
    let bytes_envelope = leaf_of(parse_dcbor_item("h'48656c6c6f'").unwrap());
    let text_envelope = leaf_of(parse_dcbor_item("\"Hello\"").unwrap());

    let any_pattern = ByteStringPattern::any();
    assert!(any_pattern.matches(&bytes_envelope));
    assert!(!any_pattern.matches(&text_envelope));

    let hello_pattern = ByteStringPattern::value(b"Hello");
    assert!(hello_pattern.matches(&bytes_envelope));
    assert!(!hello_pattern.matches(&text_envelope));

    let regex_pattern = ByteStringPattern::regex(r"^He.*o$");
    assert!(regex_pattern.matches(&bytes_envelope));
    assert!(!regex_pattern.matches(&text_envelope));
}

#[test]
fn test_byte_string_pattern_binary_data() {
    let binary_data = vec![0x00u8, 0x01, 0x02, 0x03, 0xFF, 0xFE, 0xFD];
    let binary_envelope = leaf_of(CBOR::to_byte_string(binary_data.clone()));

    assert!(ByteStringPattern::any().matches(&binary_envelope));
    assert!(ByteStringPattern::value(&binary_data).matches(&binary_envelope));
    assert!(!ByteStringPattern::value(&[0x00, 0x01, 0x02]).matches(&binary_envelope));
    assert!(ByteStringPattern::regex(r"^\x00").matches(&binary_envelope));
    assert!(!ByteStringPattern::regex(r"^\x01").matches(&binary_envelope));
}

// ---------------------------------------------------------------- CBOR

#[test]
fn test_cbor_pattern_any() {
    let envelope = leaf_of("test");
    let pattern = CBORPattern::any();
    let paths = pattern.paths(&envelope);
    assert_eq!(paths.len(), 1);
    assert_eq!(paths[0], vec![envelope.duplicate()]);
}

#[test]
fn test_cbor_pattern_exact() {
    let source = bc_envelope::Envelope::new("test_value");
    let envelope = model(&source);
    let cbor = source.subject().as_leaf().unwrap().to_cbor_data();
    let pattern = CBORPattern::value(&cbor);
    let paths = pattern.paths(&envelope);
    assert_eq!(paths.len(), 1);
    assert_eq!(paths[0], vec![envelope.duplicate()]);

    let different_envelope = leaf_of("different");
    assert!(pattern.paths(&different_envelope).is_empty());
}

#[test]
fn test_cbor_pattern_dcbor_pattern() {
    let dcbor_pattern = dcbor_pattern::Pattern::any_number().to_string();
    let cbor_pattern = CBORPattern::pattern(&dcbor_pattern);

    let number_envelope = leaf_of(42);
    let paths = cbor_pattern.paths(&number_envelope);
    assert_eq!(paths.len(), 1);
    assert_eq!(paths[0], vec![number_envelope.duplicate()]);

    let text_envelope = leaf_of("hello");
    assert!(cbor_pattern.paths(&text_envelope).is_empty());
}

#[test]
fn test_cbor_pattern_dcbor_pattern_with_captures() {
    let dcbor_pattern = dcbor_pattern::Pattern::any_number().to_string();
    let cbor_pattern = CBORPattern::pattern(&dcbor_pattern);

    let number_envelope = leaf_of(42);
    let (paths, captures) = cbor_pattern.paths_with_captures(&number_envelope);
    assert_eq!(paths.len(), 1);
    assert_eq!(paths[0], vec![number_envelope.duplicate()]);
    assert!(captures.is_empty());
}

// ---------------------------------------------------------------- dates

#[test]
fn test_date_pattern_any() {
    let envelope = leaf_of(Date::from_ymd(2023, 12, 25));
    let pattern = DatePattern::any();
    let paths = pattern.paths(&envelope);
    assert_eq!(paths.len(), 1);
    assert_eq!(paths[0], vec![envelope.duplicate()]);

    let text_envelope = leaf_of("test");
    assert!(pattern.paths(&text_envelope).is_empty());
}

#[test]
fn test_date_pattern_specific() {
    let envelope = leaf_of(Date::from_ymd(2023, 12, 25));
    let pattern = DatePattern::value(&date_ymd(2023, 12, 25));
    assert_eq!(pattern.paths(&envelope).len(), 1);

    let pattern = DatePattern::value(&date_ymd(2023, 12, 24));
    assert!(pattern.paths(&envelope).is_empty());
}

#[test]
fn test_date_pattern_range() {
    let envelope = leaf_of(Date::from_ymd(2023, 12, 25));

    let pattern = DatePattern::range(&date_ymd(2023, 12, 20), &date_ymd(2023, 12, 30));
    assert_eq!(pattern.paths(&envelope).len(), 1);

    let pattern = DatePattern::range(&date_ymd(2023, 12, 26), &date_ymd(2023, 12, 30));
    assert!(pattern.paths(&envelope).is_empty());

    let pattern = DatePattern::range(&date_ymd(2023, 12, 25), &date_ymd(2023, 12, 25));
    assert_eq!(pattern.paths(&envelope).len(), 1);
}

#[test]
fn test_date_pattern_iso8601() {
    let envelope = leaf_of(Date::from_ymd(2023, 12, 25));

    let pattern = DatePattern::string("2023-12-25");
    assert_eq!(pattern.paths(&envelope).len(), 1);

    let pattern = DatePattern::string("2023-12-24");
    assert!(pattern.paths(&envelope).is_empty());

    let envelope_with_time = leaf_of(Date::from_ymd_hms(2023, 12, 25, 15, 30, 45));
    let pattern = DatePattern::string("2023-12-25T15:30:45Z");
    assert_eq!(pattern.paths(&envelope_with_time).len(), 1);
}

#[test]
fn test_date_pattern_regex() {
    let envelope = leaf_of(Date::from_ymd(2023, 12, 25));

    assert_eq!(DatePattern::regex(r"^2023-.*").paths(&envelope).len(), 1);
    assert_eq!(DatePattern::regex(r".*-12-.*").paths(&envelope).len(), 1);
    assert!(DatePattern::regex(r"^2024-.*").paths(&envelope).is_empty());

    let envelope_with_time = leaf_of(Date::from_ymd_hms(2023, 12, 25, 15, 30, 45));
    assert_eq!(DatePattern::regex(r".*T15:30:45Z$").paths(&envelope_with_time).len(), 1);
}

#[test]
fn test_date_pattern_with_non_date_tagged_cbor() {
    let envelope = leaf_of(CBOR::to_tagged_value(100, "not a date"));
    let pattern = DatePattern::any();
    assert!(pattern.paths(&envelope).is_empty());
}

#[test]
fn test_date_pattern_display() {
    assert_eq!(DatePattern::any().to_string(), "date");
    assert_eq!(DatePattern::value(&date_ymd(2023, 12, 25)).to_string(), "date'2023-12-25'");
    assert_eq!(
        DatePattern::range(&date_ymd(2023, 12, 20), &date_ymd(2023, 12, 30)).to_string(),
        "date'2023-12-20...2023-12-30'"
    );
    assert_eq!(DatePattern::earliest(&date_ymd(2023, 12, 25)).to_string(), "date'2023-12-25...'");
    assert_eq!(DatePattern::latest(&date_ymd(2023, 12, 25)).to_string(), "date'...2023-12-25'");
    assert_eq!(DatePattern::string("2023-12-25").to_string(), "date'2023-12-25'");
    assert_eq!(DatePattern::regex(r"^2023-.*").to_string(), "date'/^2023-.*/'");
}

#[test]
fn test_date_pattern_dcbor_integration() {
    let date_envelope = leaf_of(Date::from_ymd(2023, 12, 25));
    let text_envelope = leaf_of("2023-12-25");
    let number_envelope = leaf_of(42);

    let any_pattern = DatePattern::any();
    assert!(any_pattern.matches(&date_envelope));
    assert!(!any_pattern.matches(&text_envelope));
    assert!(!any_pattern.matches(&number_envelope));

    let exact_pattern = DatePattern::value(&date_ymd(2023, 12, 25));
    assert!(exact_pattern.matches(&date_envelope));
    assert!(!exact_pattern.matches(&text_envelope));
    assert!(!exact_pattern.matches(&number_envelope));

    let different_pattern = DatePattern::value(&date_ymd(2023, 12, 24));
    assert!(!different_pattern.matches(&date_envelope));

    let range_pattern = DatePattern::range(&date_ymd(2023, 12, 20), &date_ymd(2023, 12, 30));
    assert!(range_pattern.matches(&date_envelope));
    assert!(!range_pattern.matches(&text_envelope));
    assert!(!range_pattern.matches(&number_envelope));

    let iso_pattern = DatePattern::string("2023-12-25");
    assert!(iso_pattern.matches(&date_envelope));
    assert!(!iso_pattern.matches(&text_envelope));

    let regex_pattern = DatePattern::regex(r"^2023-.*");
    assert!(regex_pattern.matches(&date_envelope));
    assert!(!regex_pattern.matches(&text_envelope));

    let paths = exact_pattern.paths(&date_envelope);
    assert_eq!(paths.len(), 1);
    assert_eq!(paths[0], vec![date_envelope.duplicate()]);

    assert_eq!(exact_pattern.paths(&text_envelope).len(), 0);
}

#[test]
fn test_date_pattern_paths_with_captures() {
    let date_envelope = leaf_of(Date::from_ymd(2023, 12, 25));
    let pattern = DatePattern::value(&date_ymd(2023, 12, 25));
    let (paths, captures) = pattern.paths_with_captures(&date_envelope);
    assert_eq!(paths.len(), 1);
    assert_eq!(paths[0], vec![date_envelope.duplicate()]);
    assert_eq!(captures.len(), 0);
}

#[test]
fn test_date_pattern_with_non_date_envelope() {
    let envelope = assertion_envelope();
    assert_eq!(DatePattern::any().paths(&envelope).len(), 0);
}

#[test]
fn test_date_pattern_with_direct_cbor_values() {
    let date_envelope = leaf_of(parse_dcbor_item("1(1640995200)").unwrap());
    let text_envelope = leaf_of(parse_dcbor_item("\"2023-12-25\"").unwrap());

    let any_pattern = DatePattern::any();
    assert!(any_pattern.matches(&date_envelope));
    assert!(!any_pattern.matches(&text_envelope));

    if let Ok(parsed_date) = Date::try_from(parse_dcbor_item("1(1640995200)").unwrap()) {
        let specific_pattern = DatePattern::value(&parsed_date.to_string());
        assert!(specific_pattern.matches(&date_envelope));
        assert!(!specific_pattern.matches(&text_envelope));
    }
}

#[test]
fn test_date_pattern_earliest_latest() {
    let envelope = leaf_of(Date::from_ymd(2023, 12, 25));

    assert!(DatePattern::earliest(&date_ymd(2023, 12, 20)).matches(&envelope));
    assert!(!DatePattern::earliest(&date_ymd(2023, 12, 30)).matches(&envelope));
    assert!(DatePattern::latest(&date_ymd(2023, 12, 30)).matches(&envelope));
    assert!(!DatePattern::latest(&date_ymd(2023, 12, 20)).matches(&envelope));
}

// ---------------------------------------------------------------- known values

fn known_value_pattern(kv: &bc_envelope::KnownValue) -> KnownValuePattern {
    KnownValuePattern::value(kv.value(), &kv.name())
}

#[test]
fn test_known_value_pattern_any() {
    let envelope = leaf_of(bc_envelope::KnownValue::new(1));
    let pattern = KnownValuePattern::any();
    let paths = pattern.paths(&envelope);
    assert_eq!(paths.len(), 1);
    assert_eq!(paths[0], vec![envelope.duplicate()]);

    let text_envelope = leaf_of("test");
    assert!(pattern.paths(&text_envelope).is_empty());
}

#[test]
fn test_known_value_pattern_specific() {
    let envelope = leaf_of(known_values::DATE);
    let pattern = known_value_pattern(&known_values::DATE);
    let paths = pattern.paths(&envelope);
    assert_eq!(paths.len(), 1);
    assert_eq!(paths[0], vec![envelope.duplicate()]);

    let pattern = known_value_pattern(&known_values::LANGUAGE);
    assert!(pattern.paths(&envelope).is_empty());
}

#[test]
fn test_known_value_pattern_named() {
    let envelope = leaf_of(known_values::DATE);

    let pattern = KnownValuePattern::named("date");
    let paths = pattern.paths(&envelope);
    assert_eq!(paths.len(), 1);
    assert_eq!(paths[0], vec![envelope.duplicate()]);

    assert!(KnownValuePattern::named("language").paths(&envelope).is_empty());
    assert!(KnownValuePattern::named("unknown_name").paths(&envelope).is_empty());

    let text_envelope = leaf_of("test");
    assert!(KnownValuePattern::named("date").paths(&text_envelope).is_empty());
}

#[test]
fn test_known_value_pattern_regex() {
    let envelope = leaf_of(known_values::DATE);

    let pattern = KnownValuePattern::regex(r"^da.*");
    let paths = pattern.paths(&envelope);
    assert_eq!(paths.len(), 1);
    assert_eq!(paths[0], vec![envelope.duplicate()]);

    let pattern = KnownValuePattern::regex(r".*te$");
    let paths = pattern.paths(&envelope);
    assert_eq!(paths.len(), 1);
    assert_eq!(paths[0], vec![envelope.duplicate()]);

    assert!(KnownValuePattern::regex(r"^lang.*").paths(&envelope).is_empty());

    let text_envelope = leaf_of("test");
    assert!(KnownValuePattern::regex(r".*").paths(&text_envelope).is_empty());
}

#[test]
fn test_known_value_pattern_display() {
    bc_envelope::register_tags();
    assert_eq!(KnownValuePattern::any().to_string(), "KNOWN");
    assert_eq!(known_value_pattern(&known_values::DATE).to_string(), "KNOWN('date')");
    assert_eq!(KnownValuePattern::named("date").to_string(), "KNOWN('date')");
    assert_eq!(KnownValuePattern::regex(r"^da.*").to_string(), "KNOWN(/^da.*/)");
}

#[test]
fn test_known_value_pattern_dcbor_integration() {
    let date_envelope = leaf_of(known_values::DATE);
    let language_envelope = leaf_of(known_values::LANGUAGE);
    let text_envelope = leaf_of("test");

    let any_pattern = KnownValuePattern::any();
    assert!(any_pattern.matches(&date_envelope));
    assert!(any_pattern.matches(&language_envelope));
    assert!(!any_pattern.matches(&text_envelope));

    let date_pattern = known_value_pattern(&known_values::DATE);
    assert!(date_pattern.matches(&date_envelope));
    assert!(!date_pattern.matches(&language_envelope));
    assert!(!date_pattern.matches(&text_envelope));

    let named_date_pattern = KnownValuePattern::named("date");
    assert!(named_date_pattern.matches(&date_envelope));
    assert!(!named_date_pattern.matches(&language_envelope));
    assert!(!named_date_pattern.matches(&text_envelope));

    let regex_pattern = KnownValuePattern::regex(r"^da.*");
    assert!(regex_pattern.matches(&date_envelope));
    assert!(!regex_pattern.matches(&language_envelope));
    assert!(!regex_pattern.matches(&text_envelope));

    let paths = date_pattern.paths(&date_envelope);
    assert_eq!(paths.len(), 1);
    assert_eq!(paths[0], vec![date_envelope.duplicate()]);

    assert_eq!(date_pattern.paths(&language_envelope).len(), 0);
}

// ---------------------------------------------------------------- maps

fn two_entry_map() -> Envelope {
    let mut cbor_map = dcbor::Map::new();
    cbor_map.insert("key1", "value1");
    cbor_map.insert("key2", "value2");
    leaf_of(CBOR::from(cbor_map))
}

#[test]
fn test_map_pattern_any() {
    let envelope = two_entry_map();
    let pattern = MapPattern::any();
    let paths = pattern.paths(&envelope);
    assert_eq!(paths.len(), 1);
    assert_eq!(paths[0], vec![envelope.duplicate()]);

    let text_envelope = leaf_of("test");
    assert!(pattern.paths(&text_envelope).is_empty());
}

#[test]
fn test_map_pattern_count() {
    let envelope = two_entry_map();
    assert_eq!(MapPattern::interval(2, Some(2)).paths(&envelope).len(), 1);
    assert_eq!(MapPattern::interval(1, Some(3)).paths(&envelope).len(), 1);
    assert!(MapPattern::interval(5, Some(5)).paths(&envelope).is_empty());
}

#[test]
fn test_map_pattern_display() {
    assert_eq!(MapPattern::any().to_string(), "{*}");
    assert_eq!(MapPattern::interval(2, Some(2)).to_string(), "{{2}}");
    assert_eq!(MapPattern::interval(1, Some(3)).to_string(), "{{1,3}}");
    assert_eq!(MapPattern::interval(1, None).to_string(), "{{1,}}");
}

// ---------------------------------------------------------------- null

#[test]
fn test_null_pattern_any() {
    let null_envelope = model(&bc_envelope::Envelope::null());
    let pattern = NullPattern;
    let paths = pattern.paths(&null_envelope);
    assert_eq!(paths.len(), 1);
    assert_eq!(paths[0], vec![null_envelope.duplicate()]);

    assert!(pattern.paths(&leaf_of("test")).is_empty());
    assert!(pattern.paths(&leaf_of(42)).is_empty());
    assert!(pattern.paths(&leaf_of(true)).is_empty());
}

#[test]
fn test_null_pattern_display() {
    assert_eq!(NullPattern.to_string(), "null");
}

#[test]
fn test_null_pattern_with_assertions() {
    let null_envelope = model(&bc_envelope::Envelope::null().add_assertion("test", "value"));
    let pattern = NullPattern;
    let paths = pattern.paths(&null_envelope);
    assert_eq!(paths.len(), 1);
    assert_eq!(paths[0], vec![null_envelope.duplicate()]);
}

#[test]
fn test_null_pattern_delegated_matching() {
    let pattern = NullPattern;
    assert!(pattern.matches(&model(&bc_envelope::Envelope::null())));
    assert!(!pattern.matches(&leaf_of("test")));
    assert!(!pattern.matches(&leaf_of(42)));
    assert!(!pattern.matches(&leaf_of(true)));
}

// ---------------------------------------------------------------- numbers

#[test]
fn test_number_pattern_display() {
    assert_eq!(NumberPattern::any().to_string(), "number");
    assert_eq!(NumberPattern::exact(42).to_string(), "42");
    assert_eq!(NumberPattern::range(1, 10).to_string(), "1...10");
    assert_eq!(NumberPattern::greater_than(5).to_string(), ">5");
    assert_eq!(NumberPattern::greater_than_or_equal(5).to_string(), ">=5");
    assert_eq!(NumberPattern::less_than(5).to_string(), "<5");
    assert_eq!(NumberPattern::less_than_or_equal(5).to_string(), "<=5");
    assert_eq!(NumberPattern::nan().to_string(), "NaN");
}

#[test]
fn test_number_pattern_dcbor_integration() {
    let number_42_envelope = leaf_of(42);
    let number_100_envelope = leaf_of(100);
    let text_envelope = leaf_of("hello");
    let float_envelope = leaf_of(3.2222);
    let nan_envelope = leaf_of(f64::NAN);

    let any_pattern = NumberPattern::any();
    assert!(any_pattern.matches(&number_42_envelope));
    assert!(any_pattern.matches(&number_100_envelope));
    assert!(any_pattern.matches(&float_envelope));
    assert!(any_pattern.matches(&nan_envelope));
    assert!(!any_pattern.matches(&text_envelope));

    let exact_42_pattern = NumberPattern::exact(42);
    assert!(exact_42_pattern.matches(&number_42_envelope));
    assert!(!exact_42_pattern.matches(&number_100_envelope));
    assert!(!exact_42_pattern.matches(&text_envelope));

    let range_pattern = NumberPattern::range(40, 50);
    assert!(range_pattern.matches(&number_42_envelope));
    assert!(!range_pattern.matches(&number_100_envelope));
    assert!(!range_pattern.matches(&text_envelope));

    let gt_pattern = NumberPattern::greater_than(41);
    assert!(gt_pattern.matches(&number_42_envelope));
    assert!(gt_pattern.matches(&number_100_envelope));
    assert!(!gt_pattern.matches(&text_envelope));

    let gte_pattern = NumberPattern::greater_than_or_equal(42);
    assert!(gte_pattern.matches(&number_42_envelope));
    assert!(gte_pattern.matches(&number_100_envelope));
    assert!(!gte_pattern.matches(&text_envelope));

    let lt_pattern = NumberPattern::less_than(50);
    assert!(lt_pattern.matches(&number_42_envelope));
    assert!(!lt_pattern.matches(&number_100_envelope));
    assert!(!lt_pattern.matches(&text_envelope));

    let lte_pattern = NumberPattern::less_than_or_equal(42);
    assert!(lte_pattern.matches(&number_42_envelope));
    assert!(!lte_pattern.matches(&number_100_envelope));
    assert!(!lte_pattern.matches(&text_envelope));

    let nan_pattern = NumberPattern::nan();
    assert!(nan_pattern.matches(&nan_envelope));
    assert!(!nan_pattern.matches(&number_42_envelope));
    assert!(!nan_pattern.matches(&text_envelope));

    let paths = exact_42_pattern.paths(&number_42_envelope);
    assert_eq!(paths.len(), 1);
    assert_eq!(paths[0], vec![number_42_envelope.duplicate()]);

    assert_eq!(exact_42_pattern.paths(&number_100_envelope).len(), 0);
}

#[test]
fn test_number_pattern_paths_with_captures() {
    let number_envelope = leaf_of(42);
    let pattern = NumberPattern::exact(42);
    let (paths, captures) = pattern.paths_with_captures(&number_envelope);
    assert_eq!(paths.len(), 1);
    assert_eq!(paths[0], vec![number_envelope.duplicate()]);
    assert_eq!(captures.len(), 0);
}

#[test]
fn test_number_pattern_with_non_number_envelope() {
    let envelope = assertion_envelope();
    assert_eq!(NumberPattern::any().paths(&envelope).len(), 0);
}

#[test]
fn test_number_pattern_with_direct_cbor_values() {
    let int_envelope = leaf_of(parse_dcbor_item("42").unwrap());
    let float_envelope = leaf_of(parse_dcbor_item("3.14").unwrap());
    let negative_envelope = leaf_of(parse_dcbor_item("-10").unwrap());

    let any_pattern = NumberPattern::any();
    assert!(any_pattern.matches(&int_envelope));
    assert!(any_pattern.matches(&float_envelope));
    assert!(any_pattern.matches(&negative_envelope));

    let range_pattern = NumberPattern::range(-20, 50);
    assert!(range_pattern.matches(&int_envelope));
    assert!(range_pattern.matches(&float_envelope));
    assert!(range_pattern.matches(&negative_envelope));

    let narrow_range_pattern = NumberPattern::range(40, 45);
    assert!(narrow_range_pattern.matches(&int_envelope));
    assert!(!narrow_range_pattern.matches(&float_envelope));
    assert!(!narrow_range_pattern.matches(&negative_envelope));
}

// ---------------------------------------------------------------- tagged values

#[test]
fn test_tag_pattern_any() {
    bc_envelope::register_tags();
    let envelope = leaf_of(CBOR::to_tagged_value(100, "tagged_value"));
    let pattern = TaggedPattern::any();
    let paths = pattern.paths(&envelope);
    assert_eq!(paths.len(), 1);
    assert_eq!(paths[0], vec![envelope.duplicate()]);

    assert!(pattern.paths(&leaf_of("test")).is_empty());
}

#[test]
fn test_tag_pattern_value() {
    bc_envelope::register_tags();
    let envelope = leaf_of(CBOR::to_tagged_value(100, "tagged_value"));

    let pattern = TaggedPattern::with_tag_any(100);
    let paths = pattern.paths(&envelope);
    assert_eq!(paths.len(), 1);
    assert_eq!(paths[0], vec![envelope.duplicate()]);

    assert!(TaggedPattern::with_tag_any(200).paths(&envelope).is_empty());
}

#[test]
fn test_tag_pattern_named() {
    bc_envelope::register_tags();
    let envelope = leaf_of(CBOR::to_tagged_value(100, "tagged_content"));

    let pattern = TaggedPattern::with_tag_any(100);
    let paths = pattern.paths(&envelope);
    assert_eq!(paths.len(), 1);
    assert_eq!(paths[0], vec![envelope.duplicate()]);

    assert!(TaggedPattern::with_tag_any(200).paths(&envelope).is_empty());
    assert!(TaggedPattern::with_tag_any(100).paths(&leaf_of("test")).is_empty());
}

#[test]
fn test_tag_pattern_regex() {
    bc_envelope::register_tags();
    let envelope = leaf_of(CBOR::to_tagged_value(100, "tagged_content"));

    let pattern = TaggedPattern::with_regex_any(r".*");
    assert!(pattern.paths(&envelope).is_empty());

    let pattern = TaggedPattern::with_regex_any(r"^da.*");
    assert_eq!(pattern.to_string(), "tagged(/^da.*/, *)");

    let pattern = TaggedPattern::with_regex_any(r".*");
    assert!(pattern.paths(&leaf_of("test")).is_empty());
}

#[test]
fn test_tag_pattern_display() {
    bc_envelope::register_tags();
    assert_eq!(TaggedPattern::any().to_string(), "tagged");
    assert_eq!(TaggedPattern::with_tag_any(100).to_string(), "tagged(100, *)");
    assert_eq!(TaggedPattern::with_name_any("date").to_string(), "tagged(date, *)");
    assert_eq!(TaggedPattern::with_regex_any(r"^da.*").to_string(), "tagged(/^da.*/, *)");
}

// ---------------------------------------------------------------- text

#[test]
fn test_text_pattern_display() {
    assert_eq!(TextPattern::any().to_string(), "text");
    assert_eq!(TextPattern::value("Hello").to_string(), r#""Hello""#);
    assert_eq!(TextPattern::regex(r"^\d+$").to_string(), r#"/^\d+$/"#);
}

#[test]
fn test_text_pattern_dcbor_integration() {
    let hello_envelope = leaf_of("Hello");
    let world_envelope = leaf_of("World");
    let number_envelope = leaf_of(42);

    let any_pattern = TextPattern::any();
    assert!(any_pattern.matches(&hello_envelope));
    assert!(any_pattern.matches(&world_envelope));
    assert!(!any_pattern.matches(&number_envelope));

    let hello_pattern = TextPattern::value("Hello");
    assert!(hello_pattern.matches(&hello_envelope));
    assert!(!hello_pattern.matches(&world_envelope));
    assert!(!hello_pattern.matches(&number_envelope));

    let word_pattern = TextPattern::regex(r"^[A-Za-z]+$");
    assert!(word_pattern.matches(&hello_envelope));
    assert!(word_pattern.matches(&world_envelope));
    assert!(!word_pattern.matches(&number_envelope));

    let paths = hello_pattern.paths(&hello_envelope);
    assert_eq!(paths.len(), 1);
    assert_eq!(paths[0], vec![hello_envelope.duplicate()]);

    assert_eq!(hello_pattern.paths(&world_envelope).len(), 0);
}

#[test]
fn test_text_pattern_paths_with_captures() {
    let hello_envelope = leaf_of("Hello");
    let pattern = TextPattern::value("Hello");
    let (paths, captures) = pattern.paths_with_captures(&hello_envelope);
    assert_eq!(paths.len(), 1);
    assert_eq!(paths[0], vec![hello_envelope.duplicate()]);
    assert_eq!(captures.len(), 0);
}

#[test]
fn test_text_pattern_with_non_text_envelope() {
    let envelope = assertion_envelope();
    assert_eq!(TextPattern::any().paths(&envelope).len(), 0);
}
