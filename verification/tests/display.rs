use bc_components::DigestProvider;
use bc_envelope_pattern::{
    AndPattern, DigestPattern, Greediness, NodePattern, Pattern, Quantifier, Reluctance, Repeat, RepeatRange,
    SearchPattern, SequencePattern,
};

#[test]
fn test_and_pattern_display() {
    let pattern1 = Pattern::number_greater_than(5);
    let pattern2 = Pattern::number_less_than(10);
    let and_pattern = AndPattern::new(vec![pattern1, pattern2]);
    assert_eq!(and_pattern.to_string(), ">5 & <10");
}

#[test]
fn test_search_pattern_display() {
    let pattern = SearchPattern::new(Pattern::text("test"));
    assert_eq!(pattern.to_string(), r#"SEARCH(TEXT("test"))"#);
}

#[test]
fn test_sequence_pattern_display() {
    let pattern1 = Pattern::wrapped();
    let pattern2 = Pattern::wrapped();
    let sequence_pattern = SequencePattern::new(vec![pattern1, pattern2]);
    assert_eq!(sequence_pattern.to_string(), "WRAPPED>WRAPPED");
}

#[test]
fn test_node_pattern_display() {
    let any_pattern = NodePattern::any();
    assert_eq!(any_pattern.to_string(), "NODE");

    let count_pattern = NodePattern::interval(1, Some(3));
    assert_eq!(count_pattern.to_string(), "NODE({1,3})");
}

#[test]
fn test_quantifier_display() {
    assert_eq!(Quantifier::new(1, Some(5), Reluctance::Greedy).to_string(), "{1,5}");
    assert_eq!(Quantifier::new(3, Some(3), Reluctance::Lazy).to_string(), "{3}?");
    assert_eq!(Quantifier::new(2, None, Reluctance::Possessive).to_string(), "{2,}+");
    assert_eq!(Quantifier::new(0, None, Reluctance::Greedy).to_string(), "*");
    assert_eq!(Quantifier::new(0, None, Reluctance::Lazy).to_string(), "*?");
    assert_eq!(Quantifier::new(0, None, Reluctance::Possessive).to_string(), "*+");
    assert_eq!(Quantifier::new(1, None, Reluctance::Greedy).to_string(), "+");
    assert_eq!(Quantifier::new(1, None, Reluctance::Lazy).to_string(), "+?");
    assert_eq!(Quantifier::new(1, None, Reluctance::Possessive).to_string(), "++");
    assert_eq!(Quantifier::new(0, Some(1), Reluctance::Greedy).to_string(), "?");
    assert_eq!(Quantifier::new(0, Some(1), Reluctance::Lazy).to_string(), "??");
    assert_eq!(Quantifier::new(0, Some(1), Reluctance::Possessive).to_string(), "?+");
}

#[test]
fn test_repeat_display() {
    let repeat = Repeat::new(1, Some(5));
    assert_eq!(repeat.to_string(), "{1,5}");

    let repeat = Repeat::new(3, Some(3));
    assert_eq!(repeat.to_string(), "{3}");

    let repeat = Repeat::new(2, None);
    assert_eq!(repeat.to_string(), "{2,}");
}

#[test]
fn test_repeat_range_display() {
    let repeat_range = RepeatRange::new(1, Some(5), Greediness::Greedy);
    assert_eq!(repeat_range.to_string(), "{1,5}");

    let repeat_range = RepeatRange::new(3, Some(3), Greediness::Lazy);
    assert_eq!(repeat_range.to_string(), "{3}?");

    let repeat_range = RepeatRange::new(2, None, Greediness::Possessive);
    assert_eq!(repeat_range.to_string(), "{2,}+");
}

#[test]
fn capture_and_group_rendering() {
    let p = Pattern::capture("num", Pattern::any_number());
    assert_eq!(p.to_string(), "@num(number)");
    let g = Pattern::repeat(Pattern::wrapped(), 0, None, Reluctance::Lazy);
    assert_eq!(g.to_string(), "(WRAPPED)*?");
    let t = Pattern::traverse(vec![Pattern::any_subject(), Pattern::any_predicate()]);
    assert_eq!(t.to_string(), "subj -> pred");
    assert!(t.is_complex());
    let n = Pattern::not_matching(Pattern::or(vec![Pattern::null(), Pattern::any_bool()]));
    assert_eq!(n.to_string(), "!(null | bool)");
    assert!(!Pattern::leaf().is_complex());
}

#[test]
fn structure_rendering() {
    assert_eq!(Pattern::assertion_with_predicate(Pattern::text("a")).to_string(), r#"assertpred(TEXT("a"))"#);
    assert_eq!(Pattern::unwrap().to_string(), "unwrap");
    assert_eq!(Pattern::unwrap_matching(Pattern::null()).to_string(), "unwrap(null)");
    assert_eq!(Pattern::digest_prefix(&[0x74, 0x65, 0x73]).to_string(), "DIGEST(746573)");
    assert_eq!(Pattern::node_with_assertions_range(2, None).to_string(), "NODE({2,})");
    assert_eq!(Pattern::elided().to_string(), "elided");
    assert_eq!(Pattern::number_range(-3, 7).to_string(), "-3...7");
    assert_eq!(Pattern::array_with_count(2).to_string(), "[{2}]");
    assert_eq!(Pattern::map_with_range(1, Some(4)).to_string(), "{{1,4}}");
    assert_eq!(Pattern::tagged(100, "number").to_string(), "tagged(100, number)");
    assert_eq!(Pattern::byte_string(&[0xab, 0x01]).to_string(), "h'ab01'");
    assert_eq!(Pattern::known_value(1, "isA").to_string(), "KNOWN('isA')");
    assert_eq!(Pattern::any_known_value().to_string(), "KNOWN");
    assert_eq!(Pattern::any_map().to_string(), "{*}");
    assert_eq!(Pattern::text("a\"b").to_string(), r#"TEXT("a\"b")"#);
}

#[test]
fn test_digest_pattern_display() {
    let data: &[u8] = b"test";
    let digest = data.digest();
    let pattern = DigestPattern::digest(digest.data());
    assert_eq!(pattern.to_string(), format!("DIGEST({})", digest));
    let prefix = vec![0x74u8, 0x65, 0x73];
    let pattern = DigestPattern::prefix(&prefix);
    assert_eq!(pattern.to_string(), format!("DIGEST({})", hex::encode(&prefix)));
    let regex = regex::bytes::Regex::new(r"^te.*").unwrap();
    let pattern = DigestPattern::binary_regex(regex.as_str());
    assert_eq!(pattern.to_string(), format!("DIGEST(/{}/)", regex));
}
