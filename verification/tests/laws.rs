use bc_components::DigestProvider;
use bc_envelope::EnvelopeCase;
use dcbor::CBOREncodable;
use dcbor_pattern::Matcher;
use bc_envelope_pattern::{
    collect_capture_names, run_thread, start_thread, Greediness, Instr, Interval, Program, RangeBound,
    WrappedPattern,
    Repeat, RepeatRange,
    repeat_paths_exec, Axis, EdgeType, ByteStringPattern, CBORPattern, DigestPattern, Envelope, KnownValuePattern,
    LeafPattern, NumberPattern, Pattern, Quantifier, Reluctance, SearchPattern, SequencePattern, TextPattern,
    TraversePattern,
};

/// The name the known-values registry gives `value`, or its own name.
fn registry_name_of(value: &bc_envelope::KnownValue) -> String {
    match bc_envelope::KNOWN_VALUES.get().as_ref() {
        Some(store) => store.name(value.clone()),
        None => value.name(),
    }
}

/// The library's view of a Gordian Envelope.
fn view_of(e: &bc_envelope::Envelope) -> Envelope {
    let digest = e.digest().data().to_vec();
    match e.case() {
        EnvelopeCase::Node { subject, assertions, .. } => Envelope::Node {
            subject: Box::new(view_of(subject)),
            assertions: assertions.iter().map(view_of).collect(),
            digest,
        },
        EnvelopeCase::Leaf { cbor, .. } => Envelope::Leaf { cbor: cbor.to_cbor_data(), digest },
        EnvelopeCase::Wrapped { envelope, .. } => {
            Envelope::Wrapped { envelope: Box::new(view_of(envelope)), digest }
        }
        EnvelopeCase::Assertion(a) => Envelope::Assertion {
            predicate: Box::new(view_of(&a.predicate())),
            object: Box::new(view_of(&a.object())),
            digest,
        },
        EnvelopeCase::Elided(_) => Envelope::Elided { digest },
        EnvelopeCase::KnownValue { value, .. } => Envelope::KnownValue {
            value: value.value(),
            name: registry_name_of(value),
            digest,
        },
        EnvelopeCase::Encrypted(_) => Envelope::Encrypted { digest },
        EnvelopeCase::Compressed(_) => Envelope::Compressed { digest },
    }
}

fn value<T: bc_envelope::EnvelopeEncodable>(v: T) -> Envelope {
    view_of(&bc_envelope::Envelope::new(v))
}

fn samples() -> Vec<Envelope> {
    vec![
        value(42),
        value("hi"),
        value(true),
        view_of(&bc_envelope::Envelope::new("Alice").add_assertion("knows", "Bob")),
        view_of(&bc_envelope::Envelope::new_assertion("key", "value")),
        view_of(&bc_envelope::Envelope::new("x").wrap()),
        view_of(&bc_envelope::Envelope::new("secret").elide()),
    ]
}

#[test]
fn whole_pattern_matches_like_its_single_test() {
    for env in samples() {
        assert_eq!(Pattern::any_number().paths(&env), NumberPattern::any().paths(&env));
        assert_eq!(Pattern::text("hi").paths(&env), TextPattern::value("hi").paths(&env));
        assert_eq!(Pattern::leaf().matches(&env), env.is_leaf() || env.is_known_value());
    }
}

#[test]
fn any_matches_everything_none_nothing() {
    for env in samples() {
        assert_eq!(Pattern::any().paths(&env), vec![vec![env.duplicate()]]);
        assert!(Pattern::none().paths(&env).is_empty());
        assert!(!Pattern::none().matches(&env));
    }
}

#[test]
fn negation_matches_when_inner_does_not() {
    let forty_two = value(42);
    let hi = value("hi");
    let not_hi = Pattern::not_matching(Pattern::text("hi"));
    assert_eq!(not_hi.paths(&forty_two), vec![vec![forty_two.duplicate()]]);
    assert!(not_hi.paths(&hi).is_empty());
    for env in samples() {
        assert_eq!(not_hi.matches(&env), !Pattern::text("hi").matches(&env));
    }
}

#[test]
fn matching_is_finding_a_path() {
    let patterns = vec![
        Pattern::any_number(),
        Pattern::any_subject(),
        Pattern::any_assertion(),
        Pattern::wrapped(),
        Pattern::unwrap(),
        Pattern::elided(),
        Pattern::search(Pattern::text("Bob")),
        Pattern::traverse(vec![Pattern::any_node(), Pattern::any_subject()]),
    ];
    for p in patterns.iter() {
        for env in samples() {
            assert_eq!(p.matches(&env), !p.paths(&env).is_empty());
        }
    }
}

#[test]
fn capture_names_come_from_the_pattern() {
    let envelope = value(42);
    let pattern = Pattern::capture("my_number", Pattern::number(42));
    assert!(pattern.matches(&envelope));
    let (paths, captures) = pattern.paths_with_captures(&envelope);
    assert_eq!(paths.len(), 1);
    assert_eq!(captures.len(), 1);
    assert_eq!(captures[0].0, "my_number");
    assert_eq!(captures[0].1.len(), 1);
    assert_eq!(captures[0].1[0], vec![envelope.duplicate()]);

    let nothing = Pattern::capture("my_number", Pattern::number(7));
    let (paths, captures) = nothing.paths_with_captures(&envelope);
    assert!(paths.is_empty());
    assert!(captures.iter().all(|(name, _)| name == "my_number"));
}

#[test]
fn traversal_and_sequence_keep_their_parts() {
    let parts = || vec![Pattern::any_subject(), Pattern::wrapped(), Pattern::number(1)];
    let t = TraversePattern::new(parts());
    let expected = parts();
    let got = t.patterns();
    assert_eq!(got.len(), expected.len());
    for (a, b) in got.iter().zip(expected.iter()) {
        assert_eq!(*a, b);
    }
    let s = SequencePattern::new(parts());
    let got = s.patterns();
    assert_eq!(got.len(), expected.len());
    for (a, b) in got.iter().zip(expected.iter()) {
        assert_eq!(*a, b);
    }
}

#[test]
fn alternation_matches_when_an_alternative_does() {
    let either = Pattern::or(vec![Pattern::number(42), Pattern::text("hi")]);
    let forty_two = value(42);
    assert_eq!(either.paths(&forty_two), vec![vec![forty_two.duplicate()]]);
    let hi = value("hi");
    assert_eq!(either.paths(&hi), vec![vec![hi.duplicate()]]);
    assert!(!either.matches(&value(true)));
    for env in samples() {
        assert_eq!(
            either.matches(&env),
            Pattern::number(42).matches(&env) || Pattern::text("hi").matches(&env)
        );
    }
}

#[test]
fn alternation_yields_every_alternatives_paths() {
    let env = value(42);
    let both = Pattern::or(vec![Pattern::any(), Pattern::any_number(), Pattern::text("no")]);
    assert_eq!(both.paths(&env), vec![vec![env.duplicate()], vec![env.duplicate()]]);
}

#[test]
fn conjunction_matches_when_every_part_does() {
    let big_number = Pattern::and(vec![Pattern::any_number(), Pattern::number_greater_than(10)]);
    let forty_two = value(42);
    assert_eq!(big_number.paths(&forty_two), vec![vec![forty_two.duplicate()]]);
    assert!(!big_number.matches(&value(5)));
    assert!(!big_number.matches(&value("hi")));
    for env in samples() {
        assert_eq!(
            big_number.matches(&env),
            Pattern::any_number().matches(&env) && Pattern::number_greater_than(10).matches(&env)
        );
    }
    let everything = Pattern::and(vec![]);
    for env in samples() {
        assert_eq!(everything.paths(&env), vec![vec![env.duplicate()]]);
    }
}

#[test]
fn alternation_counts_each_alternative() {
    let env = view_of(&bc_envelope::Envelope::new("Alice").add_assertion("knows", "Bob"));
    let either = Pattern::or(vec![Pattern::any_node(), Pattern::any()]);
    let paths = either.paths(&env);
    assert_eq!(paths.len(), 2);
    assert_eq!(paths[0], vec![env.duplicate()]);
    assert_eq!(paths[1], vec![env.duplicate()]);
}

#[test]
fn search_matches_where_its_pattern_matches_within() {
    let alice = view_of(&bc_envelope::Envelope::new("Alice").add_assertion("knows", "Bob"));
    let find_bob = Pattern::search(Pattern::text("Bob"));
    assert!(find_bob.matches(&alice));
    assert!(!find_bob.matches(&value(42)));
    assert!(Pattern::search(Pattern::number(42)).matches(&value(42)));
    let direct = SearchPattern::new(Pattern::text("Bob"));
    for env in samples() {
        assert_eq!(find_bob.matches(&env), direct.matches(&env));
        assert_eq!(
            Pattern::search(Pattern::any_number()).matches(&env),
            SearchPattern::new(Pattern::any_number()).matches(&env)
        );
    }
    let wrapped = view_of(&bc_envelope::Envelope::new("Bob").wrap());
    assert!(find_bob.matches(&wrapped));
}

#[test]
fn repetition_allowing_zero_rounds_matches_everything() {
    for env in samples() {
        let lazy = Pattern::repeat(Pattern::text("zzz"), 0, None, Reluctance::Lazy);
        assert_eq!(lazy.paths(&env), vec![vec![env.duplicate()]]);
        let greedy = Pattern::repeat(Pattern::any_subject(), 0, Some(3), Reluctance::Greedy);
        assert!(greedy.matches(&env));
        let possessive = Pattern::repeat(Pattern::unwrap(), 0, None, Reluctance::Possessive);
        assert!(possessive.matches(&env));
    }
    let at_least_one = Pattern::repeat(Pattern::text("zzz"), 1, None, Reluctance::Greedy);
    assert!(!at_least_one.matches(&value(42)));
}

#[test]
fn subject_pattern_reaches_the_subject() {
    let alice = view_of(&bc_envelope::Envelope::new("Alice").add_assertion("knows", "Bob"));
    let subject = value("Alice");
    let p = Pattern::subject(Pattern::text("Alice"));
    assert_eq!(p.paths(&alice), vec![vec![alice.duplicate(), subject.duplicate()]]);
    assert_eq!(p.paths(&subject), vec![vec![subject.duplicate()]]);
    assert!(!p.matches(&value(42)));
    assert!(!Pattern::subject(Pattern::text("Bob")).matches(&alice));
}

fn nested_wraps() -> (Envelope, Envelope, Envelope) {
    let e1 = bc_envelope::Envelope::new(42);
    let e2 = e1.wrap();
    let e3 = e2.wrap();
    (view_of(&e1), view_of(&e2), view_of(&e3))
}

#[test]
fn greedy_repetition_backs_off_to_zero() {
    let (e1, e2, e3) = nested_wraps();
    let q = Quantifier::new(0, None, Reluctance::Greedy);
    let r = repeat_paths_exec(&Pattern::unwrap(), &e3, &vec![e3.duplicate()], q);
    let expected = vec![
        (e1.duplicate(), vec![e3.duplicate(), e2.duplicate(), e1.duplicate()]),
        (e2.duplicate(), vec![e3.duplicate(), e2.duplicate()]),
        (e3.duplicate(), vec![e3.duplicate()]),
    ];
    assert_eq!(r, expected);
}

#[test]
fn possessive_repetition_takes_only_the_most() {
    let (e1, e2, e3) = nested_wraps();
    let q = Quantifier::new(0, None, Reluctance::Possessive);
    let r = repeat_paths_exec(&Pattern::unwrap(), &e3, &vec![e3.duplicate()], q);
    assert_eq!(r, vec![(e1.duplicate(), vec![e3.duplicate(), e2.duplicate(), e1.duplicate()])]);
    let lazy = Quantifier::new(0, None, Reluctance::Lazy);
    let r = repeat_paths_exec(&Pattern::unwrap(), &e3, &vec![e3.duplicate()], lazy);
    assert_eq!(r[0], (e3.duplicate(), vec![e3.duplicate()]));
    assert_eq!(r.len(), 3);
    let none_possible = Quantifier::new(0, None, Reluctance::Possessive);
    let r = repeat_paths_exec(&Pattern::unwrap(), &e1, &vec![e1.duplicate()], none_possible);
    assert_eq!(r, vec![(e1.duplicate(), vec![e1.duplicate()])]);
}

#[test]
fn any_leaf_matches_leaves_and_known_values() {
    let any_leaf = Pattern::Leaf(LeafPattern::Any);
    assert_eq!(any_leaf.to_string(), "LEAF");
    let forty_two = value(42);
    assert_eq!(any_leaf.paths(&forty_two), vec![vec![forty_two.duplicate()]]);
    let known = value(known_values::DATE);
    assert_eq!(any_leaf.paths(&known), vec![vec![known.duplicate()]]);
    let node = view_of(&bc_envelope::Envelope::new("Alice").add_assertion("knows", "Bob"));
    assert!(any_leaf.paths(&node).is_empty());
    let (paths, captures) = LeafPattern::Any.paths_with_captures(&forty_two);
    assert_eq!(paths, vec![vec![forty_two.duplicate()]]);
    assert!(captures.is_empty());
}

#[test]
fn digest_prefix_ignores_ascii_case() {
    let mut found = false;
    for i in 0..2000 {
        let env = value(i);
        let d = env.digest().clone();
        if d[0].is_ascii_alphabetic() {
            let flipped = vec![d[0] ^ 0x20];
            assert!(DigestPattern::prefix(&flipped).matches(&env));
            assert!(Pattern::digest_prefix(&flipped).matches(&env));
            assert!(DigestPattern::prefix(&d[..1]).matches(&env));
            found = true;
            break;
        }
    }
    assert!(found);
    assert_eq!(DigestPattern::prefix(b"AbC"), DigestPattern::prefix(b"aBc"));
    assert_ne!(DigestPattern::prefix(b"AbC"), DigestPattern::prefix(b"aBd"));
    assert_ne!(DigestPattern::prefix(b"ab"), DigestPattern::digest(b"ab"));
}

#[test]
fn known_value_names_are_read_from_the_element() {
    let date = value(known_values::DATE);
    assert!(KnownValuePattern::named("date").matches(&date));
    assert!(KnownValuePattern::regex("^da").matches(&date));
    assert!(KnownValuePattern::value(16, "date").matches(&date));
    assert!(!KnownValuePattern::value(12, "language").matches(&date));
    let renamed = Envelope::KnownValue { value: 16, name: "when".to_string(), digest: date.digest().clone() };
    assert!(KnownValuePattern::named("when").matches(&renamed));
    assert!(!KnownValuePattern::named("date").matches(&renamed));
}

#[test]
fn known_value_literals_match_on_known_values() {
    let date = value(known_values::DATE);
    assert!(CBORPattern::pattern("known").matches(&date));
    assert!(CBORPattern::pattern("'16'").matches(&date));
    assert!(CBORPattern::pattern("'+16'").matches(&date));
    assert!(CBORPattern::pattern("'016'").matches(&date));
    assert!(CBORPattern::pattern("'date'").matches(&date));
    assert!(CBORPattern::pattern("'/da/'").matches(&date));
    assert!(CBORPattern::pattern("'language' | 'date'").matches(&date));
    assert!(!CBORPattern::pattern("'12'").matches(&date));
    assert!(!CBORPattern::pattern("'language'").matches(&date));
    assert!(!CBORPattern::pattern("'/^x/'").matches(&date));
    assert!(!CBORPattern::pattern("'/(/' | known").matches(&date));
    assert!(!CBORPattern::pattern("'16").matches(&date));
    assert!(CBORPattern::pattern("!'language'").matches(&date));
    let renamed = Envelope::KnownValue { value: 16, name: "when".to_string(), digest: date.digest().clone() };
    assert!(CBORPattern::pattern("'when'").matches(&renamed));
    assert!(!CBORPattern::pattern("'date'").matches(&renamed));
    let zero = Envelope::KnownValue { value: 0, name: "zero".to_string(), digest: date.digest().clone() };
    assert!(CBORPattern::pattern("'zero'").matches(&zero));
    assert!(!CBORPattern::pattern("'one'").matches(&zero));
    assert!(TextPattern::value("it's").matches(&value("it's")));
    assert!(ByteStringPattern::value(&[1, 2]).matches(&value(dcbor::CBOR::to_byte_string(vec![1u8, 2]))));
}

#[test]
fn known_value_literals_agree_with_dcbor_pattern() {
    for kv in [known_values::DATE, known_values::IS_A, known_values::NOTE, bc_envelope::KnownValue::new(0)] {
        let env = value(kv.clone());
        let cbor = kv.to_cbor();
        for expr in [
            "'16'", "'1'", "'date'", "'isA'", "'note'", "'/^is/'", "'/e$/'", "'nothing'", "known",
            "'date' | 'isA'", "!'date'", "'/[/'", "tagged(40000, number)",
        ] {
            let expected = dcbor_pattern::Pattern::parse(expr).map(|p| p.matches(&cbor)).unwrap_or(false);
            assert_eq!(CBORPattern::pattern(expr).matches(&env), expected, "{expr} on {kv:?}");
        }
    }
}

#[test]
fn known_value_literals_on_leaves() {
    let n = value(42);
    assert!(CBORPattern::pattern("'date' | number").matches(&n));
    assert!(!CBORPattern::pattern("'date'").matches(&n));
    assert!(!CBORPattern::pattern("'/(/' | number").matches(&n));
    let list = value(dcbor::CBOR::from(vec![known_values::DATE.to_cbor()]));
    assert!(CBORPattern::pattern("['16']").matches(&list));
    assert!(!CBORPattern::pattern("['12']").matches(&list));
}

#[test]
fn text_regex_with_slashes_matches() {
    assert!(TextPattern::regex("a/b").matches(&value("xa/by")));
    assert!(!TextPattern::regex("a/b").matches(&value("ab")));
    assert!(TextPattern::regex(r"a\/b").matches(&value("a/b")));
    assert_eq!(TextPattern::regex("a/b").to_string(), r"/a\/b/");
}

#[test]
fn known_values_are_encoded_as_dcbor_does() {
    for v in [0u64, 1, 23, 24, 255, 256, 40000, 65535, 65536, 0xffff_ffff, 0x1_0000_0000, u64::MAX] {
        let kv = bc_envelope::KnownValue::new(v);
        let env = value(kv.clone());
        assert!(CBORPattern::value(&kv.to_cbor_data()).matches(&env));
        assert!(!CBORPattern::value(&bc_envelope::KnownValue::new(v ^ 1).to_cbor_data()).matches(&env));
    }
}

#[test]
fn axis_children_carry_their_edges() {
    let alice = view_of(&bc_envelope::Envelope::new("Alice").add_assertion("knows", "Bob"));
    let subject = Axis::Subject.children(&alice);
    assert_eq!(subject.len(), 1);
    assert_eq!(subject[0].0, value("Alice"));
    assert_eq!(subject[0].1, EdgeType::Subject);
    let assertions = Axis::Assertion.children(&alice);
    assert_eq!(assertions.len(), 1);
    assert_eq!(assertions[0].1, EdgeType::Assertion);
    let wrapped = view_of(&bc_envelope::Envelope::new("x").wrap());
    let content = Axis::Wrapped.children(&wrapped);
    assert_eq!(content.len(), 1);
    assert_eq!(content[0].0, value("x"));
    assert_eq!(content[0].1, EdgeType::Content);
    assert!(Axis::Predicate.children(&alice).is_empty());
}

#[test]
fn ranges_convert_to_inclusive_intervals() {
    assert_eq!(Repeat::from_bounds(RangeBound::Included(1), RangeBound::Excluded(5)), Repeat::new(1, Some(4)));
    assert_eq!(Repeat::from_bounds(RangeBound::Included(1), RangeBound::Included(4)), Repeat::new(1, Some(4)));
    assert_eq!(Repeat::from_bounds(RangeBound::Excluded(0), RangeBound::Unbounded), Repeat::new(1, None));
    assert_eq!(Repeat::from_bounds(RangeBound::Unbounded, RangeBound::Excluded(1)), Repeat::new(0, Some(0)));
    let q = Quantifier::from_bounds(RangeBound::Included(2), RangeBound::Unbounded, Reluctance::Possessive);
    assert_eq!(q.min(), 2);
    assert_eq!(q.max(), None);
    assert_eq!(q.to_string(), "{2,}+");
    let iv = Interval::from_bounds(RangeBound::Excluded(2), RangeBound::Excluded(6));
    assert_eq!((iv.min(), iv.max()), (3, Some(5)));
    let rr = RepeatRange::from_bounds(RangeBound::Included(3), RangeBound::Included(3), Greediness::Lazy);
    assert_eq!(rr.to_string(), RepeatRange::new(3, Some(3), Greediness::Lazy).to_string());
}

#[test]
fn cbor_paths_start_at_the_envelope() {
    let alice = view_of(&bc_envelope::Envelope::new("Alice").add_assertion("knows", "Bob"));
    let (paths, caps) = CBORPattern::pattern("@name(text)").paths_with_captures(&alice);
    assert_eq!(paths.len(), 1);
    assert_eq!(paths[0][0], alice);
    assert_eq!(caps.len(), 1);
    assert!(caps[0].1.iter().all(|p| p[0] == alice));
    let (none, no_caps) = CBORPattern::pattern("@name(number)").paths_with_captures(&alice);
    assert!(none.is_empty() && no_caps.is_empty());
    let wrapped = view_of(&bc_envelope::Envelope::new("x").wrap());
    assert!(CBORPattern::any().paths(&wrapped).is_empty());
    let all = CBORPattern::any().paths(&alice);
    assert_eq!(all.len(), 1);
    assert_eq!(all[0].len(), 1);
    assert_eq!(all[0][0], alice);
    assert_eq!(CBORPattern::any().paths(&value(known_values::DATE)), vec![vec![value(known_values::DATE)]]);
}

#[test]
fn capture_names_may_stand_apart_from_their_parentheses() {
    let n = value(42);
    let (paths, caps) = CBORPattern::pattern("@num (number)").paths_with_captures(&n);
    assert_eq!(paths.len(), 1);
    assert_eq!(caps.len(), 1);
    assert_eq!(caps[0].0, "num");
}

#[test]
fn capture_names_are_exactly_those_within() {
    let p = Pattern::and(vec![
        Pattern::capture("a", Pattern::any()),
        Pattern::or(vec![
            Pattern::capture("b", Pattern::capture("a", Pattern::text("x"))),
            Pattern::cbor_pattern("@c(number) | @d (text)"),
        ]),
        Pattern::subject(Pattern::capture("e", Pattern::any())),
    ]);
    let mut out = vec!["z".to_string(), "b".to_string()];
    collect_capture_names(&p, &mut out);
    assert_eq!(out, vec!["z", "b", "a", "c", "d", "e"]);
}

#[test]
fn running_a_thread_only_appends() {
    let alice = view_of(&bc_envelope::Envelope::new("Alice").add_assertion("knows", "Bob"));
    let p = Pattern::or(vec![Pattern::any_subject(), Pattern::any_assertion()]);
    let prog = Program::compile(&p);
    let mut out = Vec::new();
    assert!(run_thread(&prog, start_thread(&prog, &alice), &mut out));
    let first = out.len();
    assert!(first > 0);
    let before: Vec<usize> = out.iter().map(|o| o.0.len()).collect();
    assert!(run_thread(&prog, start_thread(&prog, &alice), &mut out));
    assert_eq!(out.len(), 2 * first);
    let after: Vec<usize> = out.iter().take(first).map(|o| o.0.len()).collect();
    assert_eq!(before, after);
    let nothing = Pattern::none();
    let none = Program::compile(&nothing);
    let mut kept = Vec::new();
    assert!(!run_thread(&none, start_thread(&none, &alice), &mut kept));
    assert!(kept.is_empty());
}

#[test]
fn compiling_a_capture_wraps_its_pattern() {
    let inner = Pattern::or(vec![Pattern::text("a"), Pattern::text("b")]);
    let p = Pattern::capture("x", Pattern::or(vec![Pattern::text("a"), Pattern::text("b")]));
    let prog = Program::compile(&p);
    let plain = Program::compile(&inner);
    let n = prog.code.len();
    assert_eq!(n, plain.code.len() + 2);
    assert!(matches!(prog.code[0], Instr::CaptureStart(0)));
    assert!(matches!(prog.code[n - 2], Instr::CaptureEnd(0)));
    assert!(matches!(prog.code[n - 1], Instr::Accept));
    assert_eq!(prog.capture_names, vec!["x".to_string()]);
    assert_eq!(prog.literals.len(), plain.literals.len());
}

#[test]
fn unwrapping_prefixes_the_inner_paths() {
    let wrapped = view_of(&bc_envelope::Envelope::new("x").wrap());
    let paths = WrappedPattern::unwrap_matching(Pattern::text("x")).paths(&wrapped);
    assert_eq!(paths.len(), 1);
    assert_eq!(paths[0].len(), 2);
    assert_eq!(paths[0][0], wrapped);
    assert_eq!(paths[0][1], value("x"));
    let any = WrappedPattern::new().paths(&wrapped);
    assert_eq!(any.len(), 1);
    assert_eq!(any[0].len(), 1);
    assert!(WrappedPattern::new().paths(&value("x")).is_empty());
    assert!(WrappedPattern::unwrap_matching(Pattern::text("y")).paths(&wrapped).is_empty());
}

#[test]
fn dcbor_patterns_read_back_as_printed() {
    for expr in [
        "number", "'16'", "'date'", "'/^da/'", "[{2}]", "{\"a\": text}", "tagged(1, number)",
        "@n(number) | text", "search(>5)", "h'0102'", "date'2023-01-01'", "[*, 42, (text)*]",
    ] {
        let parsed = dcbor_pattern::Pattern::parse(expr).unwrap();
        let again = dcbor_pattern::Pattern::parse(&parsed.to_string()).unwrap();
        assert_eq!(parsed, again, "{expr}");
        assert_eq!(parsed.to_string(), again.to_string(), "{expr}");
    }
}
