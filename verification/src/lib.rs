//! Pattern matching over Gordian Envelope trees.
mod compile;
pub mod compiling;
mod constructors;
mod dcbor;
pub mod dcbor_integration;
mod display;
mod engine;
mod envelope;
mod expression;
mod interval;
mod known_value;
pub mod alternation;
pub mod assertions_law;
pub mod capturing;
pub mod conjunction;
pub mod laws;
pub mod leaf_law;
pub mod machine_law;
mod leaf;
mod meta;
mod paths;
mod pattern;
mod quantifier;
pub mod rendering;
pub mod repetition;
pub mod searching;
mod repeat;
mod semantics;
pub mod subject_law;
mod text;

pub use interval::{
    bounds_fit, bounds_interval, interval_contains, interval_of_bounds, range_notation_spec,
    shorthand_notation_spec, Interval, RangeBound,
};
pub use text::{decimal, digit_char, hex_digit, hex_spec, join};
pub use quantifier::{quantifier_text, reluctance_suffix, Quantifier, Reluctance};
pub use repeat::{greediness_modifier, Greediness, Repeat, RepeatRange};

pub use compile::{collect_capture_names, Instr, Literal, Program};
pub use display::{is_complex_spec, pattern_text};
pub use engine::{
    run, run_results, run_thread, start_thread, EdgeType, Out, Thread, atomic_paths_with_captures, pattern_paths_with_captures, repeat_paths_exec, structure_paths,
};
pub use envelope::{Envelope, EnvelopeModel};
pub use leaf::leaf_paths_with_captures;
pub use paths::{Captures, Path};
pub use pattern::{
    AndPattern, AnyPattern, ArrayPattern, AssertionsPattern, BoolPattern, ByteStringPattern,
    CBORPattern, CapturePattern, DatePattern, DigestPattern, GroupPattern, KnownValuePattern,
    LeafPattern, LeafStructurePattern, MapPattern, MetaPattern, NodePattern, NonePattern,
    NotPattern, NullPattern, NumberPattern, ObjectPattern, ObscuredPattern, OrPattern, Pattern,
    PredicatePattern, SearchPattern, SequencePattern, StructurePattern, SubjectPattern,
    TaggedPattern, TextPattern, TraversePattern, WrappedPattern,
};
pub use semantics::{pattern_matches, pattern_results, Axis};
pub use dcbor_integration::{
    convert_dcbor_pattern_to_envelope_pattern, DCBORMetaPattern, DCBORPattern,
    DCBORStructurePattern, DCBORValuePattern,
};
