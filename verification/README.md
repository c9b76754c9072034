# bc-envelope-pattern

Pattern matching over Gordian Envelope trees, verified with Verus.

A pattern matches sequential elements of an envelope tree, so one pattern can
match several paths from the root. `Pattern::paths` returns them,
`Pattern::paths_with_captures` also returns the paths bound to each named
capture, and `Pattern::matches` tells whether there is any.

## Layout

- `src/` — the verified library.
  - `pattern.rs`: the pattern types; `constructors.rs`: how they are built.
  - `envelope.rs`: the envelope tree as the matcher reads it (case, children,
    leaf CBOR, known-value number, digest of each element).
  - `semantics.rs`: the mathematical model: the compiler, the backtracking
    machine and the direct matchers as spec functions.
  - `compile.rs`, `engine.rs`: the executable compiler and machine, proved to
    compute exactly the model.
  - `leaf.rs`, `meta.rs`: direct matchers of leaf, structure and meta patterns.
  - `display.rs`: the text rendering of patterns.
  - `dcbor_integration.rs`: turning dcbor-pattern patterns into envelope
    patterns.
  - `dcbor.rs`, `text.rs`: the calls into dcbor, dcbor-pattern, regex, hex
    and bc-components, each with the contract it is trusted to meet.
  - `expression.rs`: resolving the named and regular-expression known-value
    literals of dcbor-pattern expressions to numbers against the haystack, so
    that matching reads no known-value registry; `known_value.rs`: the dCBOR
    encoding of a known value.
  - `laws.rs`, `alternation.rs`, `capturing.rs`, `conjunction.rs`,
    `searching.rs`, `repetition.rs`, `subject_law.rs`, `compiling.rs`,
    `assertions_law.rs`, `machine_law.rs`, `leaf_law.rs`: properties
    of the library as a whole, proved.
- `tests/` — tests against real envelopes from `bc-envelope`.
- `app/` — conversion between `bc-envelope`/`dcbor-pattern` values and the
  library's own, and matching on real envelopes.
