//! What the text rendering of patterns keeps apart.
use vstd::prelude::*;

use crate::display::pattern_text;
use crate::pattern::{ObscuredPattern, Pattern, StructurePattern};

verus! {

/// Different obscured-element patterns render differently, so the text of
/// one is never that of another; the pattern for any obscured element
/// renders as `obscured`.
pub proof fn law_obscured_patterns_render_apart(a: ObscuredPattern, b: ObscuredPattern)
    ensures
        a != b ==> pattern_text(Pattern::Structure(StructurePattern::Obscured(a))) != pattern_text(
            Pattern::Structure(StructurePattern::Obscured(b)),
        ),
        pattern_text(Pattern::Structure(StructurePattern::Obscured(ObscuredPattern::Any)))
            == "obscured"@,
{
    reveal_strlit("obscured");
    reveal_strlit("elided");
    reveal_strlit("encrypted");
    reveal_strlit("compressed");
    let ta = pattern_text(Pattern::Structure(StructurePattern::Obscured(a)));
    let tb = pattern_text(Pattern::Structure(StructurePattern::Obscured(b)));
    if a != b {
        if ta.len() == tb.len() {
            assert(ta[0] != tb[0] || ta[1] != tb[1]);
        }
    }
}

} // verus!
