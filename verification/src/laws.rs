//! Engine-level guarantees stated once, over the specification functions
//! that the entry points' contracts use.

use vstd::prelude::*;

use crate::engine::{spec_applied, spec_likely_phi, spec_redact};
use crate::rules::RuleView;
use crate::scan::{contains_seq, numeric_count};

verus! {

/// Text shorter than ten characters is always returned unchanged, whatever
/// the rule table holds: the pre-filter rejects it before any matching.
pub proof fn lemma_short_text_unchanged(rules: Seq<RuleView>, t: Seq<char>)
    requires
        t.len() < 10,
    ensures
        spec_redact(rules, t) == t,
        spec_applied(rules, t) == 0,
{
    assert(!spec_likely_phi(t));
}

/// Text holding none of the marker substrings `@`, `SSN`, `DOB`, `MRN`,
/// `(555)` and at most five numeric characters is always returned
/// unchanged, whatever the rule table holds.
pub proof fn lemma_no_markers_unchanged(rules: Seq<RuleView>, t: Seq<char>)
    requires
        !t.contains('@'),
        !contains_seq(t, "SSN"@),
        !contains_seq(t, "DOB"@),
        !contains_seq(t, "MRN"@),
        !contains_seq(t, "(555)"@),
        numeric_count(t) <= 5,
    ensures
        spec_redact(rules, t) == t,
        spec_applied(rules, t) == 0,
{
    assert(!spec_likely_phi(t));
}

/// A second redaction pass is a no-op whenever the first pass's output
/// fails the pre-filter — the replacement tokens themselves hold no marker
/// substring and few digits, so this covers the usual case.  Idempotence
/// over every input is not guaranteed: a later, lower-priority rule may in
/// principle match text that an earlier replacement left behind.
pub proof fn lemma_second_pass_noop_when_filtered(rules: Seq<RuleView>, t: Seq<char>)
    requires
        !spec_likely_phi(spec_redact(rules, t)),
    ensures
        spec_redact(rules, spec_redact(rules, t)) == spec_redact(rules, t),
{
}

/// An empty rule table — the degraded fallback after a pattern-compilation
/// failure — returns every text unchanged and reports no rule as applied.
pub proof fn lemma_empty_rules_noop(t: Seq<char>)
    ensures
        spec_redact(Seq::<RuleView>::empty(), t) == t,
        spec_applied(Seq::<RuleView>::empty(), t) == 0,
{
}

} // verus!
