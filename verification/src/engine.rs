//! The redaction engine: a redactor holding the priority-sorted rule table
//! with one compiled matcher per rule, the fast pre-filter, and the
//! sequential multi-pattern substitution with its statistics and batch
//! wrappers.

use vstd::prelude::*;

use crate::clock::{instant_now, millis_since};
use crate::matcher::{compile_pattern, compiles_of, replace_all, replace_all_of, source_of};
use crate::rules::{
    built_in_patterns, built_in_rules, sort_by_priority, sort_patterns, sorted_by_priority_desc,
    views_of, PHIPattern, RuleView,
};
use crate::scan::{
    chars_of, contains_char, contains_seq, contains_sub, count_numeric, numeric_count,
};

verus! {

/// The fast pre-filter as a predicate on the text: text shorter than ten
/// characters cannot plausibly contain PHI; longer text is suspect when it
/// holds any marker (`@`, `SSN`, `DOB`, `MRN`, `(555)`) or more than five
/// numeric characters.
pub open spec fn spec_likely_phi(t: Seq<char>) -> bool {
    &&& t.len() >= 10
    &&& {
        ||| t.contains('@')
        ||| contains_seq(t, "SSN"@)
        ||| contains_seq(t, "DOB"@)
        ||| contains_seq(t, "MRN"@)
        ||| contains_seq(t, "(555)"@)
        ||| numeric_count(t) > 5
    }
}

/// Applies every rule in table order, threading the output of each
/// replace-all pass into the next.
pub open spec fn apply_rules(rules: Seq<RuleView>, t: Seq<char>) -> Seq<char>
    decreases rules.len(),
{
    if rules.len() == 0 {
        t
    } else {
        apply_rules(
            rules.drop_first(),
            replace_all_of(rules[0].pattern, t, rules[0].replacement),
        )
    }
}

/// How many rules change the text during `apply_rules`: one per rule whose
/// replace-all pass alters the current text, not one per match.
pub open spec fn applied_count(rules: Seq<RuleView>, t: Seq<char>) -> nat
    decreases rules.len(),
{
    if rules.len() == 0 {
        0
    } else {
        (if replace_all_of(rules[0].pattern, t, rules[0].replacement) != t {
            1nat
        } else {
            0nat
        }) + applied_count(
            rules.drop_first(),
            replace_all_of(rules[0].pattern, t, rules[0].replacement),
        )
    }
}

/// What a redaction call returns: the input itself when it is empty or when
/// the pre-filter rejects it, else the result of applying every rule in
/// table order.
pub open spec fn spec_redact(rules: Seq<RuleView>, t: Seq<char>) -> Seq<char> {
    if t.len() == 0 {
        t
    } else if !spec_likely_phi(t) {
        t
    } else {
        apply_rules(rules, t)
    }
}

/// The patterns-applied count reported beside `spec_redact`.
pub open spec fn spec_applied(rules: Seq<RuleView>, t: Seq<char>) -> nat {
    if t.len() == 0 {
        0
    } else if !spec_likely_phi(t) {
        0
    } else {
        applied_count(rules, t)
    }
}

/// Every pattern of the built-in table is accepted by the matcher's
/// compiler.  Construction falls back to the empty table exactly when this
/// fails.
pub open spec fn all_built_ins_compile() -> bool {
    forall|i: int|
        0 <= i < built_in_rules().len() ==> compiles_of(#[trigger] built_in_rules()[i].pattern)
}

/// The envelope returned by a statistics-carrying redaction call.
pub struct RedactionResult {
    pub redacted_text: String,
    pub processing_time_ms: u64,
    pub patterns_applied: u32,
}

/// The redaction engine: the priority-sorted rule table and, parallel to
/// it, the compiled matcher of each rule.  Both are fixed at construction.
pub struct FastPHIRedactor {
    patterns: Vec<PHIPattern>,
    compiled_patterns: Vec<regex::Regex>,
}

impl View for FastPHIRedactor {
    type V = Seq<RuleView>;

    closed spec fn view(&self) -> Seq<RuleView> {
        views_of(self.patterns@)
    }
}

impl FastPHIRedactor {
    /// The parallel sequences have the same length, each matcher was
    /// compiled from the pattern of the rule at the same index, and the
    /// table is priority-sorted.
    #[verifier::type_invariant]
    spec fn wf(self) -> bool {
        &&& self.patterns@.len() == self.compiled_patterns@.len()
        &&& self.patterns@.len() <= 6
        &&& forall|i: int|
            0 <= i < self.patterns@.len() ==> source_of(#[trigger] self.compiled_patterns@[i])
                == self.patterns@[i].pattern@
        &&& sorted_by_priority_desc(views_of(self.patterns@))
    }

    /// Builds the redactor from the built-in rule table: sorts the table by
    /// priority (stable, descending) and compiles each pattern in the
    /// sorted order.  If any pattern fails to compile, the redactor falls
    /// back to an empty, inert rule table instead of failing.
    pub fn new() -> (r: FastPHIRedactor)
        ensures
            all_built_ins_compile() ==> r@ == sort_by_priority(built_in_rules()),
            !all_built_ins_compile() ==> r@ == Seq::<RuleView>::empty(),
            sorted_by_priority_desc(r@),
    {
        let sorted = sort_patterns(built_in_patterns());
        proof {
            crate::rules::lemma_sort_len(built_in_rules());
            crate::rules::lemma_built_in_table_sorted();
            assert(views_of(sorted@).len() == sorted@.len());
            assert(views_of(sorted@) == built_in_rules());
        }
        let mut compiled: Vec<regex::Regex> = Vec::new();
        let n = sorted.len();
        let mut i: usize = 0;
        while i < n
            invariant
                n == sorted@.len(),
                views_of(sorted@) == sort_by_priority(built_in_rules()),
                views_of(sorted@) == built_in_rules(),
                sorted_by_priority_desc(views_of(sorted@)),
                i <= n,
                compiled@.len() == i,
                forall|k: int|
                    0 <= k < i ==> source_of(#[trigger] compiled@[k]) == sorted@[k].pattern@,
                forall|k: int| 0 <= k < i ==> compiles_of(#[trigger] sorted@[k].pattern@),
            decreases n - i,
        {
            match compile_pattern(&sorted[i].pattern) {
                Some(re) => {
                    compiled.push(re);
                },
                None => {
                    proof {
                        assert(!compiles_of(sorted@[i as int].pattern@));
                        assert(built_in_rules()[i as int].pattern == views_of(
                            sorted@,
                        )[i as int].pattern);
                        assert(!compiles_of(built_in_rules()[i as int].pattern));
                        assert(!all_built_ins_compile());
                    }
                    let empty = FastPHIRedactor {
                        patterns: Vec::new(),
                        compiled_patterns: Vec::new(),
                    };
                    proof {
                        assert(empty@ =~= Seq::<RuleView>::empty());
                    }
                    return empty;
                },
            }
            i += 1;
        }
        let r = FastPHIRedactor { patterns: sorted, compiled_patterns: compiled };
        proof {
            assert(views_of(r.patterns@).len() == r.patterns@.len());
            assert forall|k: int| 0 <= k < built_in_rules().len() implies compiles_of(
                #[trigger] built_in_rules()[k].pattern,
            ) by {
                assert(built_in_rules()[k].pattern == sorted@[k].pattern@);
            }
            assert(all_built_ins_compile());
        }
        r
    }

    /// The fast pre-filter: a pure predicate, cheap relative to the full
    /// matching pass, that may report false positives but never rejects
    /// text a configured pattern would match on its typical triggers.
    pub fn likely_contains_phi(&self, text: &str) -> (r: bool)
        ensures
            r == spec_likely_phi(text@),
    {
        let chars = chars_of(text);
        if chars.len() < 10 {
            return false;
        }
        if contains_char(&chars, '@') {
            return true;
        }
        let ssn = chars_of("SSN");
        if contains_sub(&chars, &ssn) {
            return true;
        }
        let dob = chars_of("DOB");
        if contains_sub(&chars, &dob) {
            return true;
        }
        let mrn = chars_of("MRN");
        if contains_sub(&chars, &mrn) {
            return true;
        }
        let phone = chars_of("(555)");
        if contains_sub(&chars, &phone) {
            return true;
        }
        count_numeric(&chars) > 5
    }

    /// Runs every rule's replace-all pass over `text` in table order and
    /// counts the rules that changed it.
    fn apply_all(&self, text: &str) -> (r: (String, u32))
        ensures
            r.0@ == apply_rules(self@, text@),
            r.1 == applied_count(self@, text@),
    {
        proof {
            use_type_invariant(&*self);
        }
        let ghost rules = self@;
        let mut redacted: String = text.to_owned();
        let mut applied: u32 = 0;
        let n = self.compiled_patterns.len();
        let mut i: usize = 0;
        proof {
            assert(rules.skip(0) =~= rules);
        }
        while i < n
            invariant
                self.wf(),
                rules == self@,
                n == self.compiled_patterns@.len(),
                i <= n,
                applied <= i,
                apply_rules(rules, text@) == apply_rules(rules.skip(i as int), redacted@),
                applied + applied_count(rules.skip(i as int), redacted@) == applied_count(
                    rules,
                    text@,
                ),
            decreases n - i,
        {
            proof {
                assert(rules.skip(i as int)[0] == rules[i as int]);
                assert(rules.skip(i as int).drop_first() =~= rules.skip(i + 1));
                assert(rules[i as int] == self.patterns@[i as int]@);
            }
            let next = replace_all(
                &self.compiled_patterns[i],
                &redacted,
                &self.patterns[i].replacement,
            );
            if next != redacted {
                applied += 1;
            }
            redacted = next;
            i += 1;
        }
        proof {
            assert(rules.skip(n as int) =~= Seq::<RuleView>::empty());
        }
        (redacted, applied)
    }

    /// Redacts one text: empty text and text rejected by the pre-filter are
    /// returned unchanged; otherwise every rule is applied in priority
    /// order, each replace-all pass feeding the next.  Total over all
    /// string inputs; never fails.
    pub fn redact(&self, text: &str) -> (r: String)
        ensures
            r@ == spec_redact(self@, text@),
    {
        if text.is_empty() {
            return text.to_owned();
        }
        if !self.likely_contains_phi(text) {
            return text.to_owned();
        }
        let (redacted, _applied) = self.apply_all(text);
        redacted
    }

    /// The same text transformation as [`Self::redact`], returned in the
    /// statistics envelope.  Empty and pre-filter-negative inputs
    /// short-circuit to a zero-time, zero-applied result carrying the text
    /// unchanged.
    pub fn redact_with_stats(&self, text: &str) -> (r: RedactionResult)
        ensures
            r.redacted_text@ == spec_redact(self@, text@),
            r.patterns_applied == spec_applied(self@, text@),
            text@.len() == 0 || !spec_likely_phi(text@) ==> r.processing_time_ms == 0,
    {
        if text.is_empty() {
            return RedactionResult {
                redacted_text: text.to_owned(),
                processing_time_ms: 0,
                patterns_applied: 0,
            };
        }
        if !self.likely_contains_phi(text) {
            return RedactionResult {
                redacted_text: text.to_owned(),
                processing_time_ms: 0,
                patterns_applied: 0,
            };
        }
        let start = instant_now();
        let (redacted, applied) = self.apply_all(text);
        let elapsed = millis_since(&start);
        RedactionResult {
            redacted_text: redacted,
            processing_time_ms: elapsed,
            patterns_applied: applied,
        }
    }

    /// Redacts each text independently, preserving order: element `i` of
    /// the result is exactly `redact` of element `i` of the input.
    pub fn batch_redact(&self, texts: &Vec<String>) -> (r: Vec<String>)
        ensures
            r@.len() == texts@.len(),
            forall|i: int| 0 <= i < texts@.len() ==> r@[i]@ == spec_redact(self@, texts@[i]@),
    {
        let mut out: Vec<String> = Vec::new();
        let n = texts.len();
        let mut i: usize = 0;
        while i < n
            invariant
                n == texts@.len(),
                i <= n,
                out@.len() == i,
                forall|k: int| 0 <= k < i ==> out@[k]@ == spec_redact(self@, texts@[k]@),
            decreases n - i,
        {
            let s = self.redact(texts[i].as_str());
            out.push(s);
            i += 1;
        }
        out
    }

    /// The number of active rules.
    pub fn get_pattern_count(&self) -> (n: usize)
        ensures
            n == self@.len(),
    {
        self.patterns.len()
    }

    /// The rule names, in table order (priority-sorted, not definition
    /// order).
    pub fn get_pattern_names(&self) -> (names: Vec<String>)
        ensures
            names@.len() == self@.len(),
            forall|i: int| 0 <= i < self@.len() ==> names@[i]@ == self@[i].name,
    {
        let mut names: Vec<String> = Vec::new();
        let n = self.patterns.len();
        let mut i: usize = 0;
        while i < n
            invariant
                n == self.patterns@.len(),
                i <= n,
                names@.len() == i,
                forall|k: int| 0 <= k < i ==> names@[k]@ == self@[k].name,
            decreases n - i,
        {
            names.push(self.patterns[i].name.clone());
            i += 1;
        }
        names
    }
}

/// Constructs a redactor with the built-in rule table: behaviorally the
/// same construction as [`FastPHIRedactor::new`].
pub fn create_redactor() -> (r: FastPHIRedactor)
    ensures
        all_built_ins_compile() ==> r@ == sort_by_priority(built_in_rules()),
        !all_built_ins_compile() ==> r@ == Seq::<RuleView>::empty(),
        sorted_by_priority_desc(r@),
{
    FastPHIRedactor::new()
}

/// Constructs a redactor and redacts once, exactly as a fresh
/// [`FastPHIRedactor::new`] followed by one `redact` call would: for
/// single-shot callers who accept re-paying the pattern-compilation cost on
/// every call.
pub fn redact_text(text: &str) -> (r: String)
    ensures
        all_built_ins_compile() ==> r@ == spec_redact(sort_by_priority(built_in_rules()), text@),
        !all_built_ins_compile() ==> r@ == text@,
{
    let redactor = FastPHIRedactor::new();
    let out = redactor.redact(text);
    proof {
        if !all_built_ins_compile() {
            assert(spec_redact(redactor@, text@) == text@);
        }
    }
    out
}

} // verus!
