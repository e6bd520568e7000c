//! The redaction rules: the rule record, the built-in rule table, and the
//! stable priority sort applied to the table at construction.

use vstd::prelude::*;

verus! {

/// One redaction rule: a named pattern with its literal replacement text and
/// its priority rank.  A higher priority means the rule is applied earlier.
pub struct PHIPattern {
    pub name: String,
    pub pattern: String,
    pub replacement: String,
    pub priority: u8,
}

/// The mathematical view of a rule: its four fields as plain values.
#[verifier::ext_equal]
pub struct RuleView {
    pub name: Seq<char>,
    pub pattern: Seq<char>,
    pub replacement: Seq<char>,
    pub priority: u8,
}

impl View for PHIPattern {
    type V = RuleView;

    open spec fn view(&self) -> RuleView {
        RuleView {
            name: self.name@,
            pattern: self.pattern@,
            replacement: self.replacement@,
            priority: self.priority,
        }
    }
}

/// The views of a sequence of rules, in order.
pub open spec fn views_of(s: Seq<PHIPattern>) -> Seq<RuleView> {
    s.map_values(|p: PHIPattern| p@)
}

/// The built-in rule table, in definition order (which is also
/// priority-descending order).
pub open spec fn built_in_rules() -> Seq<RuleView> {
    seq![
        RuleView {
            name: "SSN"@,
            pattern: r"\b\d{3}-?\d{2}-?\d{4}\b"@,
            replacement: "[REDACTED_SSN]"@,
            priority: 10u8,
        },
        RuleView {
            name: "Phone Numbers"@,
            pattern: r"(?:\+?1[-.\s]?)?\(?([0-9]{3})\)?[-.\s]?([0-9]{3})[-.\s]?([0-9]{4})"@,
            replacement: "[REDACTED_PHONE]"@,
            priority: 9u8,
        },
        RuleView {
            name: "Email Addresses"@,
            pattern: r"\b[A-Za-z0-9._%+-]+@[A-Za-z0-9.-]+\.[A-Z|a-z]{2,}\b"@,
            replacement: "[REDACTED_EMAIL]"@,
            priority: 8u8,
        },
        RuleView {
            name: "Full Name"@,
            pattern: r"\b[A-Z][a-z]+ [A-Z][a-z]+(?:\s+[A-Z][a-z]+)*\b"@,
            replacement: "[REDACTED_NAME]"@,
            priority: 7u8,
        },
        RuleView {
            name: "Date Patterns"@,
            pattern: r"\b\d{1,2}[/-]\d{1,2}[/-]\d{2,4}\b"@,
            replacement: "[REDACTED_DATE]"@,
            priority: 6u8,
        },
        RuleView {
            name: "Medical Record Numbers"@,
            pattern: r"\b(?:MRN|Medical Record|Record #?)\s*:?\s*[A-Z0-9-]{6,}\b"@,
            replacement: "[REDACTED_MRN]"@,
            priority: 5u8,
        },
    ]
}

/// Priorities never increase along the sequence.
pub open spec fn sorted_by_priority_desc(s: Seq<RuleView>) -> bool {
    forall|i: int, j: int| 0 <= i <= j < s.len() ==> s[i].priority >= s[j].priority
}

/// Inserts `x` into the already-sorted `s`, after every rule of equal or
/// higher priority: the insertion step of a stable insertion sort,
/// priority descending.
pub open spec fn insert_by_priority(x: RuleView, s: Seq<RuleView>) -> Seq<RuleView>
    decreases s.len(),
{
    if s.len() == 0 {
        seq![x]
    } else if x.priority > s[0].priority {
        seq![x] + s
    } else {
        seq![s[0]] + insert_by_priority(x, s.drop_first())
    }
}

/// Stable sort by priority, descending: rules are taken in input order and
/// each is inserted after every already-placed rule of equal priority.
pub open spec fn sort_by_priority(s: Seq<RuleView>) -> Seq<RuleView>
    decreases s.len(),
{
    if s.len() == 0 {
        Seq::empty()
    } else {
        insert_by_priority(s.last(), sort_by_priority(s.drop_last()))
    }
}

/// Every element of `insert_by_priority(x, s)` is `x` or comes from `s`.
proof fn lemma_insert_elements(x: RuleView, s: Seq<RuleView>)
    ensures
        insert_by_priority(x, s).len() == s.len() + 1,
        forall|k: int|
            0 <= k < insert_by_priority(x, s).len() ==> (insert_by_priority(x, s)[k] == x
                || s.contains(insert_by_priority(x, s)[k])),
    decreases s.len(),
{
    if s.len() == 0 {
    } else if x.priority > s[0].priority {
    } else {
        lemma_insert_elements(x, s.drop_first());
        assert forall|k: int| 0 <= k < insert_by_priority(x, s).len() implies (insert_by_priority(
            x,
            s,
        )[k] == x || s.contains(insert_by_priority(x, s)[k])) by {
            if k == 0 {
                assert(s.contains(s[0]));
            } else {
                let rest = insert_by_priority(x, s.drop_first());
                assert(insert_by_priority(x, s)[k] == rest[k - 1]);
                if rest[k - 1] == x {
                } else {
                    let m = choose|m: int|
                        0 <= m < s.drop_first().len() && s.drop_first()[m] == rest[k - 1];
                    assert(s[m + 1] == rest[k - 1]);
                }
            }
        }
    }
}

/// Inserting into a sorted sequence keeps it sorted.
proof fn lemma_insert_preserves_sorted(x: RuleView, s: Seq<RuleView>)
    requires
        sorted_by_priority_desc(s),
    ensures
        sorted_by_priority_desc(insert_by_priority(x, s)),
    decreases s.len(),
{
    if s.len() == 0 {
    } else if x.priority > s[0].priority {
    } else {
        assert(sorted_by_priority_desc(s.drop_first()));
        lemma_insert_preserves_sorted(x, s.drop_first());
        lemma_insert_elements(x, s.drop_first());
        let r = insert_by_priority(x, s);
        let rest = insert_by_priority(x, s.drop_first());
        assert forall|i: int, j: int| 0 <= i <= j < r.len() implies r[i].priority >= r[j].priority by {
            if i == 0 && j > 0 {
                assert(r[j] == rest[j - 1]);
                if rest[j - 1] == x {
                } else {
                    let m = choose|m: int|
                        0 <= m < s.drop_first().len() && s.drop_first()[m] == rest[j - 1];
                    assert(s[m + 1] == rest[j - 1]);
                }
            } else if i > 0 {
                assert(r[i] == rest[i - 1] && r[j] == rest[j - 1]);
            }
        }
    }
}

/// The sort keeps the number of rules.
pub proof fn lemma_sort_len(s: Seq<RuleView>)
    ensures
        sort_by_priority(s).len() == s.len(),
    decreases s.len(),
{
    if s.len() == 0 {
    } else {
        lemma_sort_len(s.drop_last());
        lemma_insert_elements(s.last(), sort_by_priority(s.drop_last()));
    }
}

/// Sorting a sequence that is already priority-sorted is the identity: in
/// particular equal-priority runs are never reordered.
pub proof fn lemma_sort_of_sorted_is_identity(s: Seq<RuleView>)
    requires
        sorted_by_priority_desc(s),
    ensures
        sort_by_priority(s) == s,
    decreases s.len(),
{
    if s.len() == 0 {
        assert(sort_by_priority(s) =~= s);
    } else {
        assert(sorted_by_priority_desc(s.drop_last()));
        lemma_sort_of_sorted_is_identity(s.drop_last());
        lemma_insert_at_pos(s.last(), s.drop_last(), s.len() - 1);
        assert(s.drop_last().insert(s.len() - 1, s.last()) =~= s);
    }
}

/// The built-in table is already in priority-descending order, so the
/// construction-time sort returns it unchanged.
pub proof fn lemma_built_in_table_sorted()
    ensures
        sorted_by_priority_desc(built_in_rules()),
        sort_by_priority(built_in_rules()) == built_in_rules(),
{
    let s = built_in_rules();
    assert(s[0].priority == 10);
    assert(s[1].priority == 9);
    assert(s[2].priority == 8);
    assert(s[3].priority == 7);
    assert(s[4].priority == 6);
    assert(s[5].priority == 5);
    assert(sorted_by_priority_desc(s));
    lemma_sort_of_sorted_is_identity(s);
}

/// Where `pos` is the first index whose priority is strictly below that of
/// `x`, stable insertion places `x` exactly at `pos`.
proof fn lemma_insert_at_pos(x: RuleView, s: Seq<RuleView>, pos: int)
    requires
        sorted_by_priority_desc(s),
        0 <= pos <= s.len(),
        forall|k: int| 0 <= k < pos ==> s[k].priority >= x.priority,
        pos < s.len() ==> s[pos].priority < x.priority,
    ensures
        insert_by_priority(x, s) == s.insert(pos, x),
    decreases pos,
{
    if pos == 0 {
        if s.len() == 0 {
            assert(insert_by_priority(x, s) =~= s.insert(0, x));
        } else {
            assert(s[0].priority < x.priority);
            assert(insert_by_priority(x, s) =~= s.insert(0, x));
        }
    } else {
        assert(s[0].priority >= x.priority);
        assert(sorted_by_priority_desc(s.drop_first()));
        assert(forall|k: int| 0 <= k < pos - 1 ==> s.drop_first()[k].priority >= x.priority);
        lemma_insert_at_pos(x, s.drop_first(), pos - 1);
        assert(insert_by_priority(x, s) == seq![s[0]] + s.drop_first().insert(pos - 1, x));
        assert(seq![s[0]] + s.drop_first().insert(pos - 1, x) =~= s.insert(pos, x));
    }
}

/// The first index in `out` whose priority is strictly below that of `x`,
/// or the length of `out` when there is none: the stable insertion point.
fn find_insert_pos(out: &Vec<PHIPattern>, x: &PHIPattern) -> (pos: usize)
    ensures
        pos <= out@.len(),
        forall|k: int| 0 <= k < pos ==> views_of(out@)[k].priority >= x@.priority,
        pos < out@.len() ==> views_of(out@)[pos as int].priority < x@.priority,
{
    let n = out.len();
    let mut j: usize = 0;
    while j < n
        invariant
            n == out@.len(),
            j <= n,
            forall|k: int| 0 <= k < j ==> views_of(out@)[k].priority >= x@.priority,
        decreases n - j,
    {
        if out[j].priority < x.priority {
            return j;
        }
        j += 1;
    }
    n
}

/// Sorts the rules by priority, highest first; rules of equal priority keep
/// their relative input order (a stable sort).
pub fn sort_patterns(input: Vec<PHIPattern>) -> (out: Vec<PHIPattern>)
    ensures
        views_of(out@) == sort_by_priority(views_of(input@)),
        sorted_by_priority_desc(views_of(out@)),
{
    let ghost g = views_of(input@);
    let mut rest = input;
    let mut out: Vec<PHIPattern> = Vec::new();
    let ghost mut done: int = 0;
    proof {
        assert(g.take(0) =~= Seq::<RuleView>::empty());
        assert(views_of(rest@) =~= g.skip(0));
        assert(views_of(out@) =~= Seq::<RuleView>::empty());
    }
    while rest.len() > 0
        invariant
            0 <= done <= g.len(),
            done + rest@.len() == g.len(),
            views_of(rest@) == g.skip(done),
            views_of(out@) == sort_by_priority(g.take(done)),
            sorted_by_priority_desc(views_of(out@)),
        decreases rest@.len(),
    {
        let ghost old_rest = rest@;
        let ghost old_out_views = views_of(out@);
        let x = rest.remove(0);
        proof {
            assert(views_of(old_rest)[0] == x@);
            assert(rest@ =~= old_rest.drop_first());
            assert forall|k: int| 0 <= k < rest@.len() implies views_of(rest@)[k] == g.skip(
                done + 1,
            )[k] by {
                assert(rest@[k] == old_rest[k + 1]);
                assert(views_of(old_rest)[k + 1] == old_rest[k + 1]@);
                assert(g.skip(done)[k + 1] == g[done + 1 + k]);
            }
            assert(views_of(rest@) =~= g.skip(done + 1));
        }
        let pos = find_insert_pos(&out, &x);
        out.insert(pos, x);
        proof {
            assert(views_of(out@) =~= old_out_views.insert(pos as int, x@));
            lemma_insert_at_pos(x@, old_out_views, pos as int);
            assert(g.take(done + 1).drop_last() =~= g.take(done));
            assert(g.take(done + 1).last() == g[done]);
            assert(g[done] == x@);
            assert(views_of(out@) == sort_by_priority(g.take(done + 1)));
            lemma_insert_preserves_sorted(x@, old_out_views);
            done = done + 1;
        }
    }
    proof {
        assert(g.take(done) =~= g);
    }
    out
}

/// Builds the built-in rule table, in definition order.
pub fn built_in_patterns() -> (v: Vec<PHIPattern>)
    ensures
        views_of(v@) == built_in_rules(),
{
    let mut v: Vec<PHIPattern> = Vec::new();
    v.push(
        PHIPattern {
            name: "SSN".to_owned(),
            pattern: r"\b\d{3}-?\d{2}-?\d{4}\b".to_owned(),
            replacement: "[REDACTED_SSN]".to_owned(),
            priority: 10,
        },
    );
    v.push(
        PHIPattern {
            name: "Phone Numbers".to_owned(),
            pattern: r"(?:\+?1[-.\s]?)?\(?([0-9]{3})\)?[-.\s]?([0-9]{3})[-.\s]?([0-9]{4})".to_owned(),
            replacement: "[REDACTED_PHONE]".to_owned(),
            priority: 9,
        },
    );
    v.push(
        PHIPattern {
            name: "Email Addresses".to_owned(),
            pattern: r"\b[A-Za-z0-9._%+-]+@[A-Za-z0-9.-]+\.[A-Z|a-z]{2,}\b".to_owned(),
            replacement: "[REDACTED_EMAIL]".to_owned(),
            priority: 8,
        },
    );
    v.push(
        PHIPattern {
            name: "Full Name".to_owned(),
            pattern: r"\b[A-Z][a-z]+ [A-Z][a-z]+(?:\s+[A-Z][a-z]+)*\b".to_owned(),
            replacement: "[REDACTED_NAME]".to_owned(),
            priority: 7,
        },
    );
    v.push(
        PHIPattern {
            name: "Date Patterns".to_owned(),
            pattern: r"\b\d{1,2}[/-]\d{1,2}[/-]\d{2,4}\b".to_owned(),
            replacement: "[REDACTED_DATE]".to_owned(),
            priority: 6,
        },
    );
    v.push(
        PHIPattern {
            name: "Medical Record Numbers".to_owned(),
            pattern: r"\b(?:MRN|Medical Record|Record #?)\s*:?\s*[A-Z0-9-]{6,}\b".to_owned(),
            replacement: "[REDACTED_MRN]".to_owned(),
            priority: 5,
        },
    );
    proof {
        assert(views_of(v@) =~~= built_in_rules());
    }
    v
}

} // verus!
