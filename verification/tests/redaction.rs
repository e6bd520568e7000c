use phi_redaction::engine::{create_redactor, redact_text, FastPHIRedactor};

// --- Short-text short-circuit: anything under ten characters is untouched.

#[test]
fn short_text_unchanged() {
    let r = FastPHIRedactor::new();
    assert_eq!(r.redact("hi"), "hi");
    assert_eq!(r.redact("123456789"), "123456789"); // nine digits, still too short
    assert_eq!(r.redact("a@b.co"), "a@b.co");
}

#[test]
fn empty_text_unchanged() {
    let r = FastPHIRedactor::new();
    assert_eq!(r.redact(""), "");
}

// --- Marker-free text with at most five numeric characters is untouched.

#[test]
fn no_markers_unchanged() {
    let r = FastPHIRedactor::new();
    assert_eq!(r.redact("hello world this is fine"), "hello world this is fine");
    assert_eq!(r.redact("room 12345 is closed"), "room 12345 is closed"); // exactly five digits
}

#[test]
fn six_digits_pass_the_filter() {
    let r = FastPHIRedactor::new();
    // Six numeric characters clear the pre-filter; no pattern matches, so the
    // text still comes back unchanged, but only after the full matching pass.
    assert!(r.likely_contains_phi("room 123456 now"));
    assert_eq!(r.redact("room 123456 now"), "room 123456 now");
}

#[test]
fn prefilter_edges() {
    let r = FastPHIRedactor::new();
    assert!(!r.likely_contains_phi("abcdefghij")); // ten chars, nothing suspect
    assert!(!r.likely_contains_phi("123456789")); // nine chars: under the length floor
    assert!(r.likely_contains_phi("1234567890")); // ten chars, ten digits
    assert!(!r.likely_contains_phi("12345abcde")); // five digits only
    assert!(r.likely_contains_phi("(555) abcd"));
    assert!(r.likely_contains_phi("see DOB list"));
    assert!(r.likely_contains_phi("the MRN file"));
    assert!(r.likely_contains_phi("SSN records"));
    assert!(r.likely_contains_phi("mail me @ home fine"));
}

// --- Concrete redaction scenarios.

#[test]
fn phone_number_redacted() {
    let r = FastPHIRedactor::new();
    let out = r.redact("Call me at 555-123-4567");
    assert!(out.contains("[REDACTED_PHONE]"));
    assert!(!out.contains("555"));
    assert!(!out.contains("4567"));
}

#[test]
fn phone_number_with_parens_redacted() {
    let r = FastPHIRedactor::new();
    let out = r.redact("Call (555) 123-4567 now");
    assert!(out.contains("[REDACTED_PHONE]"));
    assert!(!out.contains("123"));
}

#[test]
fn email_redacted() {
    let r = FastPHIRedactor::new();
    assert_eq!(r.redact("Contact: jane.doe@example.com"), "Contact: [REDACTED_EMAIL]");
}

#[test]
fn ssn_redacted() {
    let r = FastPHIRedactor::new();
    let out = r.redact("SSN: 123-45-6789");
    assert!(out.contains("[REDACTED_SSN]"));
    assert!(!out.contains("6789"));
}

#[test]
fn name_date_mrn_all_redacted() {
    let r = FastPHIRedactor::new();
    let out = r.redact("John Smith, DOB 04/12/1980, MRN: AB12345");
    assert!(out.contains("[REDACTED_NAME]"));
    assert!(out.contains("[REDACTED_DATE]"));
    assert!(out.contains("[REDACTED_MRN]"));
    assert!(!out.contains("John"));
    assert!(!out.contains("1980"));
    assert!(!out.contains("AB12345"));
}

#[test]
fn unicode_text_redacted() {
    let r = FastPHIRedactor::new();
    let out = r.redact("héllo wörld, write jane@x.io");
    assert!(out.contains("[REDACTED_EMAIL]"));
    assert!(!out.contains("jane@x.io"));
}

#[test]
fn nine_chars_counted_not_bytes() {
    let r = FastPHIRedactor::new();
    // Nine characters (18 bytes in UTF-8): under the ten-character floor.
    assert_eq!(r.redact("ééééé@ééé"), "ééééé@ééé");
}

// --- Priority order: the SSN rule (priority 10) runs before the date rule
// --- (priority 6), so a 3-2-4 digit group is taken by the SSN rule.

#[test]
fn ssn_beats_date() {
    let r = FastPHIRedactor::new();
    let out = r.redact("id 123-45-6789 end");
    assert!(out.contains("[REDACTED_SSN]"));
    assert!(!out.contains("[REDACTED_DATE]"));
}

#[test]
fn date_rule_still_fires_alone() {
    let r = FastPHIRedactor::new();
    let out = r.redact("visit on 04/12/1980 please");
    assert!(out.contains("[REDACTED_DATE]"));
}

// --- A second pass over already-redacted text is a no-op: replacement
// --- tokens contain no PHI shapes.

#[test]
fn second_pass_is_noop() {
    let r = FastPHIRedactor::new();
    let inputs = [
        "Call me at 555-123-4567",
        "Contact: jane.doe@example.com",
        "SSN: 123-45-6789",
        "John Smith, DOB 04/12/1980, MRN: AB12345",
        "hello world this is fine",
        "",
    ];
    for t in inputs {
        let once = r.redact(t);
        assert_eq!(r.redact(&once), once);
    }
}

// --- Both entry points agree on the text transformation.

#[test]
fn stats_agree_with_redact() {
    let r = FastPHIRedactor::new();
    let inputs = [
        "Call me at 555-123-4567",
        "Contact: jane.doe@example.com",
        "SSN: 123-45-6789",
        "John Smith, DOB 04/12/1980, MRN: AB12345",
        "hello world this is fine",
        "room 123456 now",
        "hi",
        "",
    ];
    for t in inputs {
        assert_eq!(r.redact_with_stats(t).redacted_text, r.redact(t));
    }
}

#[test]
fn stats_for_empty_input() {
    let r = FastPHIRedactor::new();
    let stats = r.redact_with_stats("");
    assert_eq!(stats.redacted_text, "");
    assert_eq!(stats.patterns_applied, 0);
    assert_eq!(stats.processing_time_ms, 0);
}

#[test]
fn stats_for_prefilter_negative_input() {
    let r = FastPHIRedactor::new();
    let stats = r.redact_with_stats("hello world this is fine");
    assert_eq!(stats.redacted_text, "hello world this is fine");
    assert_eq!(stats.patterns_applied, 0);
    assert_eq!(stats.processing_time_ms, 0);
}

#[test]
fn stats_count_rules_not_matches() {
    let r = FastPHIRedactor::new();
    // One rule fires once.
    assert_eq!(r.redact_with_stats("SSN: 123-45-6789").patterns_applied, 1);
    // Three distinct rules fire.
    let stats = r.redact_with_stats("John Smith, DOB 04/12/1980, MRN: AB12345");
    assert_eq!(stats.patterns_applied, 3);
    // Two matches of the same rule count once.
    let stats = r.redact_with_stats("a@b.com and c@d.org are emails");
    assert_eq!(stats.patterns_applied, 1);
}

// --- Batch redaction: order kept, items independent.

#[test]
fn batch_matches_per_item_redaction() {
    let r = FastPHIRedactor::new();
    let texts = vec![
        String::from("Call me at 555-123-4567"),
        String::from("Contact: jane.doe@example.com"),
        String::from("hello world this is fine"),
    ];
    let batch = r.batch_redact(&texts);
    assert_eq!(batch.len(), texts.len());
    for (out, t) in batch.iter().zip(texts.iter()) {
        assert_eq!(*out, r.redact(t));
    }
}

#[test]
fn batch_of_nothing() {
    let r = FastPHIRedactor::new();
    let texts: Vec<String> = Vec::new();
    assert_eq!(r.batch_redact(&texts).len(), 0);
}

// --- Introspection: the table is priority-sorted and fully compiled.

#[test]
fn pattern_count_is_six() {
    let r = FastPHIRedactor::new();
    assert_eq!(r.get_pattern_count(), 6);
}

#[test]
fn pattern_names_in_priority_order() {
    let r = FastPHIRedactor::new();
    let names = r.get_pattern_names();
    assert_eq!(
        names,
        vec![
            String::from("SSN"),
            String::from("Phone Numbers"),
            String::from("Email Addresses"),
            String::from("Full Name"),
            String::from("Date Patterns"),
            String::from("Medical Record Numbers"),
        ]
    );
}

// --- The free-function entry points.

#[test]
fn create_redactor_works() {
    let r = create_redactor();
    assert_eq!(r.get_pattern_count(), 6);
    assert!(r.redact("SSN: 123-45-6789").contains("[REDACTED_SSN]"));
}

#[test]
fn redact_text_single_shot() {
    assert_eq!(redact_text("Contact: jane.doe@example.com"), "Contact: [REDACTED_EMAIL]");
    assert_eq!(redact_text("hi"), "hi");
}
