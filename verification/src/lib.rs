//! A small PHI (personally/health-identifying information) redaction engine.
//!
//! A redactor holds a fixed, priority-ordered table of pattern rules,
//! compiled once at construction.  Each redaction call runs a cheap
//! pre-filter first; text that cannot plausibly contain PHI is returned
//! untouched.  Otherwise every rule is applied in priority order, replacing
//! all non-overlapping matches with that rule's literal replacement token.

pub mod clock;
pub mod engine;
pub mod laws;
pub mod matcher;
pub mod rules;
pub mod scan;
