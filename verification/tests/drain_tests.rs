use feed_enricher::clients::{CommitOutcome, EnrichOutcome};
use feed_enricher::drain::{
    build_enrichment_input, drain_cycle, enriched_content, is_eligible, plan_enrichment,
    resolve_entry, settle_entry, ItemFate,
};
use feed_enricher::entry::Entry;
use feed_enricher::queue::Queue;

fn entry(id: u64, content: &str) -> Entry {
    Entry {
        id,
        title: "A Title".to_string(),
        url: "https://example.org/a".to_string(),
        content: content.to_string(),
        feed_id: 7,
    }
}

fn long_content() -> String {
    "lorem ipsum ".repeat(50)
}

#[test]
fn short_content_is_ineligible() {
    assert!(!is_eligible(&"short".to_string()));
    assert!(!is_eligible(&"".to_string()));
    assert!(!is_eligible(&"   \n\t  ".to_string()));
}

#[test]
fn threshold_counts_trimmed_characters() {
    let exactly = "x".repeat(500);
    let one_less = "x".repeat(499);
    assert!(is_eligible(&exactly));
    assert!(!is_eligible(&one_less));
    // Whitespace padding does not count toward the threshold.
    let padded = format!("   {}   ", one_less);
    assert!(!is_eligible(&padded));
    // Characters count, not bytes: 500 two-byte characters are enough.
    let wide = "é".repeat(500);
    assert_eq!(wide.len(), 1000);
    assert!(is_eligible(&wide));
}

#[test]
fn plan_builds_the_fixed_template() {
    let e = entry(1, &long_content());
    let input = plan_enrichment(&e).expect("eligible content is planned");
    let expected = format!(
        "Title: {}\nURL: {}\nContent: {}",
        e.title, e.url, e.content
    );
    assert_eq!(input, expected);
    assert_eq!(build_enrichment_input(&e), expected);
    assert!(plan_enrichment(&entry(2, "tiny")).is_none());
}

#[test]
fn enriched_content_prepends_summary_block() {
    let e = entry(1, &long_content());
    let summary = "Key points about **everything**.".to_string();
    let out = enriched_content(&e, &EnrichOutcome::Summary(summary.clone()))
        .expect("a non-empty summary produces content to commit");
    let expected = format!(
        "<div class=\"ai-summary\"><h4>✨ AI Summary</h4>{}</div><hr><br />{}",
        markdown::to_html(&summary),
        e.content
    );
    assert_eq!(out, expected);
}

#[test]
fn enrichment_failure_produces_nothing_to_commit() {
    let e = entry(1, &long_content());
    assert!(enriched_content(&e, &EnrichOutcome::Failed).is_none());
    assert!(enriched_content(&e, &EnrichOutcome::Summary("  \n ".to_string())).is_none());
}

#[test]
fn ineligible_entry_stays_untouched() {
    let mut q = Queue::new();
    q.put(entry(1, "too short"));
    let e = entry(1, "too short");
    let fate = settle_entry(&mut q, &e, &EnrichOutcome::Failed, CommitOutcome::Failed);
    assert_eq!(fate, ItemFate::SkippedIneligible);
    let still = q.get(1).expect("ineligible entry remains pending");
    assert_eq!(still.content, "too short");
    assert_eq!(q.len(), 1);
}

#[test]
fn enrichment_failure_retains_entry() {
    let mut q = Queue::new();
    q.put(entry(2, &long_content()));
    let e = entry(2, &long_content());
    let fate = settle_entry(&mut q, &e, &EnrichOutcome::Failed, CommitOutcome::Committed);
    assert_eq!(fate, ItemFate::EnrichmentFailed);
    assert!(q.get(2).is_some());
}

#[test]
fn empty_summary_retains_entry_without_commit() {
    let mut q = Queue::new();
    q.put(entry(3, &long_content()));
    let e = entry(3, &long_content());
    let fate = settle_entry(
        &mut q,
        &e,
        &EnrichOutcome::Summary("   ".to_string()),
        CommitOutcome::Committed,
    );
    assert_eq!(fate, ItemFate::SkippedEmptySummary);
    assert!(q.get(3).is_some());
}

#[test]
fn commit_failure_retains_entry() {
    let mut q = Queue::new();
    q.put(entry(4, &long_content()));
    let e = entry(4, &long_content());
    let fate = settle_entry(
        &mut q,
        &e,
        &EnrichOutcome::Summary("fine summary".to_string()),
        CommitOutcome::Failed,
    );
    assert_eq!(fate, ItemFate::CommitFailed);
    assert!(q.get(4).is_some());
}

#[test]
fn committed_entry_leaves_the_queue() {
    let mut q = Queue::new();
    q.put(entry(5, &long_content()));
    q.put(entry(6, "unrelated"));
    let e = entry(5, &long_content());
    let fate = settle_entry(
        &mut q,
        &e,
        &EnrichOutcome::Summary("fine summary".to_string()),
        CommitOutcome::Committed,
    );
    assert_eq!(fate, ItemFate::Committed);
    assert!(q.get(5).is_none());
    assert!(q.get(6).is_some(), "other entries are untouched");
    assert_eq!(q.len(), 1);
}

#[test]
fn cycle_resolves_every_entry_once() {
    let mut q = Queue::new();
    q.put(entry(1, "too short"));
    q.put(entry(2, &long_content()));
    q.put(entry(3, &long_content()));
    let enrich = vec![
        EnrichOutcome::Summary("ignored for ineligible".to_string()),
        EnrichOutcome::Failed,
        EnrichOutcome::Summary("a good summary".to_string()),
    ];
    let commit = vec![
        CommitOutcome::Committed,
        CommitOutcome::Committed,
        CommitOutcome::Committed,
    ];
    let fates = drain_cycle(&mut q, &enrich, &commit);
    assert_eq!(fates.len(), 3);
    let fate_of = |id: u64| fates.iter().find(|(i, _)| *i == id).unwrap().1;
    assert_eq!(fate_of(1), ItemFate::SkippedIneligible);
    assert_eq!(fate_of(2), ItemFate::EnrichmentFailed);
    assert_eq!(fate_of(3), ItemFate::Committed);
    assert_eq!(q.len(), 2);
    assert_eq!(q.get(1).unwrap().content, "too short");
    assert!(q.get(2).is_some());
    assert!(q.get(3).is_none());
}

#[test]
fn resolve_deletes_only_on_commit() {
    let mut q = Queue::new();
    q.put(entry(8, "x"));
    resolve_entry(&mut q, 8, ItemFate::CommitFailed);
    assert!(q.get(8).is_some());
    resolve_entry(&mut q, 8, ItemFate::Committed);
    assert!(q.get(8).is_none());
}
