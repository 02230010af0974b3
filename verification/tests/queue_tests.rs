use feed_enricher::entry::{make_entry_key, u64_to_dec, Entry};
use feed_enricher::intake::stage_batch;
use feed_enricher::queue::Queue;

fn entry(id: u64, content: &str) -> Entry {
    Entry {
        id,
        title: format!("title {}", id),
        url: format!("https://example.org/{}", id),
        content: content.to_string(),
        feed_id: 1,
    }
}

#[test]
fn entry_keys_are_decimal() {
    assert_eq!(make_entry_key(0), "entry:0");
    assert_eq!(make_entry_key(7), "entry:7");
    assert_eq!(make_entry_key(90817264891), "entry:90817264891");
    assert_eq!(u64_to_dec(u64::MAX), "18446744073709551615");
}

#[test]
fn put_get_delete_roundtrip() {
    let mut q = Queue::new();
    assert_eq!(q.len(), 0);
    q.put(entry(3, "abc"));
    assert_eq!(q.len(), 1);
    let got = q.get(3).expect("staged entry must be retrievable");
    assert_eq!(got.id, 3);
    assert_eq!(got.content, "abc");
    assert!(q.get(4).is_none());
    q.delete(3);
    assert!(q.get(3).is_none());
    assert_eq!(q.len(), 0);
}

#[test]
fn put_same_id_overwrites() {
    let mut q = Queue::new();
    q.put(entry(5, "first"));
    q.put(entry(5, "second"));
    assert_eq!(q.len(), 1);
    assert_eq!(q.get(5).unwrap().content, "second");
}

#[test]
fn staged_batch_has_one_key_per_entry() {
    let mut q = Queue::new();
    let batch = vec![entry(1, "a"), entry(2, "b"), entry(3, "c")];
    stage_batch(&mut q, &batch);
    assert_eq!(q.len(), 3);
    for e in &batch {
        let got = q.get(e.id).expect("every submitted entry is staged");
        assert_eq!(got.title, e.title);
        assert_eq!(got.url, e.url);
        assert_eq!(got.content, e.content);
        assert_eq!(got.feed_id, e.feed_id);
    }
}

#[test]
fn duplicate_id_in_batch_last_write_wins() {
    let mut q = Queue::new();
    let batch = vec![entry(9, "old"), entry(8, "other"), entry(9, "new")];
    stage_batch(&mut q, &batch);
    assert_eq!(q.len(), 2);
    assert_eq!(q.get(9).unwrap().content, "new");
    assert_eq!(q.get(8).unwrap().content, "other");
}

#[test]
fn staging_overwrites_pending_entry() {
    let mut q = Queue::new();
    q.put(entry(2, "pending"));
    q.put(entry(4, "kept"));
    stage_batch(&mut q, &vec![entry(2, "rewritten")]);
    assert_eq!(q.len(), 2);
    assert_eq!(q.get(2).unwrap().content, "rewritten");
    assert_eq!(q.get(4).unwrap().content, "kept");
}

#[test]
fn empty_batch_stages_nothing() {
    let mut q = Queue::new();
    stage_batch(&mut q, &Vec::new());
    assert_eq!(q.len(), 0);
}

#[test]
fn ids_lists_every_pending_entry_once() {
    let mut q = Queue::new();
    q.put(entry(10, "x"));
    q.put(entry(11, "y"));
    q.put(entry(10, "z"));
    let mut ids = q.ids();
    ids.sort();
    assert_eq!(ids, vec![10, 11]);
}
