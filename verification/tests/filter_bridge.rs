use rocksdb::compaction_filter::{CompactionFilter, Decision, KeepAllFilter};
use rocksdb::compaction_filter_factory::{
    CompactionFilterContext, CompactionFilterFactory, KeepAllFilterFactory,
};
use rocksdb::filter_table::{bytes_le, FilterTable};

#[test]
fn context_translation_sets_both_flags() {
    let c = CompactionFilterContext::from_flags(0, 0);
    assert!(!c.is_full_compaction);
    assert!(!c.is_manual_compaction);
    let c = CompactionFilterContext::from_flags(1, 0);
    assert!(c.is_full_compaction);
    assert!(!c.is_manual_compaction);
    let c = CompactionFilterContext::from_flags(0, 7);
    assert!(!c.is_full_compaction);
    assert!(c.is_manual_compaction);
    let c = CompactionFilterContext::from_flags(255, 1);
    assert!(c.is_full_compaction);
    assert!(c.is_manual_compaction);
}

#[test]
fn keep_all_filter_keeps_everything() {
    let mut f = KeepAllFilter {};
    assert_eq!(f.decide(b"k", b"v", None), Decision::Keep);
    assert_eq!(f.decide(b"k2", b"v2", Some(b"prev")), Decision::Keep);
    assert_eq!(f.name(), "KeepAllFilter");
}

#[test]
fn factory_makes_a_fresh_filter_per_job() {
    let mut factory = KeepAllFilterFactory {};
    assert_eq!(factory.name(), "KeepAllFilterFactory");
    let ctx_a = CompactionFilterContext::from_flags(1, 0);
    let ctx_b = CompactionFilterContext::from_flags(0, 1);
    let mut fa = factory.create(ctx_a);
    let mut fb = factory.create(ctx_b);
    assert_eq!(fa.decide(b"a", b"1", None), Decision::Keep);
    assert_eq!(fb.decide(b"b", b"2", None), Decision::Keep);
}

#[test]
fn bytes_le_orders_lexicographically() {
    assert!(bytes_le(b"", b""));
    assert!(bytes_le(b"", b"a"));
    assert!(!bytes_le(b"a", b""));
    assert!(bytes_le(b"abc", b"abc"));
    assert!(bytes_le(b"abc", b"abd"));
    assert!(!bytes_le(b"abd", b"abc"));
    assert!(bytes_le(b"ab", b"abc"));
    assert!(!bytes_le(b"abc", b"ab"));
    assert!(bytes_le(b"az", b"b"));
}

#[test]
fn one_job_runs_create_decide_destroy() {
    let mut table: FilterTable<KeepAllFilter> = FilterTable::new();
    let ctx = CompactionFilterContext::from_flags(1, 1);
    let h = table.create(KeepAllFilter {}, ctx);
    assert!(table.is_live_handle(h));
    assert_eq!(table.outstanding(), 1);
    assert_eq!(table.context_of(h), ctx);
    let d = table.decide(h, b"key1", b"value1", None);
    assert_eq!(d, Decision::Keep);
    assert_eq!(table.decide_count(h), 1);
    let _filter = table.destroy(h);
    assert!(!table.is_live_handle(h));
    assert_eq!(table.outstanding(), 0);
}

#[test]
fn concurrent_jobs_stay_isolated() {
    // Two jobs with different contexts, their decide calls interleaved: each
    // job's counter ends at exactly the number of keys routed to it.
    let mut factory = KeepAllFilterFactory {};
    let ctx_a = CompactionFilterContext::from_flags(1, 0);
    let ctx_b = CompactionFilterContext::from_flags(0, 1);
    let mut table: FilterTable<KeepAllFilter> = FilterTable::new();
    let ha = table.create(factory.create(ctx_a), ctx_a);
    let hb = table.create(factory.create(ctx_b), ctx_b);
    assert_ne!(ha, hb);
    assert_eq!(table.context_of(ha), ctx_a);
    assert_eq!(table.context_of(hb), ctx_b);

    table.decide(ha, b"a1", b"v", None);
    table.decide(hb, b"b1", b"v", None);
    table.decide(ha, b"a2", b"v", None);
    table.decide(ha, b"a3", b"v", None);
    table.decide(hb, b"b2", b"v", None);

    assert_eq!(table.decide_count(ha), 3);
    assert_eq!(table.decide_count(hb), 2);

    table.destroy(ha);
    assert!(!table.is_live_handle(ha));
    assert!(table.is_live_handle(hb));
    assert_eq!(table.decide_count(hb), 2);
    table.destroy(hb);
    assert_eq!(table.outstanding(), 0);
}

#[test]
fn outstanding_returns_to_zero_after_all_jobs() {
    // Leak-detection: the allocation counter is back at zero once every
    // handle returned by create has been destroyed exactly once.
    let mut table: FilterTable<KeepAllFilter> = FilterTable::new();
    let ctx = CompactionFilterContext::from_flags(0, 0);
    let mut handles = Vec::new();
    for _ in 0..8 {
        handles.push(table.create(KeepAllFilter {}, ctx));
    }
    assert_eq!(table.outstanding(), 8);
    for h in handles {
        assert!(table.is_live_handle(h));
        table.destroy(h);
        assert!(!table.is_live_handle(h));
    }
    assert_eq!(table.outstanding(), 0);
}

#[test]
fn a_full_key_sequence_arrives_in_order() {
    // Drive one job through a whole synthetic key sequence in the engine's
    // merge order and check each next key against the ordering guarantee.
    let mut table: FilterTable<KeepAllFilter> = FilterTable::new();
    let ctx = CompactionFilterContext::from_flags(1, 0);
    let h = table.create(KeepAllFilter {}, ctx);
    let keys: [&[u8]; 6] = [b"apple", b"apple", b"banana", b"banana0", b"cherry", b"date"];
    for key in keys {
        assert!(table.next_key_in_order(h, key));
        let d = table.decide(h, key, b"v", None);
        assert_eq!(d, Decision::Keep);
    }
    assert_eq!(table.decide_count(h), 6);
    // A key earlier than the last delivered one would break the guarantee.
    assert!(!table.next_key_in_order(h, b"aardvark"));
    table.destroy(h);
    assert_eq!(table.outstanding(), 0);
}

#[test]
fn name_is_readable_through_a_live_handle() {
    let mut table: FilterTable<KeepAllFilter> = FilterTable::new();
    let ctx = CompactionFilterContext::from_flags(0, 0);
    let h = table.create(KeepAllFilter {}, ctx);
    assert_eq!(table.name_of(h), "KeepAllFilter");
    table.destroy(h);
}

#[test]
fn decisions_translate_to_the_engine_convention() {
    assert_eq!(Decision::Keep.into_signal(), (false, None));
    assert_eq!(Decision::Remove.into_signal(), (true, None));
    assert_eq!(
        Decision::ChangeValue(b"new".to_vec()).into_signal(),
        (false, Some(b"new".to_vec()))
    );
    // No skip signal exists in the engine convention: the pair is kept.
    assert_eq!(
        Decision::RemoveAndSkipUntil(b"z".to_vec()).into_signal(),
        (false, None)
    );
}
