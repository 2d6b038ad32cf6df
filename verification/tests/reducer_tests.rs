use lfm_cmd::chunker::TokenCounter;
use lfm_cmd::reducer::Reducer;

/// One character, one token.
struct CharCount;

impl TokenCounter for CharCount {
    fn count_tokens(&mut self, text: &str) -> usize {
        text.chars().count()
    }
}

/// A heavy oracle, to reach the reduce threshold with short strings.
struct Heavy;

impl TokenCounter for Heavy {
    fn count_tokens(&mut self, text: &str) -> usize {
        text.chars().count() * 100
    }
}

#[test]
fn in_order_rollup_builds_labelled_buffer() {
    let mut c = CharCount;
    let mut r = Reducer::new();
    r.insert_summary(0, "A".to_string());
    r.insert_summary(1, "B".to_string());
    r.insert_summary(2, "C".to_string());

    assert!(r.has_ready());
    let (spawn0, n0) = r.absorb_next(&mut c);
    assert!(spawn0.is_none());
    assert_eq!(n0, 1);

    let (spawn1, _) = r.absorb_next(&mut c);
    // The speculative meta-prompt task starts when the second summary is
    // rolled up, seeded with the first two samples.
    assert_eq!(spawn1.as_deref(), Some("A\n\nB\n\n"));

    let (spawn2, _) = r.absorb_next(&mut c);
    assert!(spawn2.is_none());

    assert_eq!(r.rolling_buffer, "[Data 0]\nA\n\n[Data 1]\nB\n\n[Data 2]\nC\n\n");
    assert_eq!(r.rolling_tokens, 3);
    assert_eq!(r.next_index, 3);
    assert!(!r.has_ready());
}

#[test]
fn out_of_order_summaries_wait_for_their_turn() {
    let mut c = CharCount;
    let mut r = Reducer::new();
    r.insert_summary(1, "later".to_string());
    assert!(!r.has_ready());
    r.insert_summary(0, "first".to_string());
    assert!(r.has_ready());
    r.absorb_next(&mut c);
    assert!(r.has_ready());
    r.absorb_next(&mut c);
    assert_eq!(r.rolling_buffer, "[Data 0]\nfirst\n\n[Data 1]\nlater\n\n");
}

#[test]
fn a_gap_stalls_the_rollup() {
    let mut c = CharCount;
    let mut r = Reducer::new();
    r.insert_summary(0, "zero".to_string());
    r.insert_summary(2, "two".to_string());
    r.absorb_next(&mut c);
    // Index 1 never arrived: the rollup waits, however much sits behind it.
    assert!(!r.has_ready());
    assert_eq!(r.next_index, 1);
}

#[test]
fn surviving_first_summary_alone_reaches_the_final_reduce() {
    // All other workers were silent; the single notable summary carries
    // index 0, so the rollup absorbs it and the final reduce has material.
    let mut c = CharCount;
    let mut r = Reducer::new();
    r.insert_summary(0, "唯一の要約".to_string());
    r.absorb_next(&mut c);
    assert!(!r.buffer_empty());
    assert_eq!(r.rolling_buffer, "[Data 0]\n唯一の要約\n\n");
}

#[test]
fn prompt_is_set_once_and_survives_rollups() {
    let mut c = CharCount;
    let mut r = Reducer::new();
    assert!(!r.has_prompt());
    r.set_prompt("文書専用の指示".to_string());
    assert!(r.has_prompt());
    r.insert_summary(0, "A".to_string());
    r.absorb_next(&mut c);
    assert_eq!(r.dynamic_prompt.as_deref(), Some("文書専用の指示"));
}

#[test]
fn threshold_triggers_and_intermediate_resets_the_buffer() {
    let mut h = Heavy;
    let mut r = Reducer::new();
    let long: String = std::iter::repeat('x').take(300).collect();
    r.insert_summary(0, long);
    let (_, counted) = r.absorb_next(&mut h);
    assert_eq!(counted, 30000);
    assert!(r.needs_reduce());

    let recount = r.apply_intermediate(&mut h, "圧縮済み".to_string());
    assert_eq!(r.rolling_buffer, "[Intermediate Summary 0]\n圧縮済み\n\n");
    assert_eq!(r.intermediate_count, 1);
    assert_eq!(r.rolling_tokens, recount);
    assert_eq!(recount, r.rolling_buffer.chars().count() * 100);
}

#[test]
fn rolling_count_grows_by_exactly_the_measured_count() {
    let mut c = CharCount;
    let mut r = Reducer::new();
    r.insert_summary(0, "12345".to_string());
    let before = r.rolling_tokens;
    let (_, counted) = r.absorb_next(&mut c);
    assert_eq!(r.rolling_tokens, before + counted);
    assert_eq!(counted, 5);
}

/// An oracle reporting the largest possible count.
struct MaxCount;

impl TokenCounter for MaxCount {
    fn count_tokens(&mut self, _text: &str) -> usize {
        usize::MAX
    }
}

#[test]
fn rolling_count_saturates_instead_of_overflowing() {
    let mut m = MaxCount;
    let mut r = Reducer::new();
    r.insert_summary(0, "a".to_string());
    r.insert_summary(1, "b".to_string());
    r.absorb_next(&mut m);
    r.absorb_next(&mut m);
    assert_eq!(r.rolling_tokens, usize::MAX);
    assert!(r.needs_reduce());
}

#[test]
fn reduce_prompt_renders_prompt_then_buffer() {
    let mut c = CharCount;
    let mut r = Reducer::new();
    r.insert_summary(0, "S".to_string());
    r.absorb_next(&mut c);
    r.set_prompt("SYS".to_string());
    let p = r.render_reduce_prompt("a{SYS_PROMPT}b{TEXT}c");
    assert_eq!(p, "aSYSb[Data 0]\nS\n\nc");
}

#[test]
fn a_repeated_index_replaces_the_pending_summary() {
    let mut c = CharCount;
    let mut r = Reducer::new();
    r.insert_summary(0, "old".to_string());
    r.insert_summary(0, "new".to_string());
    r.absorb_next(&mut c);
    assert_eq!(r.rolling_buffer, "[Data 0]\nnew\n\n");
}
