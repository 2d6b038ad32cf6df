use lfm_cmd::chunker::{chunk_text, TokenCounter};

/// One character, one token: the simplest consistent measurement.
struct CharCount;

impl TokenCounter for CharCount {
    fn count_tokens(&mut self, text: &str) -> usize {
        text.chars().count()
    }
}

/// Four characters to a token, rounded up, as a rough subword stand-in.
struct QuarterLen;

impl TokenCounter for QuarterLen {
    fn count_tokens(&mut self, text: &str) -> usize {
        (text.chars().count() + 3) / 4
    }
}

fn concat(tasks: &[lfm_cmd::ChunkTask]) -> String {
    let mut s = String::new();
    for t in tasks {
        s.push_str(&t.text);
    }
    s
}

#[test]
fn empty_input_yields_no_chunks() {
    let mut c = CharCount;
    let tasks = chunk_text(&mut c, "", 512);
    assert_eq!(tasks.len(), 0);
}

#[test]
fn single_short_line_is_one_chunk() {
    let mut c = QuarterLen;
    let tasks = chunk_text(&mut c, "Hello.", 512);
    assert_eq!(tasks.len(), 1);
    assert_eq!(tasks[0].index, 0);
    assert_eq!(tasks[0].text, "Hello.");
}

#[test]
fn long_run_without_punctuation_partitions_by_search() {
    let input: String = std::iter::repeat('a').take(2000).collect();
    let mut c = CharCount;
    let tasks = chunk_text(&mut c, &input, 16);
    assert_eq!(concat(&tasks), input);
    for (i, t) in tasks.iter().enumerate() {
        assert_eq!(t.index, i);
        assert!(t.text.chars().count() <= 16);
        assert!(!t.text.is_empty());
    }
    // With one token per character, every chunk but the last is a full
    // budget-sized cut.
    for t in tasks.iter().take(tasks.len() - 1) {
        assert_eq!(t.text.chars().count(), 16);
    }
}

#[test]
fn mixed_punctuation_cuts_after_sentence_ends() {
    let mut input = String::new();
    for i in 0..60 {
        if i % 2 == 0 {
            input.push_str("これは日本語の文章です。");
        } else {
            input.push_str("And an English sentence.");
        }
    }
    let mut c = CharCount;
    let tasks = chunk_text(&mut c, &input, 100);
    assert!(tasks.len() > 1);
    assert_eq!(concat(&tasks), input);
    for (i, t) in tasks.iter().enumerate() {
        assert_eq!(t.index, i);
        assert!(t.text.chars().count() <= 100);
        if i + 1 < tasks.len() {
            let last = t.text.chars().last().unwrap();
            assert!(last == '。' || last == '.' || last == '\n');
        }
    }
}

#[test]
fn rechunking_the_concatenation_gives_the_same_chunks() {
    let mut input = String::new();
    for _ in 0..40 {
        input.push_str("One sentence here. また別の文です。\n");
    }
    let mut c = CharCount;
    let first = chunk_text(&mut c, &input, 64);
    let joined = concat(&first);
    assert_eq!(joined, input);
    let second = chunk_text(&mut c, &joined, 64);
    assert_eq!(first.len(), second.len());
    for (a, b) in first.iter().zip(second.iter()) {
        assert_eq!(a.index, b.index);
        assert_eq!(a.text, b.text);
    }
}

#[test]
fn impossible_budget_falls_back_to_the_whole_rest() {
    // When not even one character fits the budget, the search keeps its
    // initial bound and the step swallows the rest rather than stalling.
    let mut c = CharCount;
    let tasks = chunk_text(&mut c, "aa", 0);
    assert_eq!(tasks.len(), 1);
    assert_eq!(tasks[0].text, "aa");
}
