use lfm_cmd::cli::{channel_capacity, Args, DEFAULT_PROMPT};
use lfm_cmd::config::AppConfig;
use lfm_cmd::prompts::{render_meta_prompt, render_prompt};
use lfm_cmd::worker::{
    batch_plan, chunk_report, intermediate_notice, meta_prompt_notice, notable_summary,
};

#[test]
fn notable_summary_is_trimmed() {
    assert_eq!(notable_summary("  要約です。 \n").as_deref(), Some("要約です。"));
}

#[test]
fn silence_on_the_not_notable_phrase() {
    assert!(notable_summary("特になし").is_none());
    assert!(notable_summary("今回は特になしです").is_none());
}

#[test]
fn silence_on_empty_output() {
    assert!(notable_summary("").is_none());
    assert!(notable_summary(" \t\n").is_none());
}

#[test]
fn chunk_report_labels_the_summary() {
    assert_eq!(chunk_report(3, "text"), "[Chunk 3]\ntext");
    assert_eq!(chunk_report(0, "要約"), "[Chunk 0]\n要約");
}

#[test]
fn notices_render_exactly() {
    assert_eq!(intermediate_notice(0), "[Intermediate Reduce 0 Triggered]");
    assert_eq!(intermediate_notice(12), "[Intermediate Reduce 12 Triggered]");
    assert_eq!(meta_prompt_notice("指示"), "[Meta-Prompt Applied]: 指示");
}

#[test]
fn batch_plan_covers_the_prompt() {
    assert_eq!(batch_plan(10, 4), vec![4, 4, 2]);
    assert_eq!(batch_plan(8, 4), vec![4, 4]);
    assert_eq!(batch_plan(3, 4), vec![3]);
    assert_eq!(batch_plan(0, 4), Vec::<usize>::new());
}

#[test]
fn templates_substitute_system_prompt_then_text() {
    assert_eq!(render_prompt("s:{SYS_PROMPT} t:{TEXT}", "SYS", "BODY"), "s:SYS t:BODY");
    assert_eq!(render_meta_prompt("m:{TEXT}", "SAMPLE"), "m:SAMPLE");
}

#[test]
fn worker_prompt_uses_the_default_template() {
    let c = AppConfig::default();
    let p = render_prompt(&c.worker_prompt_template, "SYS", "本文");
    assert!(p.contains("SYS"));
    assert!(p.contains("本文"));
    assert!(!p.contains("{SYS_PROMPT}"));
    assert!(!p.contains("{TEXT}"));
}

#[test]
fn config_defaults_match_the_documented_values() {
    let c = AppConfig::default();
    assert_eq!(c.meta_ctx_size, 8192);
    assert_eq!(c.main_ctx_size, 32768);
    assert_eq!(c.max_generate_tokens, 32768);
    assert_eq!(c.batch_size_limit, 4096);
    assert_eq!(c.sample_top_k, 50);
    assert_eq!(c.penalty_last_n, 32);
    assert!(c.meta_prompt_template.contains("{TEXT}"));
    assert!(c.worker_prompt_template.contains("{SYS_PROMPT}"));
    assert!(c.intermediate_reduce_prompt.contains("{TEXT}"));
    assert!(c.final_reduce_prompt.contains("{SYS_PROMPT}"));
}

#[test]
fn cli_defaults_match_the_documented_values() {
    let a = Args::default();
    assert_eq!(a.tokens, 512);
    assert_eq!(a.workers, 2);
    assert!(a.model.is_none());
    assert_eq!(a.prompt, DEFAULT_PROMPT);
    assert!(a.config.is_none());
}

#[test]
fn channels_are_bounded_at_twice_the_workers() {
    assert_eq!(channel_capacity(2), 4);
    assert_eq!(channel_capacity(8), 16);
}
