use vstd::prelude::*;
use vstd::string::*;

verus! {

/// Default template for the meta-prompt pass: asks the model to judge the
/// document's genre from early samples and write a system prompt for it.
pub const META_PROMPT_TEMPLATE: &'static str =
    "<|startoftext|><|im_start|>system\nあなたは優秀なプロンプトエンジニアです。<|im_end|>\n<|im_start|>user\n以下のテキスト断片を分析し、元のテキストのジャンル（小説、技術論文、システムログ、議事録など）を判定してください。\nその後、このテキスト全体を最も美しく構造化して要約するための「AIへの指示書（システムプロンプト）」を作成してください。\n出力は150文字以内の「指示書」のみとし、解説や挨拶は一切含めないでください。\n【テキスト断片】\n{TEXT}<|im_end|>\n<|im_start|>assistant\n";

/// Default template for summarizing one chunk.
pub const WORKER_PROMPT_TEMPLATE: &'static str =
    "<|startoftext|><|im_start|>system\n{SYS_PROMPT}\nあなたは入力テキストを要約するAIです。重要なポイントを逃さず、できるだけ簡潔にまとめてください。<|im_end|>\n<|im_start|>user\n以下のテキストを要約してください。\n\n{TEXT}<|im_end|>\n<|im_start|>assistant\n";

/// Default template for compressing the rolling buffer mid-stream.
pub const INTERMEDIATE_REDUCE_PROMPT: &'static str =
    "<|startoftext|><|im_start|>system\n{SYS_PROMPT}<|im_end|>\n<|im_start|>user\n以下のテキスト群を統合・圧縮して、重要なコンテキストを維持した新しい中間要約を生成してください。\n\n{TEXT}<|im_end|>\n<|im_start|>assistant\n";

/// Default template for the final reduce.
pub const FINAL_REDUCE_PROMPT: &'static str =
    "<|startoftext|><|im_start|>system\n{SYS_PROMPT}<|im_end|>\n<|im_start|>user\n以下の内容を統合し、最終的な全体要約を作成してください。\n\n{TEXT}<|im_end|>\n<|im_start|>assistant\n";

/// The pipeline's tunable options that its verified logic reads: context and
/// batch sizes, generation and penalty-window budgets, and the four prompt
/// templates. The sampler's fractional settings (temperature, top-p, repeat
/// penalty) live with the sampler construction outside the library.
pub struct AppConfig {
    pub meta_ctx_size: u32,
    pub main_ctx_size: u32,
    pub max_generate_tokens: i32,
    pub batch_size_limit: usize,
    pub sample_top_k: i32,
    pub penalty_last_n: i32,
    pub meta_prompt_template: String,
    pub worker_prompt_template: String,
    pub intermediate_reduce_prompt: String,
    pub final_reduce_prompt: String,
}

impl Default for AppConfig {
    fn default() -> (c: AppConfig)
        ensures
            c.meta_ctx_size == 8192,
            c.main_ctx_size == 32768,
            c.max_generate_tokens == 32768,
            c.batch_size_limit == 4096,
            c.sample_top_k == 50,
            c.penalty_last_n == 32,
            c.meta_prompt_template@ == META_PROMPT_TEMPLATE@,
            c.worker_prompt_template@ == WORKER_PROMPT_TEMPLATE@,
            c.intermediate_reduce_prompt@ == INTERMEDIATE_REDUCE_PROMPT@,
            c.final_reduce_prompt@ == FINAL_REDUCE_PROMPT@,
    {
        AppConfig {
            meta_ctx_size: 8192,
            main_ctx_size: 32768,
            max_generate_tokens: 32768,
            batch_size_limit: 4096,
            sample_top_k: 50,
            penalty_last_n: 32,
            meta_prompt_template: META_PROMPT_TEMPLATE.to_owned(),
            worker_prompt_template: WORKER_PROMPT_TEMPLATE.to_owned(),
            intermediate_reduce_prompt: INTERMEDIATE_REDUCE_PROMPT.to_owned(),
            final_reduce_prompt: FINAL_REDUCE_PROMPT.to_owned(),
        }
    }
}

} // verus!
