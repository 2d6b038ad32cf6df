use vstd::prelude::*;
use vstd::string::*;

verus! {

/// Chunk token target when none is given on the command line.
pub const DEFAULT_TOKENS: usize = 512;

/// Worker count when none is given on the command line.
pub const DEFAULT_WORKERS: usize = 2;

/// Fallback system prompt: used for workers, and for reduces when the
/// meta-prompt pass fails.
pub const DEFAULT_PROMPT: &'static str = "提供されたテキストを解析・要約し3行で出力してください。";

/// The command line as the pipeline reads it. Parsing the real command line
/// happens outside the library and hands over plain values; paths travel as
/// strings.
pub struct Args {
    pub tokens: usize,
    pub workers: usize,
    pub model: Option<String>,
    pub prompt: String,
    pub config: Option<String>,
}

impl Default for Args {
    fn default() -> (a: Args)
        ensures
            a.tokens == DEFAULT_TOKENS,
            a.workers == DEFAULT_WORKERS,
            a.model is None,
            a.prompt@ == DEFAULT_PROMPT@,
            a.config is None,
    {
        Args {
            tokens: DEFAULT_TOKENS,
            workers: DEFAULT_WORKERS,
            model: None,
            prompt: String::from_str(DEFAULT_PROMPT),
            config: None,
        }
    }
}

/// Both pipeline channels are bounded at twice the worker count; this is
/// what backpressures the chunker against the workers and the workers
/// against the reducer.
pub fn channel_capacity(workers: usize) -> (c: usize)
    requires
        workers * 2 <= usize::MAX,
    ensures
        c == workers * 2,
{
    workers * 2
}

} // verus!
