use vstd::prelude::*;
use crate::text::{replaced, replace_all};

verus! {

/// Fills a worker or reduce template: first every `{SYS_PROMPT}` becomes the
/// system prompt, then every `{TEXT}` in the result becomes the payload.
pub fn render_prompt(template: &str, sys_prompt: &str, text: &str) -> (r: String)
    ensures
        r@ == replaced(replaced(template@, "{SYS_PROMPT}"@, sys_prompt@), "{TEXT}"@, text@),
{
    let with_sys = replace_all(template, "{SYS_PROMPT}", sys_prompt);
    replace_all(with_sys.as_str(), "{TEXT}", text)
}

/// Fills the meta-prompt template: every `{TEXT}` becomes the sample of
/// early summaries the meta pass analyzes.
pub fn render_meta_prompt(template: &str, sample: &str) -> (r: String)
    ensures
        r@ == replaced(template@, "{TEXT}"@, sample@),
{
    replace_all(template, "{TEXT}", sample)
}

} // verus!
