use vstd::prelude::*;
use vstd::string::*;
use crate::text::{contains_seq, contains_str, spec_digits, trim_str, trimmed, usize_string};

verus! {

/// A summary containing this phrase reports that the chunk held nothing
/// notable; the worker then stays silent for that chunk.
pub const NOT_NOTABLE: &'static str = "特になし";

/// A generated summary is notable when, after trimming, something is left
/// and the not-notable phrase does not occur in it.
pub open spec fn notable(generated: Seq<char>) -> bool {
    &&& trimmed(generated).len() > 0
    &&& !contains_seq(trimmed(generated), NOT_NOTABLE@)
}

/// The rule of silence: trims a worker's raw generation and hands back the
/// summary to publish, or nothing when the output is empty or declares the
/// chunk not notable.
pub fn notable_summary(generated: &str) -> (r: Option<String>)
    ensures
        (r is Some) == notable(generated@),
        r matches Some(t) ==> t@ == trimmed(generated@),
{
    let t = trim_str(generated);
    if t.as_str().unicode_len() == 0 {
        None
    } else if contains_str(t.as_str(), NOT_NOTABLE) {
        None
    } else {
        Some(t)
    }
}

/// The worker's stdout report for one notable chunk.
pub fn chunk_report(index: usize, summary: &str) -> (r: String)
    ensures
        r@ == "[Chunk "@ + spec_digits(index as nat) + "]\n"@ + summary@,
{
    let mut r = String::from_str("[Chunk ");
    let num = usize_string(index);
    r.append(num.as_str());
    r.append("]\n");
    r.append(summary);
    proof {
        assert(r@ =~= "[Chunk "@ + spec_digits(index as nat) + "]\n"@ + summary@);
    }
    r
}

/// The reducer's notice that reduce round `round` has been triggered.
pub fn intermediate_notice(round: usize) -> (r: String)
    ensures
        r@ == "[Intermediate Reduce "@ + spec_digits(round as nat) + " Triggered]"@,
{
    let mut r = String::from_str("[Intermediate Reduce ");
    let num = usize_string(round);
    r.append(num.as_str());
    r.append(" Triggered]");
    proof {
        assert(r@ =~= "[Intermediate Reduce "@ + spec_digits(round as nat) + " Triggered]"@);
    }
    r
}

/// The notice printed once when the system prompt is resolved.
pub fn meta_prompt_notice(prompt: &str) -> (r: String)
    ensures
        r@ == "[Meta-Prompt Applied]: "@ + prompt@,
{
    let mut r = String::from_str("[Meta-Prompt Applied]: ");
    r.append(prompt);
    r
}

/// How many prompt tokens go into each decode batch: full batches of
/// `limit`, then one final short batch with whatever remains.
pub open spec fn sum_of(s: Seq<usize>) -> int
    decreases s.len(),
{
    if s.len() == 0 {
        0
    } else {
        sum_of(s.drop_last()) + s.last()
    }
}

/// Splits a prompt of `total` tokens into decode batches of at most
/// `limit` tokens: every batch but the last is full, none is empty, and
/// together they cover the prompt exactly.
pub fn batch_plan(total: usize, limit: usize) -> (sizes: Vec<usize>)
    requires
        limit >= 1,
    ensures
        sum_of(sizes@) == total,
        forall|i: int| 0 <= i < sizes@.len() ==> 1 <= #[trigger] sizes@[i] <= limit,
        forall|i: int| 0 <= i < sizes@.len() - 1 ==> #[trigger] sizes@[i] == limit,
        (total == 0) == (sizes@.len() == 0),
{
    let mut sizes: Vec<usize> = Vec::new();
    let mut remaining: usize = total;
    while remaining > 0
        invariant
            limit >= 1,
            sum_of(sizes@) + remaining == total,
            forall|i: int| 0 <= i < sizes@.len() ==> 1 <= #[trigger] sizes@[i] <= limit,
            forall|i: int| 0 <= i < sizes@.len() - 1 ==> #[trigger] sizes@[i] == limit,
            sizes@.len() > 0 && remaining > 0 ==> sizes@.last() == limit,
            total > 0 || sizes@.len() == 0,
        decreases remaining,
    {
        let step: usize = if remaining < limit {
            remaining
        } else {
            limit
        };
        let ghost old_sizes = sizes@;
        sizes.push(step);
        proof {
            assert(sizes@.drop_last() =~= old_sizes);
        }
        remaining = remaining - step;
    }
    sizes
}

} // verus!
